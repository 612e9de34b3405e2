//! Core logic of a terminal client for exploring and calling OpenAPI services:
//! configuration, a model of OpenAPI documents, example generation, request
//! assembly, the editor state of the request builder and the screen state machine.

pub mod text;
pub mod json;
pub mod schema;
pub mod openapi;
pub mod document;
pub mod config;
pub mod client;
pub mod views;
pub mod theme;
pub mod app;
pub mod ui;
pub mod laws;
pub mod request_laws;
