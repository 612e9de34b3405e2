//! The state behind each screen.

pub mod request_builder;
pub mod endpoint_list;
pub mod server_list;
pub mod add_server;
pub mod env_picker;
pub mod response_viewer;
pub mod history;
