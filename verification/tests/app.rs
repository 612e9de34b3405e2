use oapitui::app::{build_curl_command, non_empty, resolve_server_base, Action, App, BgMsg, Key, Screen};
use oapitui::client::ResponseResult;
use oapitui::config::{Config, Environment, ServerEntry, ThemeConfig, TlsConfig};
use oapitui::json::JsonValue;
use oapitui::openapi::{
    ApiSpec, Endpoint, DocOperation, DocParameter, ParameterFormat, ParameterLocation, ParameterRef, DocPathItem,
    PathItemRef, ResolvedBody, ResolvedParam, DocStatusCode,
};
use oapitui::schema::{DocSchema, DocSchemaKind, SchemaRef, DocStringFormat};
use oapitui::views::add_server::AddServerField;
use oapitui::views::request_builder::FocusedPane;

fn server(name: &str) -> ServerEntry {
    ServerEntry {
        name: name.to_string(),
        url: "https://example.com/docs/openapi.json".to_string(),
        description: String::new(),
        default_headers: vec![("Authorization".to_string(), "Bearer x".to_string())],
        tls: TlsConfig { client_cert: Some("/c.pem".to_string()), client_key: None, ca_cert: None },
    }
}

fn app() -> App {
    App::new(Config {
        servers: vec![server("petstore"), server("other")],
        theme: ThemeConfig::default(),
        environments: vec![
            Environment { name: "dev".to_string(), variables: vec![("id".to_string(), "42".to_string())] },
            Environment {
                name: "prod".to_string(),
                variables: vec![("host".to_string(), "api.example.com".to_string()), ("id".to_string(), "7".to_string())],
            },
        ],
    })
}

fn press(a: &mut App, key: Key) -> Vec<Action> {
    assert!(a.can_handle(key, false));
    a.handle_key(key, false)
}

fn petstore_spec() -> ApiSpec {
    let op = DocOperation {
        summary: Some("Get a pet".to_string()),
        description: None,
        operation_id: None,
        tags: vec![],
        parameters: vec![ParameterRef::Item(DocParameter {
            location: ParameterLocation::Path,
            name: "id".to_string(),
            required: true,
            description: None,
            format: ParameterFormat::Schema(SchemaRef::Item(Box::new(DocSchema {
                example: None,
                kind: DocSchemaKind::Str { str_enum: vec![], format: DocStringFormat::Empty },
            }))),
        })],
        request_body: None,
        responses: vec![DocStatusCode::Code(200)],
    };
    ApiSpec {
        paths: vec![(
            "/pets/{id}".to_string(),
            PathItemRef::Item(DocPathItem {
                get: Some(op),
                post: None,
                put: None,
                delete: None,
                patch: None,
                head: None,
                options: None,
                trace: None,
            }),
        )],
        components: None,
        server_urls: vec!["/v1".to_string()],
        description: None,
    }
}

#[test]
fn open_server_before_and_after_load() {
    let mut a = app();
    assert!(press(&mut a, Key::Enter).is_empty());
    assert_eq!(a.error.as_deref(), Some("Spec for 'petstore' not loaded yet — press 'r' to retry"));
    press(&mut a, Key::Char('x'));
    assert!(a.error.is_none(), "any key dismisses the error");
    assert!(a.screen == Screen::ServerList);
    a.handle_bg(BgMsg::SpecLoaded { server_name: "petstore".to_string(), spec: petstore_spec() }, 0);
    press(&mut a, Key::Enter);
    assert!(a.screen == Screen::EndpointList);
    assert_eq!(a.endpoint_list.server_base, "https://example.com/v1");
    assert_eq!(a.endpoint_list.endpoints.len(), 1);
    assert_eq!(a.endpoint_list.endpoints[0].path, "/pets/{id}");
}

#[test]
fn refresh_fetches_with_server_tls() {
    let mut a = app();
    press(&mut a, Key::Down);
    let acts = press(&mut a, Key::Char('r'));
    assert_eq!(a.spec_loading, vec!["other".to_string()]);
    match &acts[..] {
        [Action::Fetch { name, url, tls }] => {
            assert_eq!(name, "other");
            assert_eq!(url, "https://example.com/docs/openapi.json");
            assert_eq!(tls.client_cert.as_deref(), Some("/c.pem"));
        },
        _ => panic!("expected one fetch"),
    }
    a.handle_bg(BgMsg::SpecError { server_name: "other".to_string(), error: "timeout".to_string() }, 0);
    assert!(a.spec_loading.is_empty());
    assert_eq!(a.error.as_deref(), Some("Failed to load spec for 'other': timeout"));
}

#[test]
fn delete_server_saves_and_keeps_selection_in_range() {
    let mut a = app();
    press(&mut a, Key::End);
    assert_eq!(a.server_list.selected, 1);
    let acts = press(&mut a, Key::Char('d'));
    assert!(matches!(acts[..], [Action::SaveConfig]));
    assert_eq!(a.config.servers.len(), 1);
    assert_eq!(a.server_list.selected, 0);
}

#[test]
fn add_server_form() {
    let mut a = app();
    press(&mut a, Key::Char('a'));
    assert!(a.screen == Screen::AddServer);
    for c in " new ".chars() {
        press(&mut a, Key::Char(c));
    }
    press(&mut a, Key::Backspace);
    press(&mut a, Key::Tab);
    assert!(a.add_server.field == AddServerField::Url);
    for c in "http://n".chars() {
        press(&mut a, Key::Char(c));
    }
    press(&mut a, Key::Tab);
    press(&mut a, Key::Tab);
    press(&mut a, Key::Tab);
    assert!(a.add_server.field == AddServerField::CaCert);
    for c in " /ca.pem ".chars() {
        press(&mut a, Key::Char(c));
    }
    let acts = press(&mut a, Key::Enter);
    assert!(a.screen == Screen::ServerList);
    let last = a.config.servers.last().unwrap();
    assert_eq!(last.name, "new");
    assert_eq!(last.url, "http://n");
    assert_eq!(last.tls.ca_cert.as_deref(), Some("/ca.pem"));
    assert_eq!(last.tls.client_cert, None);
    assert_eq!(acts.len(), 2);
    assert!(matches!(acts[0], Action::SaveConfig));
    assert!(matches!(&acts[1], Action::Fetch { name, .. } if name == "new"));
    assert_eq!(a.spec_loading, vec!["new".to_string()]);
}

#[test]
fn add_server_needs_name_and_url() {
    let mut a = app();
    press(&mut a, Key::Char('a'));
    press(&mut a, Key::Char(' '));
    let acts = press(&mut a, Key::Enter);
    assert!(acts.is_empty());
    assert!(a.screen == Screen::AddServer);
    press(&mut a, Key::Esc);
    assert!(a.screen == Screen::ServerList);
    assert_eq!(a.config.servers.len(), 2);
}

fn to_builder() -> App {
    let mut a = app();
    a.handle_bg(BgMsg::SpecLoaded { server_name: "petstore".to_string(), spec: petstore_spec() }, 0);
    press(&mut a, Key::Enter);
    press(&mut a, Key::Enter);
    a
}

#[test]
fn open_endpoint_and_send() {
    let mut a = to_builder();
    assert!(a.screen == Screen::RequestBuilder);
    assert_eq!(a.request_builder.rows.len(), 2, "the parameter and the server's default header");
    assert_eq!(a.request_builder.rows[1].name, "Authorization");
    press(&mut a, Key::Char('e'));
    assert!(a.request_builder.focus == FocusedPane::ParamsEdit);
    assert_eq!(a.request_builder.cursor, 6);
    for _ in 0..6 {
        press(&mut a, Key::Backspace);
    }
    press(&mut a, Key::Char('9'));
    press(&mut a, Key::Esc);
    let acts = press(&mut a, Key::Enter);
    match &acts[..] {
        [Action::Send { request, tls }] => {
            assert_eq!(request.resolved_url(), "https://example.com/v1/pets/9");
            assert_eq!(request.headers, vec![("Authorization".to_string(), "Bearer x".to_string())]);
            assert_eq!(tls.client_cert.as_deref(), Some("/c.pem"));
        },
        _ => panic!("expected one send"),
    }
    a.handle_bg(BgMsg::ResponseReady(ResponseResult {
        status: 200,
        headers: vec![],
        body: "a\nb\nc\n".to_string(),
        body_json: None,
        elapsed_ms: 3,
    }), 0);
    assert!(a.screen == Screen::ResponseViewer);
    a.response_viewer.page_size = 1;
    press(&mut a, Key::End);
    assert_eq!(a.response_viewer.scroll, 2);
    press(&mut a, Key::Up);
    press(&mut a, Key::Up);
    press(&mut a, Key::Up);
    assert_eq!(a.response_viewer.scroll, 0);
    press(&mut a, Key::Char('s'));
    for c in " out.json".chars() {
        press(&mut a, Key::Char(c));
    }
    let acts = press(&mut a, Key::Enter);
    assert!(matches!(&acts[..], [Action::WriteFile { path, body }] if path == "out.json" && body == "a\nb\nc\n"));
    assert!(a.response_viewer.save_dialog.is_none());
    a.save_failed("out.json", "denied");
    assert_eq!(a.error.as_deref(), Some("Failed to save 'out.json': denied"));
}

#[test]
fn endpoint_list_filter_keys() {
    let mut a = app();
    a.handle_bg(BgMsg::SpecLoaded { server_name: "petstore".to_string(), spec: petstore_spec() }, 0);
    press(&mut a, Key::Enter);
    press(&mut a, Key::Char('/'));
    for c in "zzz".chars() {
        press(&mut a, Key::Char(c));
    }
    assert_eq!(a.endpoint_list.filter, "zzz");
    press(&mut a, Key::Enter);
    assert!(press(&mut a, Key::Enter).is_empty());
    assert!(a.screen == Screen::EndpointList, "nothing to open");
    press(&mut a, Key::Esc);
    assert_eq!(a.endpoint_list.filter, "");
    press(&mut a, Key::Char('c'));
    assert!(a.endpoint_list.show_curl);
    press(&mut a, Key::Char('q'));
    assert!(!a.should_quit, "the popup takes the key");
    press(&mut a, Key::Esc);
    press(&mut a, Key::Esc);
    assert!(a.screen == Screen::ServerList);
}

#[test]
fn ctrl_c_quits_everywhere() {
    let mut a = to_builder();
    a.error = Some("x".to_string());
    assert!(a.handle_key(Key::Char('c'), true).is_empty());
    assert!(a.should_quit);
    assert!(a.error.is_some());
}

#[test]
fn body_editing_through_keys() {
    let mut a = app();
    let mut spec = petstore_spec();
    if let PathItemRef::Item(item) = &mut spec.paths[0].1 {
        item.get.as_mut().unwrap().parameters.clear();
        item.get.as_mut().unwrap().request_body = None;
    }
    a.handle_bg(BgMsg::SpecLoaded { server_name: "petstore".to_string(), spec }, 0);
    press(&mut a, Key::Enter);
    press(&mut a, Key::Enter);
    a.request_builder.rows.push(oapitui::views::request_builder::FieldRow {
        kind: oapitui::views::request_builder::RowKind::Body,
        name: "body".to_string(),
        type_label: "application/json".to_string(),
        value: "ab\ncd".to_string(),
        required: false,
        enabled: true,
    });
    press(&mut a, Key::Tab);
    assert!(a.request_builder.focus == FocusedPane::BodyNormal);
    press(&mut a, Key::Char('j'));
    press(&mut a, Key::Char('A'));
    assert!(a.request_builder.focus == FocusedPane::BodyInsert);
    assert_eq!(a.request_builder.cursor, 5);
    press(&mut a, Key::Char('!'));
    press(&mut a, Key::Esc);
    press(&mut a, Key::Char('g'));
    press(&mut a, Key::Char('g'));
    assert_eq!(a.request_builder.cursor, 0);
    press(&mut a, Key::Char('d'));
    press(&mut a, Key::Char('d'));
    let body: String = a.request_builder.body_chars().into_iter().collect();
    assert_eq!(body, "cd!");
    press(&mut a, Key::Char('d'));
    press(&mut a, Key::Char('x'));
    assert!(a.request_builder.pending_key.is_none(), "an unknown second key cancels");
}

#[test]
fn server_base_resolution() {
    assert_eq!(resolve_server_base("https://a.io/docs/spec.json", "https://b.io/api"), "https://b.io/api");
    assert_eq!(resolve_server_base("https://a.io/docs/spec.json", "/api"), "https://a.io/api");
    assert_eq!(resolve_server_base("https://a.io/docs/spec.json", "api/v2"), "https://a.io/api/v2");
    assert_eq!(resolve_server_base("http://a.io", "/x"), "http://a.io/x");
    assert_eq!(resolve_server_base("spec.json", "/api"), "/api");
}

#[test]
fn non_empty_trims() {
    assert_eq!(non_empty("  x y \t"), Some("x y".to_string()));
    assert_eq!(non_empty(" \n "), None);
    assert_eq!(non_empty(""), None);
}

fn curl_endpoint(body: Option<ResolvedBody>) -> Endpoint {
    Endpoint {
        method: "POST".to_string(),
        path: "/pets".to_string(),
        summary: String::new(),
        operation_id: None,
        tags: vec![],
        parameters: vec![
            ResolvedParam {
                name: "X-Key".to_string(),
                location: "header".to_string(),
                required: true,
                description: String::new(),
                example: JsonValue::Null,
                schema_type: "string".to_string(),
            },
            ResolvedParam {
                name: "q".to_string(),
                location: "query".to_string(),
                required: false,
                description: String::new(),
                example: JsonValue::Null,
                schema_type: "string".to_string(),
            },
        ],
        request_body: body,
        responses: vec![],
    }
}

#[test]
fn curl_without_body() {
    assert_eq!(
        build_curl_command("https://h.io/v1//", &curl_endpoint(None)),
        "curl -X POST \\\n  'https://h.io/v1/pets' \\\n  -H 'X-Key: <value>'"
    );
}

#[test]
fn curl_with_body_escapes_quotes() {
    let body = ResolvedBody {
        content_type: "application/json".to_string(),
        example: JsonValue::Object(vec![("n".to_string(), JsonValue::Str("it's".to_string()))]),
        description: String::new(),
    };
    assert_eq!(
        build_curl_command("https://h.io", &curl_endpoint(Some(body))),
        "curl -X POST \\\n  'https://h.io/pets' \\\n  -H 'X-Key: <value>' \\\n  -H 'Content-Type: application/json' \\\n  -d '{\n  \"n\": \"it'\\''s\"\n}'"
    );
}

#[test]
fn escape_walks_back_through_the_screens() {
    let mut a = to_builder();
    a.handle_bg(BgMsg::ResponseReady(ResponseResult {
        status: 204,
        headers: vec![],
        body: String::new(),
        body_json: None,
        elapsed_ms: 1,
    }), 0);
    assert!(a.screen == Screen::ResponseViewer);
    assert!(press(&mut a, Key::Esc).is_empty());
    assert!(a.screen == Screen::RequestBuilder);
    assert!(press(&mut a, Key::Esc).is_empty());
    assert!(a.screen == Screen::EndpointList);
    assert!(press(&mut a, Key::Esc).is_empty());
    assert!(a.screen == Screen::ServerList);
    press(&mut a, Key::Char('a'));
    assert!(a.screen == Screen::AddServer);
    press(&mut a, Key::Esc);
    assert!(a.screen == Screen::ServerList);
    assert!(!a.should_quit);
}

#[test]
fn reloaded_spec_replaces_the_earlier_one() {
    let mut a = app();
    a.spec_loading.push("petstore".to_string());
    a.handle_bg(BgMsg::SpecLoaded { server_name: "other".to_string(), spec: petstore_spec() }, 5);
    a.handle_bg(BgMsg::SpecLoaded { server_name: "petstore".to_string(), spec: petstore_spec() }, 10);
    let mut second = petstore_spec();
    second.server_urls = vec!["/v2".to_string()];
    a.handle_bg(BgMsg::SpecLoaded { server_name: "petstore".to_string(), spec: second }, 70);
    assert_eq!(a.last_refreshed, vec![("other".to_string(), 5), ("petstore".to_string(), 70)]);
    a.handle_bg(BgMsg::SpecError { server_name: "other".to_string(), error: "down".to_string() }, 99);
    assert_eq!(a.last_refreshed, vec![("other".to_string(), 5), ("petstore".to_string(), 70)], "a failed load records nothing");
    assert_eq!(a.specs.len(), 2);
    assert_eq!(a.specs[0].0, "other");
    assert_eq!(a.specs[0].1.server_urls, vec!["/v1".to_string()]);
    assert_eq!(a.specs[1].0, "petstore");
    assert_eq!(a.specs[1].1.server_urls, vec!["/v2".to_string()]);
    assert!(a.spec_loading.is_empty());
}

#[test]
fn environment_variables_are_filled_into_requests() {
    let mut a = to_builder();
    assert!(press(&mut a, Key::Char('E')).is_empty());
    let p = a.env_picker.as_ref().expect("the selector is open");
    assert_eq!((p.selected, p.count), (0, 3));
    press(&mut a, Key::Char('j'));
    press(&mut a, Key::Enter);
    assert!(a.env_picker.is_none());
    assert_eq!(a.active_env, Some(0));
    assert_eq!(a.active_env_name().as_deref(), Some("dev"));
    assert!(a.screen == Screen::RequestBuilder);
    press(&mut a, Key::Char('e'));
    for _ in 0..6 {
        press(&mut a, Key::Backspace);
    }
    for c in "{{id}}".chars() {
        press(&mut a, Key::Char(c));
    }
    press(&mut a, Key::Esc);
    let acts = press(&mut a, Key::Enter);
    match &acts[..] {
        [Action::Send { request, .. }] => {
            assert_eq!(request.path_params, vec![("id".to_string(), "42".to_string())]);
            assert_eq!(request.resolved_url(), "https://example.com/v1/pets/42");
            assert_eq!(request.headers, vec![("Authorization".to_string(), "Bearer x".to_string())]);
        },
        _ => panic!("expected one send"),
    }
    press(&mut a, Key::Char('E'));
    assert_eq!(a.env_picker.as_ref().map(|p| p.selected), Some(1));
    press(&mut a, Key::Esc);
    assert_eq!(a.active_env, Some(0), "Esc keeps the active environment");
    press(&mut a, Key::Char('E'));
    press(&mut a, Key::Char('k'));
    press(&mut a, Key::Enter);
    assert_eq!(a.active_env, None);
    let acts = press(&mut a, Key::Enter);
    assert!(matches!(&acts[..], [Action::Send { request, .. }] if request.path_params[0].1 == "{{id}}"));
}

#[test]
fn environment_selector_from_the_server_list() {
    let mut a = app();
    press(&mut a, Key::Char('E'));
    press(&mut a, Key::End);
    press(&mut a, Key::Down);
    press(&mut a, Key::Down);
    press(&mut a, Key::Down);
    assert_eq!(a.env_picker.as_ref().map(|p| p.selected), Some(2), "stops at the last environment");
    press(&mut a, Key::Enter);
    assert_eq!(a.active_env_name().as_deref(), Some("prod"));
    assert!(a.screen == Screen::ServerList);
    assert_eq!(a.server_list.selected, 0, "keys went to the selector");
}

#[test]
fn start_fetches_marks_every_server_loading() {
    let mut a = app();
    let acts = a.start_fetches();
    assert_eq!(acts.len(), 2);
    assert!(matches!(&acts[0], Action::Fetch { name, url, tls }
        if name == "petstore" && url == "https://example.com/docs/openapi.json" && tls.client_cert.as_deref() == Some("/c.pem")));
    assert!(matches!(&acts[1], Action::Fetch { name, .. } if name == "other"));
    assert_eq!(a.spec_loading, vec!["petstore".to_string(), "other".to_string()]);
    let again = a.start_fetches();
    assert_eq!(again.len(), 2);
    assert_eq!(a.spec_loading.len(), 2, "a server already loading is listed once");
}
