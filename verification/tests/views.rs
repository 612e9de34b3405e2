use oapitui::client::ResponseResult;
use oapitui::config::HistoryEntry;
use oapitui::json::JsonValue;
use oapitui::openapi::{Endpoint, ResolvedBody, ResolvedParam};
use oapitui::views::endpoint_list::{EndpointListState, SortMode};
use oapitui::views::env_picker::EnvPickerState;
use oapitui::views::history::HistoryState;
use oapitui::views::request_builder::{FocusedPane, RequestBuilderState, RowKind};
use oapitui::views::response_viewer::ResponseViewerState;

fn param(name: &str, location: &str, required: bool, example: JsonValue) -> ResolvedParam {
    ResolvedParam {
        name: name.to_string(),
        location: location.to_string(),
        required,
        description: String::new(),
        example,
        schema_type: "string".to_string(),
    }
}

fn endpoint(method: &str, path: &str, summary: &str, tags: Vec<&str>) -> Endpoint {
    Endpoint {
        method: method.to_string(),
        path: path.to_string(),
        summary: summary.to_string(),
        operation_id: None,
        tags: tags.into_iter().map(|t| t.to_string()).collect(),
        parameters: vec![],
        request_body: None,
        responses: vec![],
    }
}

fn builder() -> RequestBuilderState {
    let mut ep = endpoint("POST", "/pets/{id}", "", vec![]);
    ep.parameters = vec![
        param("id", "path", true, JsonValue::Str("7".to_string())),
        param("verbose", "query", false, JsonValue::Bool(true)),
        param("X-Req", "header", false, JsonValue::Null),
    ];
    ep.request_body = Some(ResolvedBody {
        content_type: "application/json".to_string(),
        example: JsonValue::Object(vec![("a".to_string(), JsonValue::Number("1".to_string()))]),
        description: String::new(),
    });
    RequestBuilderState::from_endpoint(&ep, "http://h".to_string(), &vec![("Auth".to_string(), "t".to_string())])
}

fn body(rb: &RequestBuilderState) -> String {
    rb.body_chars().into_iter().collect()
}

#[test]
fn from_endpoint_builds_rows() {
    let rb = builder();
    let kinds: Vec<RowKind> = rb.rows.iter().map(|r| r.kind).collect();
    assert!(kinds == vec![RowKind::PathParam, RowKind::QueryParam, RowKind::Header, RowKind::Header, RowKind::Body]);
    assert_eq!(rb.rows[0].value, "7");
    assert_eq!(rb.rows[1].value, "true");
    assert_eq!(rb.rows[2].value, "");
    assert!(rb.rows[0].enabled && !rb.rows[1].enabled && !rb.rows[2].enabled && rb.rows[3].enabled);
    assert_eq!(rb.rows[3].name, "Auth");
    assert_eq!(body(&rb), "{\n  \"a\": 1\n}");
    assert_eq!(rb.param_count(), 4);
    assert!(rb.has_body());
    assert!(rb.focus == FocusedPane::ParamsNav);
}

#[test]
fn toggle_and_row_navigation() {
    let mut rb = builder();
    rb.toggle_enabled();
    assert!(rb.rows[0].enabled, "required rows stay on");
    rb.next_row();
    rb.toggle_enabled();
    assert!(rb.rows[1].enabled);
    rb.next_row();
    rb.next_row();
    rb.next_row();
    assert_eq!(rb.selected, 3, "selection stops at the last parameter row");
    rb.prev_row();
    assert_eq!(rb.selected, 2);
}

#[test]
fn edit_param_value() {
    let mut rb = builder();
    rb.cursor = 1;
    rb.edit_char('x');
    assert_eq!(rb.rows[0].value, "7x");
    rb.edit_backspace();
    rb.edit_backspace();
    assert_eq!(rb.rows[0].value, "");
    assert_eq!(rb.cursor, 0);
    rb.edit_backspace();
    assert_eq!(rb.rows[0].value, "");
}

#[test]
fn type_then_backspace_restores_body() {
    let mut rb = builder();
    rb.cursor = 4;
    let before = body(&rb);
    rb.edit_body_char('z');
    assert_eq!(body(&rb), "{\n  z\"a\": 1\n}");
    rb.edit_body_backspace();
    assert_eq!(body(&rb), before);
    assert_eq!(rb.cursor, 4);
}

#[test]
fn body_cursor_motions() {
    let mut rb = builder();
    // "{\n  \"a\": 1\n}": lines "{", "  \"a\": 1", "}".
    rb.cursor = 0;
    rb.cursor_down();
    assert_eq!(rb.cursor, 2);
    rb.cursor_line_end();
    assert_eq!(rb.cursor, 10);
    rb.cursor_down();
    assert_eq!(rb.cursor, 12, "column clamped to the short last line");
    rb.cursor_up();
    assert_eq!(rb.cursor, 3);
    rb.cursor_line_start();
    assert_eq!(rb.cursor, 2);
    rb.cursor_left();
    rb.cursor_left();
    rb.cursor_left();
    assert_eq!(rb.cursor, 0);
    rb.body_goto_bottom();
    assert_eq!(rb.cursor, 11);
    rb.cursor_right();
    rb.cursor_right();
    assert_eq!(rb.cursor, 12);
    rb.body_goto_top();
    assert_eq!(rb.cursor, 0);
    rb.cursor_up();
    assert_eq!(rb.cursor, 0);
}

#[test]
fn body_delete_line_and_word() {
    let mut rb = builder();
    rb.cursor = 3;
    rb.body_delete_line();
    assert_eq!(body(&rb), "{\n}");
    assert_eq!(rb.cursor, 2);
    rb.body_delete_line();
    assert_eq!(body(&rb), "{");
    assert_eq!(rb.cursor, 1);
    let mut rb = builder();
    rb.cursor = 0;
    rb.body_delete_word();
    assert_eq!(body(&rb), "{\n  \"a\": 1\n}", "punctuation is left alone");
    rb.cursor = 2;
    rb.body_delete_word();
    assert_eq!(body(&rb), "{\n\"a\": 1\n}", "a run of spaces goes");
    rb.cursor = 1;
    rb.edit_body_char('a');
    rb.edit_body_char('b');
    rb.edit_body_char(' ');
    rb.cursor = 1;
    rb.body_delete_word();
    assert_eq!(body(&rb), "{\n\"a\": 1\n}", "a word and the spaces after it go");
}

#[test]
fn build_request_from_rows() {
    let mut rb = builder();
    let r = rb.build_request();
    assert_eq!(r.method, "POST");
    assert_eq!(r.path_params, vec![("id".to_string(), "7".to_string())]);
    assert!(r.query_params.is_empty(), "optional rows start off");
    assert_eq!(r.headers, vec![("Auth".to_string(), "t".to_string())]);
    assert_eq!(r.body, Some("{\n  \"a\": 1\n}".to_string()));
    rb.selected = 1;
    rb.toggle_enabled();
    rb.cursor = 0;
    rb.edit_body_char('x');
    let r = rb.build_request();
    assert_eq!(r.query_params, vec![("verbose".to_string(), "true".to_string())]);
    assert_eq!(r.body, None, "a body that is not JSON is not sent");
}

fn list() -> EndpointListState {
    EndpointListState::new(
        vec![
            endpoint("POST", "/pets", "Create", vec!["pets"]),
            endpoint("GET", "/users", "List users", vec!["people"]),
            endpoint("DELETE", "/pets/{id}", "Remove", vec![]),
            endpoint("GET", "/pets", "List pets", vec!["Animals"]),
        ],
        "s".to_string(),
        "http://h".to_string(),
    )
}

fn paths(el: &EndpointListState) -> Vec<String> {
    el.filtered().iter().map(|e| format!("{} {}", e.method, e.path)).collect()
}

#[test]
fn endpoint_filter_ignores_case() {
    let mut el = list();
    el.filter = "ANIMAL".to_string();
    assert_eq!(paths(&el), vec!["GET /pets"]);
    el.filter = "pets".to_string();
    assert_eq!(paths(&el), vec!["POST /pets", "DELETE /pets/{id}", "GET /pets"]);
    el.filter = "get".to_string();
    assert_eq!(paths(&el), vec!["GET /users", "GET /pets"]);
}

#[test]
fn endpoint_sort_is_stable() {
    let mut el = list();
    el.sort_mode = SortMode::ByMethod;
    assert_eq!(paths(&el), vec!["DELETE /pets/{id}", "GET /users", "GET /pets", "POST /pets"]);
    el.sort_mode = SortMode::ByPath;
    assert_eq!(paths(&el), vec!["POST /pets", "GET /pets", "DELETE /pets/{id}", "GET /users"]);
    assert_eq!(SortMode::ByPath.next().label(), "none");
    assert_eq!(SortMode::Unsorted.next().label(), "method");
}

#[test]
fn endpoint_navigation() {
    let mut el = list();
    el.page_size = 2;
    el.next();
    assert_eq!(el.selected, 1);
    el.page_down();
    assert_eq!(el.selected, 3);
    el.next();
    assert_eq!(el.selected, 3);
    el.page_up();
    assert_eq!(el.selected, 1);
    el.end();
    assert_eq!(el.selected, 3);
    el.home();
    assert_eq!(el.selected, 0);
    el.prev();
    assert_eq!(el.selected, 0);
    el.filter = "users".to_string();
    el.selected = 1;
    assert!(el.selected_endpoint().is_none());
    el.selected = 0;
    assert_eq!(el.selected_endpoint().unwrap().path, "/users");
}

fn entry(method: &str, path: &str, server: &str) -> HistoryEntry {
    HistoryEntry {
        method: method.to_string(),
        path: path.to_string(),
        server_name: server.to_string(),
        url: String::new(),
        status: 200,
        elapsed_ms: 5,
        timestamp: String::new(),
        params: vec![],
    }
}

#[test]
fn history_most_recent_first() {
    let mut h = HistoryState::new(vec![entry("GET", "/a", "one"), entry("POST", "/b", "two"), entry("GET", "/c", "One")]);
    let order: Vec<String> = h.filtered().iter().map(|e| e.path.clone()).collect();
    assert_eq!(order, vec!["/c", "/b", "/a"]);
    h.filter = "ONE".to_string();
    let order: Vec<String> = h.filtered().iter().map(|e| e.path.clone()).collect();
    assert_eq!(order, vec!["/c", "/a"]);
    h.next();
    h.next();
    assert_eq!(h.selected, 1);
    assert_eq!(h.selected_entry().unwrap().path, "/a");
}

#[test]
fn env_picker_roundtrip() {
    let mut p = EnvPickerState::new(3, Some(1));
    assert_eq!(p.chosen_env(), Some(1));
    p.next();
    p.next();
    p.next();
    assert_eq!(p.chosen_env(), Some(2));
    p.prev();
    p.prev();
    p.prev();
    p.prev();
    assert_eq!(p.chosen_env(), None);
    assert_eq!(EnvPickerState::new(0, None).chosen_env(), None);
}

#[test]
fn response_viewer_pretty_prints_json() {
    let r = ResponseResult {
        status: 201,
        headers: vec![("content-type".to_string(), "application/json".to_string())],
        body: "{\"x\":[]}".to_string(),
        body_json: Some(JsonValue::Object(vec![("x".to_string(), JsonValue::Array(vec![]))])),
        elapsed_ms: 12,
    };
    let v = ResponseViewerState::from_response(r);
    assert_eq!(v.body, "{\n  \"x\": []\n}");
    assert_eq!(v.status, 201);
    assert_eq!(v.elapsed_ms, 12);
    let raw = ResponseResult { status: 500, headers: vec![], body: "oops".to_string(), body_json: None, elapsed_ms: 1 };
    assert_eq!(ResponseViewerState::from_response(raw).body, "oops");
}

#[test]
fn toggle_never_touches_the_body_row() {
    let mut ep = endpoint("POST", "/pets", "", vec![]);
    ep.request_body = Some(ResolvedBody {
        content_type: "application/json".to_string(),
        example: JsonValue::Null,
        description: String::new(),
    });
    let mut rb = RequestBuilderState::from_endpoint(&ep, "http://h".to_string(), &vec![]);
    assert_eq!(rb.param_count(), 0);
    assert!(rb.rows[0].kind == RowKind::Body);
    let before = rb.rows[0].enabled;
    rb.toggle_enabled();
    assert_eq!(rb.rows[0].enabled, before);
    let mut rb = builder();
    rb.selected = 1;
    rb.toggle_enabled();
    assert!(rb.rows[1].enabled, "an optional parameter is switched on");
}

#[test]
fn focusing_the_body_brings_the_cursor_into_it() {
    let mut rb = builder();
    rb.cursor = 500;
    rb.focus_body();
    assert!(rb.focus == FocusedPane::BodyNormal);
    assert_eq!(rb.cursor, body(&rb).chars().count());
    rb.cursor = 2;
    rb.focus_body();
    assert_eq!(rb.cursor, 2);
}

#[test]
fn down_then_up_returns_to_the_same_place() {
    let mut rb = builder();
    // "{\n  \"a\": 1\n}": column 0 of the first line holds on the second.
    rb.cursor = 1;
    rb.cursor_down();
    assert_eq!(rb.cursor, 3);
    rb.cursor_up();
    assert_eq!(rb.cursor, 1);
}

#[test]
fn type_then_backspace_in_a_value() {
    let mut rb = builder();
    rb.selected = 0;
    rb.cursor = 1;
    rb.edit_char('x');
    assert_eq!(rb.rows[0].value, "7x");
    rb.edit_backspace();
    assert_eq!(rb.rows[0].value, "7");
    assert_eq!(rb.cursor, 1);
}
