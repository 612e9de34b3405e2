use oapitui::ui::texts::{body_scroll_fits, param_row_style};
use oapitui::views::request_builder::{FieldRow, RowKind};
use oapitui::app::Screen;
use oapitui::config::{HistoryEntry, ThemeConfig};
use oapitui::json::JsonValue;
use oapitui::openapi::{Endpoint, ResolvedParam};
use oapitui::theme::{Color, Theme};
use oapitui::ui::body::{body_with_bar_cursor, body_with_block_cursor, colorize_json_line};
use oapitui::ui::detail::{build_detail, build_detail_lines};
use oapitui::ui::markdown::markdown_to_lines;
use oapitui::ui::{
    centered_rect_fixed, error_area, format_elapsed, help_bar, selected_style, status_text, title_style, Line, Rect, Style,
};

fn theme() -> Theme {
    Theme::from_config(&ThemeConfig::default())
}

fn texts(l: &Line) -> Vec<String> {
    l.spans.iter().map(|s| s.text.clone()).collect()
}

fn joined(ls: &[Line]) -> Vec<String> {
    ls.iter().map(|l| l.spans.iter().map(|s| s.text.as_str()).collect::<String>()).collect()
}

fn fg(c: Color) -> Style {
    Style { fg: Some(c), bg: None, bold: false, italic: false, dim: false }
}

#[test]
fn status_phrases() {
    assert_eq!(status_text(200), "OK");
    assert_eq!(status_text(422), "Unprocessable Entity");
    assert_eq!(status_text(503), "Service Unavailable");
    assert_eq!(status_text(418), "");
}

#[test]
fn elapsed_times() {
    assert_eq!(format_elapsed(0), "0s ago");
    assert_eq!(format_elapsed(59), "59s ago");
    assert_eq!(format_elapsed(60), "1m ago");
    assert_eq!(format_elapsed(3599), "59m ago");
    assert_eq!(format_elapsed(7200), "2h ago");
    assert_eq!(format_elapsed(86400 * 3 + 5), "3d ago");
}

#[test]
fn centered_rectangles() {
    let r = Rect { x: 10, y: 5, width: 100, height: 20 };
    assert_eq!(centered_rect_fixed(70, 6, r), Rect { x: 25, y: 12, width: 70, height: 6 });
    assert_eq!(centered_rect_fixed(200, 50, r), r);
    assert_eq!(Rect::new(65530, 0, 10, 10), Rect { x: 65530, y: 0, width: 5, height: 10 });
}

#[test]
fn error_popup_size() {
    let area = Rect { x: 0, y: 0, width: 24, height: 30 };
    // Inner width 18: a 40-byte line takes three rows, plus the borders.
    let msg = "a".repeat(40);
    assert_eq!(error_area(area, &msg), Rect { x: 2, y: 23, width: 20, height: 5 });
    assert_eq!(error_area(area, "short\n\nx"), Rect { x: 2, y: 23, width: 20, height: 5 });
    let long = "b".repeat(500);
    assert_eq!(error_area(area, &long).height, 8);
    assert_eq!(error_area(Rect { x: 0, y: 0, width: 5, height: 3 }, "x"), Rect { x: 2, y: 0, width: 1, height: 3 });
}

#[test]
fn json_line_colours() {
    let t = theme();
    let l = colorize_json_line("    \"id\": 12,", &t);
    assert_eq!(texts(&l), vec!["    ", "\"id\":", " ", "12,"]);
    assert!(l.spans[3].style == fg(Color::Yellow));
    assert!(l.spans[1].style == fg(Color::Cyan));
    let l = colorize_json_line("  \"ok\": true", &t);
    assert!(l.spans[3].style == fg(Color::Magenta));
    let l = colorize_json_line("\"s\":   \"x\"", &t);
    assert_eq!(texts(&l), vec!["", "\"s\":", " ", "\"x\""]);
    assert!(l.spans[3].style == fg(Color::Green));
    let l = colorize_json_line("  ]", &t);
    assert_eq!(texts(&l), vec!["  ]"]);
    // The indentation counts bytes: an ideographic space is three.
    let l = colorize_json_line("\u{3000}\"k\": null", &t);
    assert_eq!(texts(&l)[0], "   ");
    assert!(l.spans[3].style == fg(Color::DarkGray));
}

#[test]
fn block_and_bar_cursors() {
    let t = theme();
    let ls = body_with_block_cursor("ab\ncd", 4, &t);
    assert_eq!(ls.len(), 2);
    assert_eq!(texts(&ls[0]), vec!["ab"]);
    assert_eq!(texts(&ls[1]), vec!["c", "d", ""]);
    assert!(ls[1].spans[1].style.bg == Some(Color::White));
    let ls = body_with_block_cursor("ab\n", 2, &t);
    assert_eq!(texts(&ls[0]), vec!["ab", " ", ""]);
    assert_eq!(ls[1].spans.len(), 0);
    let ls = body_with_bar_cursor("ab\ncd", 3, &t);
    assert_eq!(texts(&ls[1]), vec!["", "│", "cd"]);
    assert_eq!(body_with_bar_cursor("", 0, &t).len(), 1);
}

#[test]
fn help_bar_entries() {
    let l = help_bar(Screen::AddServer, &theme());
    assert_eq!(texts(&l), vec![" Tab", " switch field ", " Enter", " confirm ", " Esc", " cancel "]);
    assert!(l.spans[0].style == fg(Color::Yellow));
}

#[test]
fn endpoint_detail_lines() {
    let ep = Endpoint {
        method: "GET".to_string(),
        path: "/pets".to_string(),
        summary: "List".to_string(),
        operation_id: Some("listPets".to_string()),
        tags: vec!["a".to_string(), "b".to_string()],
        parameters: vec![ResolvedParam {
            name: "limit".to_string(),
            location: "query".to_string(),
            required: false,
            description: "Max".to_string(),
            example: JsonValue::Number("10".to_string()),
            schema_type: "integer".to_string(),
        }],
        request_body: None,
        responses: vec!["200".to_string(), "4XX".to_string()],
    };
    let t = theme();
    let ls = build_detail_lines(&ep, &t);
    assert_eq!(
        joined(&ls),
        vec![
            "GET  /pets",
            "",
            "Summary  List",
            "",
            "Operation listPets",
            "Tags     a, b",
            "",
            "── Parameters ",
            "",
            "  limit  [query]  integer",
            "  Max",
            "  example  10",
            "",
            "── Responses ",
            "",
            "200  4XX",
            "",
        ]
    );
    let codes = ls.iter().find(|l| l.spans.first().map(|s| s.text.as_str()) == Some("200")).unwrap();
    assert!(codes.spans[0].style.fg == Some(Color::Green));
    assert!(codes.spans[2].style.fg == Some(Color::White));
}

#[test]
fn history_detail_sorts_parameters() {
    let e = HistoryEntry {
        method: "POST".to_string(),
        path: "/x".to_string(),
        server_name: "s".to_string(),
        url: "http://s/x".to_string(),
        status: 404,
        elapsed_ms: 15,
        timestamp: "t".to_string(),
        params: vec![("b".to_string(), "2".to_string()), ("a".to_string(), "1".to_string())],
    };
    let ls = build_detail(&e, &theme());
    assert_eq!(
        joined(&ls),
        vec![
            "POST  /x",
            "",
            "Server:    s",
            "URL:       http://s/x",
            "Status:    404",
            "Elapsed:   15ms",
            "Timestamp: t",
            "",
            "── Parameters ",
            "  a: 1",
            "  b: 2",
            "",
            "Enter = re-open endpoint  d = delete  Esc = back",
        ]
    );
}

#[test]
fn markdown_layout() {
    let t = theme();
    let ls = markdown_to_lines("# Title\n\nSome **bold** and `code`.\n\n- one\n- two\n\n3. x\n4. y\n\n---\n", &t).unwrap();
    assert_eq!(
        joined(&ls),
        vec![
            "Title",
            "",
            "Some bold and `code`.",
            "",
            "• one",
            "• two",
            "",
            "3. x",
            "4. y",
            "",
            "────────────────────────────────────────",
            "",
        ]
    );
    assert!(ls[0].spans[0].style == Style { fg: Some(Color::Yellow), bg: None, bold: true, italic: false, dim: false });
    assert!(ls[2].spans[1].style.bold);
    assert!(ls[2].spans[3].style == fg(Color::Green));
}

#[test]
fn title_and_selection_styles() {
    let t = theme();
    assert_eq!(title_style(&t), Style { fg: Some(Color::Cyan), bg: None, bold: true, italic: false, dim: false });
    assert_eq!(selected_style(&t), Style { fg: None, bg: Some(Color::DarkGray), bold: true, italic: false, dim: false });
}

#[test]
fn parameter_row_styles_and_scroll_room() {
    let t = theme();
    let row = FieldRow {
        kind: RowKind::QueryParam,
        name: "q".to_string(),
        type_label: "string".to_string(),
        value: String::new(),
        required: false,
        enabled: false,
    };
    assert_eq!(param_row_style(&row, true, &t), selected_style(&t));
    assert_eq!(param_row_style(&row, false, &t), Style { fg: None, bg: None, bold: false, italic: false, dim: true });
    let on = FieldRow { enabled: true, ..row };
    assert_eq!(param_row_style(&on, false, &t), Style { fg: None, bg: None, bold: false, italic: false, dim: false });
    assert!(body_scroll_fits("a\nb", 3, 0));
    assert!(body_scroll_fits(&"\n".repeat(70000), 70000, 1));
    assert!(!body_scroll_fits(&"\n".repeat(65535), 65535, 0));
}
