use oapitui::config::ThemeConfig;
use oapitui::theme::{parse_color, Color, Theme};

#[test]
fn parse_color_names() {
    assert_eq!(parse_color("red"), Some(Color::Red));
    assert_eq!(parse_color("dark_gray"), Some(Color::DarkGray));
    assert_eq!(parse_color("darkgrey"), Some(Color::DarkGray));
    assert_eq!(parse_color("purple"), Some(Color::Magenta));
    assert_eq!(parse_color("grey"), Some(Color::Gray));
    assert_eq!(parse_color("lightcyan"), Some(Color::LightCyan));
    assert_eq!(parse_color("reset"), Some(Color::Reset));
}

#[test]
fn parse_color_trims_and_ignores_case() {
    assert_eq!(parse_color("  Light_Blue \n"), Some(Color::LightBlue));
    assert_eq!(parse_color("WHITE"), Some(Color::White));
}

#[test]
fn parse_color_hex() {
    assert_eq!(parse_color("#1e1e2e"), Some(Color::Rgb(0x1e, 0x1e, 0x2e)));
    assert_eq!(parse_color("#FF0080"), Some(Color::Rgb(255, 0, 128)));
    assert_eq!(parse_color("#12345"), None);
    assert_eq!(parse_color("#1234567"), None);
    assert_eq!(parse_color("#gg0000"), None);
    // Each pair is read as `u8::from_str_radix` reads it, which takes a leading `+`.
    assert_eq!(parse_color("#+f+f+f"), Some(Color::Rgb(15, 15, 15)));
}

#[test]
fn parse_color_hex_with_wide_character() {
    // Six bytes whose first pair is one two-byte character: read, and rejected.
    assert_eq!(parse_color("#é1234"), None);
}

#[test]
fn parse_color_index() {
    assert_eq!(parse_color("42"), Some(Color::Indexed(42)));
    assert_eq!(parse_color("+7"), Some(Color::Indexed(7)));
    assert_eq!(parse_color("007"), Some(Color::Indexed(7)));
    assert_eq!(parse_color("255"), Some(Color::Indexed(255)));
    assert_eq!(parse_color("256"), None);
    assert_eq!(parse_color("-1"), None);
    assert_eq!(parse_color("+"), None);
    assert_eq!(parse_color(""), None);
    assert_eq!(parse_color("chartreuse"), None);
}

#[test]
fn theme_defaults_without_overrides() {
    let t = Theme::from_config(&ThemeConfig::default());
    assert_eq!(t.method_get, Color::Green);
    assert_eq!(t.method_post, Color::Yellow);
    assert_eq!(t.status_5xx, Color::Magenta);
    assert_eq!(t.selected_bg, Color::DarkGray);
    assert_eq!(t.cursor_block_fg, Color::Black);
    assert_eq!(t.filter_inactive, Color::Cyan);
}

#[test]
fn theme_overrides_and_bad_values() {
    let mut cfg = ThemeConfig::default();
    cfg.method_get = Some("#010203".to_string());
    cfg.title = Some("not a colour".to_string());
    let t = Theme::from_config(&cfg);
    assert_eq!(t.method_get, Color::Rgb(1, 2, 3));
    assert_eq!(t.title, Color::Cyan);
}

#[test]
fn method_and_status_colors() {
    let t = Theme::from_config(&ThemeConfig::default());
    assert_eq!(t.method_color("DELETE"), Color::Red);
    assert_eq!(t.method_color("get"), Color::White);
    assert_eq!(t.method_color("OPTIONS"), Color::White);
    assert_eq!(t.status_color(204), Color::Green);
    assert_eq!(t.status_color(302), Color::Yellow);
    assert_eq!(t.status_color(404), Color::Red);
    assert_eq!(t.status_color(599), Color::Magenta);
    assert_eq!(t.status_color(600), Color::White);
    assert_eq!(t.status_color(0), Color::White);
}
