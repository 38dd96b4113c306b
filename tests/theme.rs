use axum::http::header::{HeaderName, LOCATION};
use axum::http::{HeaderMap, HeaderValue, StatusCode};
use axum::response::IntoResponse;
use theme_settings::cookie::{
    entry_value, find_char, is_whitespace, theme_from_cookie, trim_ws, DEFAULT_THEME,
};
use theme_settings::settings::{
    get_settings, get_theme_from_cookie, post_settings, ThemeQuery, SETTINGS_PATH,
};

fn with_cookie(value: &'static str) -> HeaderMap {
    let mut headers = HeaderMap::new();
    headers.insert("cookie", HeaderValue::from_static(value));
    headers
}

#[test]
fn no_headers_give_light() {
    assert_eq!(get_theme_from_cookie(&HeaderMap::new()), "light");
}

#[test]
fn other_headers_without_cookie_give_light() {
    let mut headers = HeaderMap::new();
    headers.insert("accept", HeaderValue::from_static("text/html"));
    headers.insert("x-theme", HeaderValue::from_static("theme=dark"));
    assert_eq!(get_theme_from_cookie(&headers), "light");
}

#[test]
fn dark_entry_alone() {
    assert_eq!(get_theme_from_cookie(&with_cookie("theme=dark")), "dark");
}

#[test]
fn dark_entry_among_others_with_whitespace() {
    let headers = with_cookie("session=abc123;   theme =\tdark  ; lang=en");
    assert_eq!(get_theme_from_cookie(&headers), "dark");
    assert_eq!(theme_from_cookie("a=1;b=2; theme=dark"), "dark");
    assert_eq!(theme_from_cookie(";;theme=dark;"), "dark");
}

#[test]
fn first_theme_entry_wins() {
    let headers = with_cookie("foo=bar; theme=dark; theme=light");
    assert_eq!(get_theme_from_cookie(&headers), "dark");
    assert_eq!(theme_from_cookie("theme=light; theme=dark"), "light");
}

#[test]
fn name_and_value_are_trimmed() {
    assert_eq!(get_theme_from_cookie(&with_cookie("  theme  =  blue  ")), "blue");
}

#[test]
fn entry_without_equals_is_skipped() {
    assert_eq!(get_theme_from_cookie(&with_cookie("justtext")), "light");
    assert_eq!(theme_from_cookie("theme; theme=green"), "green");
}

#[test]
fn empty_cookie_gives_light() {
    assert_eq!(theme_from_cookie(""), "light");
    assert_eq!(theme_from_cookie(" ; ;"), "light");
}

#[test]
fn entry_name_is_case_sensitive() {
    assert_eq!(theme_from_cookie("Theme=dark"), "light");
    assert_eq!(theme_from_cookie("THEME=dark; theme=sepia"), "sepia");
}

#[test]
fn value_split_at_first_equals() {
    assert_eq!(theme_from_cookie("theme=a=b"), "a=b");
    assert_eq!(theme_from_cookie("theme="), "");
    assert_eq!(theme_from_cookie("theme =  "), "");
}

#[test]
fn unicode_whitespace_is_trimmed() {
    assert_eq!(theme_from_cookie("\u{3000}theme\u{a0}=\u{2003}dark\u{85}"), "dark");
}

#[test]
fn header_name_is_case_insensitive() {
    let mut headers = HeaderMap::new();
    let name = HeaderName::from_bytes(b"Cookie").unwrap();
    headers.insert(name, HeaderValue::from_static("theme=dark"));
    assert_eq!(get_theme_from_cookie(&headers), "dark");
}

#[test]
fn first_cookie_header_is_used() {
    let mut headers = HeaderMap::new();
    headers.append("cookie", HeaderValue::from_static("theme=dark"));
    headers.append("cookie", HeaderValue::from_static("theme=blue"));
    assert_eq!(get_theme_from_cookie(&headers), "dark");
}

#[test]
fn cookie_that_is_not_text_gives_light() {
    let mut headers = HeaderMap::new();
    headers.insert("cookie", HeaderValue::from_bytes(b"theme=d\xffark").unwrap());
    assert_eq!(get_theme_from_cookie(&headers), "light");
}

#[test]
fn settings_view_carries_theme() {
    let view = get_settings(&with_cookie("theme=ocean"));
    assert_eq!(view.theme, "ocean");
    assert_eq!(get_settings(&HeaderMap::new()).theme, DEFAULT_THEME);
}

#[test]
fn settings_view_is_repeatable() {
    let headers = with_cookie("x=1; theme = dusk");
    let first = get_settings(&headers);
    let second = get_settings(&headers);
    assert_eq!(first.theme, second.theme);
    assert_eq!(first.theme, "dusk");
}

#[test]
fn update_redirects_whatever_the_theme() {
    let with_theme = post_settings(ThemeQuery { theme: Some("dark".to_string()) }).into_response();
    let without = post_settings(ThemeQuery { theme: None }).into_response();
    assert_eq!(with_theme.status(), StatusCode::SEE_OTHER);
    assert_eq!(with_theme.status(), without.status());
    assert_eq!(with_theme.headers().get(LOCATION).unwrap(), SETTINGS_PATH);
    assert_eq!(with_theme.headers().get(LOCATION), without.headers().get(LOCATION));
}

#[test]
fn requested_theme_defaults_to_light() {
    assert_eq!(ThemeQuery { theme: None }.requested_theme(), "light");
    let q = ThemeQuery { theme: Some("dark".to_string()) };
    assert_eq!(q.requested_theme(), "dark");
}

#[test]
fn whitespace_classes() {
    assert!(is_whitespace(' '));
    assert!(is_whitespace('\t'));
    assert!(is_whitespace('\u{2028}'));
    assert!(!is_whitespace('x'));
    assert!(!is_whitespace('\u{200b}'));
    for c in ['\u{0}', 'a', ';', '=', '\u{85}', '\u{1680}', '\u{200a}', '\u{3000}', '\u{feff}'] {
        assert_eq!(is_whitespace(c), c.is_whitespace());
    }
}

#[test]
fn trim_matches_std() {
    for s in ["", "  ", " a b ", "\u{3000}x\u{a0}", "none"] {
        assert_eq!(trim_ws(s), s.trim());
    }
}

#[test]
fn find_char_positions() {
    assert_eq!(find_char("a;b;c", ';', 0), 1);
    assert_eq!(find_char("a;b;c", ';', 2), 3);
    assert_eq!(find_char("abc", ';', 0), 3);
    assert_eq!(find_char("é;x", ';', 0), 1);
}

#[test]
fn entry_values() {
    assert_eq!(entry_value(" theme = x "), Some("x".to_string()));
    assert_eq!(entry_value("lang=en"), None);
    assert_eq!(entry_value("theme"), None);
}
