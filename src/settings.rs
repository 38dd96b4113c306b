//! The settings page's two handlers: one shows the current theme, the other
//! takes a new one and sends the client back to the page.

use crate::cookie::{resolve_cookie, theme_from_cookie, DEFAULT_THEME};
use crate::headers::{
    ascii_chars, first_header, first_value, header_entries, header_text, is_visible_ascii,
};
use axum::http::HeaderMap;
use axum::response::Redirect;
use vstd::prelude::*;

verus! {

#[verifier::external_type_specification]
#[verifier::external_body]
pub struct ExRedirect(Redirect);

/// The address of the settings page.
pub const SETTINGS_PATH: &'static str = "/settings";

/// The request header that carries cookies, in lower case.
pub const COOKIE_HEADER: &'static str = "cookie";

/// The redirect that `Redirect::to` makes for an address.
pub uninterp spec fn redirect_for(uri: Seq<char>) -> Redirect;

/// The data that the settings page is rendered from.
pub struct SettingsTemplate {
    pub theme: String,
}

/// The query of a theme change: the submitted theme, if any.
pub struct ThemeQuery {
    pub theme: Option<String>,
}

/// The theme that a request's headers select: that of the first `cookie`
/// header, when its value is text, else the default.
pub open spec fn header_theme(m: Map<Seq<char>, Seq<Seq<u8>>>) -> Seq<char> {
    match first_value(m, COOKIE_HEADER@) {
        Some(b) => if forall|i: int| 0 <= i < b.len() ==> is_visible_ascii(#[trigger] b[i]) {
            resolve_cookie(ascii_chars(b))
        } else {
            DEFAULT_THEME@
        },
        None => DEFAULT_THEME@,
    }
}

/// The theme that the settings page shows for a request with these headers.
pub open spec fn view_theme(headers: HeaderMap) -> Seq<char> {
    header_theme(header_entries(headers))
}

/// The response to any theme change.
pub open spec fn update_response(params: ThemeQuery) -> Redirect {
    redirect_for(SETTINGS_PATH@)
}

/// Relies on axum's `Redirect::to`: a `303 See Other` to `uri`, which depends
/// on `uri` alone. It panics unless `uri` is a valid header value, which
/// visible ASCII is.
#[verifier::external_body]
fn redirect_to(uri: &str) -> (r: Redirect)
    requires
        forall|i: int| 0 <= i < uri@.len() ==> ' ' <= #[trigger] uri@[i] <= '~',
    ensures
        r == redirect_for(uri@),
{
    Redirect::to(uri)
}

/// The active theme of a request: the `theme` entry of its cookie header,
/// else `light`.
pub fn get_theme_from_cookie(headers: &HeaderMap) -> (r: String)
    ensures
        r@ == view_theme(*headers),
{
    proof {
        reveal_strlit("cookie");
    }
    if let Some(value) = first_header(headers, COOKIE_HEADER) {
        if let Some(text) = header_text(value) {
            return theme_from_cookie(text.as_str());
        }
    }
    String::from_str(DEFAULT_THEME)
}

/// The settings page's data for a request: the theme it selects.
pub fn get_settings(headers: &HeaderMap) -> (r: SettingsTemplate)
    ensures
        r.theme@ == view_theme(*headers),
{
    let theme = get_theme_from_cookie(headers);
    SettingsTemplate { theme }
}

impl ThemeQuery {
    /// The submitted theme, or `light` when none was given.
    pub fn requested_theme(&self) -> (r: String)
        ensures
            r@ == match self.theme {
                Some(t) => t@,
                None => DEFAULT_THEME@,
            },
    {
        match &self.theme {
            Some(t) => t.clone(),
            None => String::from_str(DEFAULT_THEME),
        }
    }
}

/// A theme change: the client keeps the new theme itself, so whatever was
/// submitted the answer is a redirect to the settings page.
pub fn post_settings(params: ThemeQuery) -> (r: Redirect)
    ensures
        r == update_response(params),
{
    let _theme = params.requested_theme();
    proof {
        reveal_strlit("/settings");
    }
    redirect_to(SETTINGS_PATH)
}

/// Without a `cookie` header the theme is the default.
pub proof fn lemma_no_cookie_is_light(headers: HeaderMap)
    requires
        !header_entries(headers).contains_key(COOKIE_HEADER@),
    ensures
        view_theme(headers) == DEFAULT_THEME@,
{
}

/// The settings page's data depends on the request's headers alone: the
/// same headers give the same theme.
pub proof fn lemma_view_depends_on_headers(h1: HeaderMap, h2: HeaderMap)
    requires
        header_entries(h1) == header_entries(h2),
    ensures
        view_theme(h1) == view_theme(h2),
{
}

/// The answer to a theme change does not depend on the theme submitted.
pub proof fn lemma_update_ignores_theme(p1: ThemeQuery, p2: ThemeQuery)
    ensures
        update_response(p1) == update_response(p2),
        update_response(p1) == redirect_for(SETTINGS_PATH@),
{
}

} // verus!
