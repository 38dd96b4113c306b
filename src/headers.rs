//! What the library relies on from http's header map, as re-exported by axum.

use axum::http::{HeaderMap, HeaderValue};
use vstd::prelude::*;

verus! {

#[verifier::external_type_specification]
#[verifier::external_body]
#[verifier::reject_recursive_types(T)]
pub struct ExHeaderMap<T>(HeaderMap<T>);

#[verifier::external_type_specification]
#[verifier::external_body]
pub struct ExHeaderValue(HeaderValue);

/// What a header map holds: for each header name, in lower case, the bytes
/// of its values in the order they were added.
pub uninterp spec fn header_entries(h: HeaderMap) -> Map<Seq<char>, Seq<Seq<u8>>>;

/// The bytes that a header value holds.
pub uninterp spec fn value_bytes(v: HeaderValue) -> Seq<u8>;

/// A header name as a map stores it: lower-case letters and `-`.
pub open spec fn is_lower_name(name: Seq<char>) -> bool {
    name.len() > 0 && forall|i: int| 0 <= i < name.len() ==> ('a' <= #[trigger] name[i] <= 'z'
        || name[i] == '-')
}

/// The bytes of the first value stored under `name`, if there is one.
pub open spec fn first_value(m: Map<Seq<char>, Seq<Seq<u8>>>, name: Seq<char>) -> Option<Seq<u8>> {
    if m.contains_key(name) && m[name].len() > 0 {
        Some(m[name][0])
    } else {
        None
    }
}

/// The bytes that `HeaderValue::to_str` accepts: visible ASCII and tab.
pub open spec fn is_visible_ascii(b: u8) -> bool {
    (32 <= b && b < 127) || b == 9
}

/// Bytes read one for one as characters.
pub open spec fn ascii_chars(b: Seq<u8>) -> Seq<char> {
    b.map_values(|x: u8| x as char)
}

/// Relies on http's `HeaderMap::get` with a `&str` key: the name is matched
/// without regard to case, and the first value stored under it is returned.
#[verifier::external_body]
pub(crate) fn first_header<'a>(headers: &'a HeaderMap, name: &str) -> (r: Option<&'a HeaderValue>)
    requires
        is_lower_name(name@),
    ensures
        r is Some <==> first_value(header_entries(*headers), name@) is Some,
        r matches Some(v) ==> first_value(header_entries(*headers), name@) == Some(value_bytes(*v)),
{
    headers.get(name)
}

/// Relies on http's `HeaderValue::to_str`: it succeeds exactly when every
/// byte is visible ASCII or a tab, and then gives those bytes as text.
#[verifier::external_body]
pub(crate) fn header_text(v: &HeaderValue) -> (r: Option<String>)
    ensures
        r is Some <==> (forall|i: int| 0 <= i < value_bytes(*v).len() ==> is_visible_ascii(#[trigger] value_bytes(*v)[i])),
        r matches Some(t) ==> t@ == ascii_chars(value_bytes(*v)),
{
    v.to_str().ok().map(|s| s.to_string())
}

} // verus!
