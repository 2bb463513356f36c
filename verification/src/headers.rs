//! The header side of a request, kept in the `http` crate's own types.
//!
//! Verus cannot look inside a `HeaderMap`, a `HeaderName` or a `HeaderValue`. What this
//! crate needs of them is named here and tied to the `http` functions by contracts that
//! are taken on trust.

use http::header::{HeaderMap, HeaderName, HeaderValue};
use vstd::prelude::*;
use vstd::string::StringSliceAdditionalSpecFns;

verus! {

/// `http::HeaderMap`, a multimap from header names to values.
#[verifier::external_type_specification]
#[verifier::external_body]
#[verifier::reject_recursive_types(T)]
pub struct ExHeaderMap<T>(HeaderMap<T>);

/// `http::HeaderName`, the name of a header in lower case.
#[verifier::external_type_specification]
#[verifier::external_body]
pub struct ExHeaderName(HeaderName);

/// `http::HeaderValue`, the bytes of one value of a header.
#[verifier::external_type_specification]
#[verifier::external_body]
pub struct ExHeaderValue(HeaderValue);

/// The values stored under each header name, in the order `get_all` yields them.
/// A name is in the domain exactly when the map holds at least one value for it.
pub uninterp spec fn header_fields(map: HeaderMap<HeaderValue>) -> Map<Seq<char>, Seq<Seq<u8>>>;

/// The lower-case text of a header name, as `HeaderName::as_str` gives it.
pub uninterp spec fn header_name_text(name: HeaderName) -> Seq<char>;

/// The bytes of a header value, as `HeaderValue::as_bytes` gives them.
pub uninterp spec fn header_value_bytes(value: HeaderValue) -> Seq<u8>;

/// A byte that `HeaderValue::to_str` accepts: printable ASCII or a tab.
pub open spec fn is_visible_ascii(b: u8) -> bool {
    (32 <= b && b < 127) || b == 9
}

/// A byte that `HeaderValue::from_str` accepts: anything but a control character
/// other than a tab.
pub open spec fn is_value_byte(b: u8) -> bool {
    (32 <= b && b != 127) || b == 9
}

/// Whether a header value can be read as text.
pub open spec fn readable(bytes: Seq<u8>) -> bool {
    forall|i: int| 0 <= i < bytes.len() ==> is_visible_ascii(#[trigger] bytes[i])
}

/// Whether bytes are acceptable as a header value.
pub open spec fn acceptable(bytes: Seq<u8>) -> bool {
    forall|i: int| 0 <= i < bytes.len() ==> is_value_byte(#[trigger] bytes[i])
}

/// Calls `HeaderMap::get`, which returns the first value stored under the name, or
/// nothing when the map has no value for it.
#[verifier::external_body]
pub(crate) fn first_value<'a>(map: &'a HeaderMap<HeaderValue>, name: &HeaderName) -> (found: Option<&'a HeaderValue>)
    ensures
        found is Some <==> header_fields(*map).dom().contains(header_name_text(*name)),
        found matches Some(value) ==> header_value_bytes(*value) == header_fields(*map)[header_name_text(*name)][0],
{
    map.get(name)
}

/// Calls `HeaderMap::get_mut` and assigns through the reference it returns, which points
/// at the first value stored under the name. The other values stay as they were.
#[verifier::external_body]
pub(crate) fn set_first_value(map: &mut HeaderMap<HeaderValue>, name: &HeaderName, value: HeaderValue)
    requires
        header_fields(*old(map)).dom().contains(header_name_text(*name)),
    ensures
        header_fields(*final(map)) == header_fields(*old(map)).insert(
            header_name_text(*name),
            header_fields(*old(map))[header_name_text(*name)].update(0, header_value_bytes(value)),
        ),
{
    *map.get_mut(name).unwrap() = value;
}

/// Calls `HeaderValue::to_str`, which yields the value as text when every byte is
/// printable ASCII or a tab, and fails otherwise.
#[verifier::external_body]
pub(crate) fn value_text(value: &HeaderValue) -> (text: Option<&str>)
    ensures
        text is Some <==> readable(header_value_bytes(*value)),
        text matches Some(t) ==> t.spec_bytes() == header_value_bytes(*value),
{
    value.to_str().ok()
}

/// Calls `HeaderValue::from_str`, which copies the text's bytes into a new value when
/// none of them is a control character other than a tab, and fails otherwise.
#[verifier::external_body]
pub(crate) fn value_from_text(text: &str) -> (value: Option<HeaderValue>)
    ensures
        value is Some <==> acceptable(text.spec_bytes()),
        value matches Some(v) ==> header_value_bytes(v) == text.spec_bytes(),
{
    HeaderValue::from_str(text).ok()
}

/// Calls `HeaderName::as_str` and copies the text it returns.
#[verifier::external_body]
pub(crate) fn name_text(name: &HeaderName) -> (text: String)
    ensures
        text@ == header_name_text(*name),
{
    name.as_str().to_string()
}

} // verus!
