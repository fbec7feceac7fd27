//! The header fields of a request.

use hyper::header::{HeaderMap, HeaderValue};
use vstd::prelude::*;

verus! {

/// `hyper::header::HeaderMap`. What it holds is named by `header_fields`.
#[verifier::external_type_specification]
#[verifier::external_body]
#[verifier::reject_recursive_types(T)]
pub struct ExHeaderMap<T>(HeaderMap<T>);

/// `hyper::header::HeaderValue`, of which nothing is claimed.
#[verifier::external_type_specification]
#[verifier::external_body]
pub struct ExHeaderValue(HeaderValue);

/// The fields that a `HeaderMap` holds: the bytes of the first value under each name, the name in
/// lower case.
pub uninterp spec fn header_fields(headers: HeaderMap<HeaderValue>) -> Map<Seq<char>, Seq<u8>>;

/// Whether `name` is a header name of lower-case letters and hyphens.
pub open spec fn is_plain_name(name: Seq<char>) -> bool {
    &&& 0 < name.len() <= 64
    &&& forall|i: int| 0 <= i < name.len() ==> 'a' <= #[trigger] name[i] <= 'z' || name[i] == '-'
}

/// Whether HTTP counts `b` as a visible ASCII character.
pub open spec fn is_visible(b: u8) -> bool {
    32 <= b < 127 || b == 9
}

/// The text of a header value, if it holds nothing but visible ASCII characters.
pub open spec fn value_text(value: Seq<u8>) -> Option<Seq<char>> {
    if forall|i: int| 0 <= i < value.len() ==> is_visible(#[trigger] value[i]) {
        Some(value.map_values(|b: u8| b as char))
    } else {
        None
    }
}

/// The bytes of the first value under `name`, by `HeaderMap::get`: the field of that name, or
/// nothing where there is none.
#[verifier::external_body]
fn first_value(headers: &HeaderMap<HeaderValue>, name: &str) -> (r: Option<Vec<u8>>)
    requires
        is_plain_name(name@),
    ensures
        match r {
            Some(value) => header_fields(*headers).contains_key(name@) && header_fields(
                *headers,
            )[name@] == value@,
            None => !header_fields(*headers).contains_key(name@),
        },
{
    headers.get(name).map(|value| value.as_bytes().to_vec())
}

/// The text of a header value with these bytes, by `HeaderValue::to_str`: each byte as a character,
/// or nothing where some byte is no visible ASCII character. (Bytes that no header value can hold
/// are not visible either.)
#[verifier::external_body]
fn visible_text(value: &[u8]) -> (r: Option<String>)
    ensures
        match r {
            Some(text) => value_text(value@) == Some(text@),
            None => value_text(value@) is None,
        },
{
    let value = HeaderValue::from_bytes(value).ok()?;
    value.to_str().ok().map(String::from)
}

/// The field `name` of `headers` as text: nothing where there is no such field, and the empty
/// text where its value is not all visible ASCII.
pub open spec fn field_text(headers: HeaderMap<HeaderValue>, name: Seq<char>) -> Option<Seq<char>> {
    if header_fields(headers).contains_key(name) {
        Some(text_or_empty(header_fields(headers)[name]))
    } else {
        None
    }
}

/// The text of a header value, or the empty text where the value is not all visible ASCII.
pub open spec fn text_or_empty(value: Seq<u8>) -> Seq<char> {
    match value_text(value) {
        Some(text) => text,
        None => Seq::empty(),
    }
}

/// The text of a header value, or the empty text where the value is not all visible ASCII.
pub fn header_text(value: &[u8]) -> (r: String)
    ensures
        r@ == text_or_empty(value@),
{
    match visible_text(value) {
        Some(text) => text,
        None => String::new(),
    }
}

/// The field `name` of `headers` as text: nothing where there is no such field, and the empty
/// text where its value is not all visible ASCII.
pub fn header_field(headers: &HeaderMap<HeaderValue>, name: &str) -> (r: Option<String>)
    requires
        is_plain_name(name@),
    ensures
        match r {
            Some(text) => field_text(*headers, name@) == Some(text@),
            None => field_text(*headers, name@) is None,
        },
{
    match first_value(headers, name) {
        Some(value) => Some(header_text(value.as_slice())),
        None => None,
    }
}

/// A header value of visible ASCII characters is read as these characters, one for each byte, and
/// any other value as the empty text.
pub proof fn law_header_text(value: Seq<u8>)
    ensures
        ({
            let text = text_or_empty(value);
            if forall|i: int|
                0 <= i < value.len() ==> 32 <= #[trigger] value[i] <= 126 || value[i] == 9 {
                text.len() == value.len() && forall|i: int|
                    0 <= i < value.len() ==> #[trigger] text[i] as u32 == value[i]
            } else {
                text.len() == 0
            }
        }),
{
    if forall|i: int| 0 <= i < value.len() ==> 32 <= #[trigger] value[i] <= 126 || value[i] == 9 {
        assert forall|i: int| 0 <= i < value.len() implies is_visible(#[trigger] value[i]) by {}
    } else {
        let i = choose|i: int|
            0 <= i < value.len() && !(32 <= #[trigger] value[i] <= 126 || value[i] == 9);
        assert(!is_visible(value[i]));
    }
}

/// A field is read as text if it is there, and it is then the text of its value.
pub proof fn law_field_text(headers: HeaderMap<HeaderValue>, name: Seq<char>)
    ensures
        field_text(headers, name) is Some <==> header_fields(headers).contains_key(name),
        field_text(headers, name) matches Some(text) ==> text == text_or_empty(
            header_fields(headers)[name],
        ),
{
}

} // verus!
