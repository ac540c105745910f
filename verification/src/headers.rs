//! Request headers: looking one up by name, and the two that are read as text.

use vstd::prelude::*;
use vstd::string::*;
use axum::http::{HeaderMap, HeaderName, HeaderValue};
use crate::text::{all_visible_ascii, ascii_string, chars_of, is_text_bytes};

verus! {

/// `http::HeaderMap`, as axum hands it on: nothing is known of a value of it
/// but what [`first_values`] names.
#[verifier::external_type_specification]
#[verifier::external_body]
#[verifier::reject_recursive_types(T)]
pub struct ExHeaderMap<T>(HeaderMap<T>);

/// `http::HeaderValue`: carried through, never looked into.
#[verifier::external_type_specification]
#[verifier::external_body]
pub struct ExHeaderValue(HeaderValue);

/// What a header map holds for lookups: for each header name, in lower case,
/// the bytes of the first value under that name.
pub uninterp spec fn first_values(headers: HeaderMap<HeaderValue>) -> Map<Seq<char>, Seq<u8>>;

/// An ASCII capital letter becomes the small one; other characters stay.
pub open spec fn lower_char(c: char) -> char {
    if 65 <= c as u32 <= 90 {
        ((c as u32 + 32) as u8) as char
    } else {
        c
    }
}

/// The name with its ASCII capital letters made small.
pub open spec fn ascii_lower(name: Seq<char>) -> Seq<char> {
    Seq::new(name.len(), |i: int| lower_char(name[i]))
}

/// The first value that the map holds under `name`, whatever the case of the
/// name's letters.
pub open spec fn header_value(headers: HeaderMap<HeaderValue>, name: Seq<char>) -> Option<
    Seq<u8>,
> {
    if first_values(headers).contains_key(ascii_lower(name)) {
        Some(first_values(headers)[ascii_lower(name)])
    } else {
        None
    }
}

/// `HeaderMap::get` with a `&str` key, and `HeaderValue::as_bytes` on what it
/// finds: the bytes of the first value stored under the name, compared without
/// regard to the case of ASCII letters; `None` where the map has no such
/// header, which is so for every name that is no header name.
#[verifier::external_body]
pub(crate) fn first_value(headers: &HeaderMap<HeaderValue>, name: &str) -> (value: Option<
    Vec<u8>,
>)
    ensures
        match value {
            Some(bytes) => first_values(*headers).contains_key(ascii_lower(name@))
                && first_values(*headers)[ascii_lower(name@)] == bytes@,
            None => !first_values(*headers).contains_key(ascii_lower(name@)),
        },
{
    match headers.get(name) {
        Some(value) => Some(value.as_bytes().to_vec()),
        None => None,
    }
}

/// A character that a header name may hold: a letter, a digit, or one of
/// ``!#$%&'*+-.^_`|~``.
pub open spec fn is_token_char(c: char) -> bool {
    let n = c as u32;
    48 <= n <= 57 || 65 <= n <= 90 || 97 <= n <= 122 || n == 33 || 35 <= n <= 39 || n == 42 || n
        == 43 || n == 45 || n == 46 || n == 94 || n == 95 || n == 96 || n == 124 || n == 126
}

/// A header name: 1 to 65535 token characters.
pub open spec fn is_header_name(name: Seq<char>) -> bool {
    1 <= name.len() <= 65535 && forall|i: int| 0 <= i < name.len() ==> is_token_char(
        #[trigger] name[i],
    )
}

/// `HeaderName::from_bytes` on the name's bytes, asked only whether it
/// succeeds: it does for 1 to 65535 bytes that are all token characters.
#[verifier::external_body]
pub(crate) fn header_name_accepted(name: &str) -> (ok: bool)
    ensures
        ok == is_header_name(name@),
{
    HeaderName::from_bytes(name.as_bytes()).is_ok()
}

/// The value read as text: its characters where every byte is visible ASCII,
/// none otherwise.
pub open spec fn text_of(value: Option<Seq<u8>>) -> Option<Seq<char>> {
    match value {
        Some(bytes) => if is_text_bytes(bytes) {
            Some(chars_of(bytes))
        } else {
            None
        },
        None => None,
    }
}

/// The text of the header `name`, if the request carries it and its first
/// value is text.
pub fn header_text(headers: &HeaderMap<HeaderValue>, name: &str) -> (text: Option<String>)
    ensures
        match text {
            Some(t) => text_of(header_value(*headers, name@)) == Some(t@),
            None => text_of(header_value(*headers, name@)) is None,
        },
{
    match first_value(headers, name) {
        Some(bytes) => {
            if all_visible_ascii(bytes.as_slice()) {
                Some(ascii_string(bytes))
            } else {
                None
            }
        },
        None => None,
    }
}

/// The scheme that the client used, as the proxy reports it.
#[derive(Clone, Debug)]
pub struct XForwardedProto(pub String);

impl XForwardedProto {
    /// The scheme that `headers` report: the text of `X-Forwarded-Proto`, or
    /// `http` where the header is missing or no text.
    pub open spec fn of(headers: HeaderMap<HeaderValue>) -> Seq<char> {
        match text_of(header_value(headers, "X-Forwarded-Proto"@)) {
            Some(text) => text,
            None => "http"@,
        }
    }

    /// Reads the scheme from the request's headers.
    pub fn from_request_parts(headers: &HeaderMap<HeaderValue>) -> (proto: XForwardedProto)
        ensures
            proto.0@ == Self::of(*headers),
    {
        match header_text(headers, "X-Forwarded-Proto") {
            Some(text) => XForwardedProto(text),
            None => XForwardedProto(String::from_str("http")),
        }
    }
}

/// The representations that the client accepts, as it names them.
#[derive(Clone, Debug)]
pub struct Accept(pub String);

impl Accept {
    /// What `headers` say of the accepted representations: the text of
    /// `Accept`, or nothing where the header is missing or no text.
    pub open spec fn of(headers: HeaderMap<HeaderValue>) -> Seq<char> {
        match text_of(header_value(headers, "Accept"@)) {
            Some(text) => text,
            None => seq![],
        }
    }

    /// Reads the accepted representations from the request's headers.
    pub fn from_request_parts(headers: &HeaderMap<HeaderValue>) -> (accept: Accept)
        ensures
            accept.0@ == Self::of(*headers),
    {
        match header_text(headers, "Accept") {
            Some(text) => Accept(text),
            None => Accept(String::new()),
        }
    }
}

} // verus!
