//! Which representation a response takes.

use vstd::prelude::*;
use crate::text::{occurs_in, str_contains};

verus! {

/// The representation of a response.
#[derive(Clone, Copy, Debug, PartialEq, Eq, Structural)]
pub enum NegotiatedFormat {
    Html,
    Json,
    PlainText,
}

/// The representation for what a request accepts. A missing `Accept` header
/// counts as `*/*`. A value that names `text/html` anywhere gets HTML; else one
/// that names `application/json` gets JSON; every other value gets plain text.
/// The order is fixed: weights in the value play no part.
pub open spec fn negotiated(accept: Option<Seq<char>>) -> NegotiatedFormat {
    let value = match accept {
        Some(value) => value,
        None => "*/*"@,
    };
    if occurs_in("text/html"@, value) {
        NegotiatedFormat::Html
    } else if occurs_in("application/json"@, value) {
        NegotiatedFormat::Json
    } else {
        NegotiatedFormat::PlainText
    }
}

/// Chooses the representation for the value of the `Accept` header.
pub fn negotiate(accept: Option<&str>) -> (format: NegotiatedFormat)
    ensures
        format == negotiated(
            match accept {
                Some(value) => Some(value@),
                None => None,
            },
        ),
{
    let value = match accept {
        Some(value) => value,
        None => "*/*",
    };
    if str_contains(value, "text/html") {
        NegotiatedFormat::Html
    } else if str_contains(value, "application/json") {
        NegotiatedFormat::Json
    } else {
        NegotiatedFormat::PlainText
    }
}

} // verus!
