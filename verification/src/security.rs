//! The per-request nonce.

use vstd::prelude::*;
use vstd::string::*;
use crate::error::Error;
use crate::text::chars;

verus! {

/// The length of a nonce.
pub const NONCE_LEN: usize = 32;

/// An ASCII letter or digit.
pub open spec fn is_alphanumeric(c: char) -> bool {
    let n = c as u32;
    48 <= n <= 57 || 65 <= n <= 90 || 97 <= n <= 122
}

/// Letters and digits only.
pub open spec fn all_alphanumeric(text: Seq<char>) -> bool {
    forall|i: int| 0 <= i < text.len() ==> is_alphanumeric(#[trigger] text[i])
}

/// A nonce: 32 ASCII letters and digits.
pub open spec fn is_nonce(text: Seq<char>) -> bool {
    text.len() == NONCE_LEN && all_alphanumeric(text)
}

/// `tower_sombrero::random_string`: a string of `length` characters, each an
/// ASCII letter or digit drawn at random. Which ones is not said: two calls
/// may differ.
#[verifier::external_body]
fn random_string(length: usize) -> (out: String)
    ensures
        out@.len() == length,
        all_alphanumeric(out@),
{
    tower_sombrero::random_string(length)
}

/// Whether `text` is a nonce.
pub fn check_nonce(text: &str) -> (ok: bool)
    ensures
        ok == is_nonce(text@),
{
    let cs = chars(text);
    if cs.len() != NONCE_LEN {
        return false;
    }
    let mut i: usize = 0;
    while i < cs.len()
        invariant
            i <= cs.len(),
            cs@ == text@,
            forall|j: int| 0 <= j < i ==> is_alphanumeric(#[trigger] cs@[j]),
        decreases cs.len() - i,
    {
        let n = cs[i] as u32;
        if !((48 <= n && n <= 57) || (65 <= n && n <= 90) || (97 <= n && n <= 122)) {
            assert(!is_alphanumeric(text@[i as int]));
            return false;
        }
        i += 1;
    }
    true
}

/// What one request's response is secured with: the nonce that its policy
/// names and that its inline styles and scripts carry.
#[derive(Debug)]
pub struct SecurityContext {
    nonce: String,
}

impl Clone for SecurityContext {
    fn clone(&self) -> (copy: Self)
        ensures
            copy.nonce_text() == self.nonce_text(),
    {
        proof {
            use_type_invariant(self);
        }
        SecurityContext { nonce: self.nonce.clone() }
    }
}

impl SecurityContext {
    #[verifier::type_invariant]
    spec fn valid(self) -> bool {
        is_nonce(self.nonce@)
    }

    /// The nonce.
    pub closed spec fn nonce_text(self) -> Seq<char> {
        self.nonce@
    }

    /// A context around a given nonce: an error where the text is no nonce.
    pub fn new(nonce: String) -> (r: Result<SecurityContext, Error>)
        ensures
            match r {
                Ok(ctx) => is_nonce(nonce@) && ctx.nonce_text() == nonce@,
                Err(e) => !is_nonce(nonce@) && e == Error::NoNonce,
            },
    {
        if check_nonce(nonce.as_str()) {
            Ok(SecurityContext { nonce })
        } else {
            Err(Error::NoNonce)
        }
    }

    /// A context around a fresh random nonce.
    pub fn generate() -> (ctx: SecurityContext)
        ensures
            is_nonce(ctx.nonce_text()),
    {
        SecurityContext { nonce: random_string(NONCE_LEN) }
    }

    /// The nonce.
    pub fn nonce(&self) -> (text: &str)
        ensures
            text@ == self.nonce_text(),
            is_nonce(text@),
    {
        proof {
            use_type_invariant(self);
        }
        self.nonce.as_str()
    }
}

} // verus!
