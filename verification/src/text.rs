//! Byte and character sequences: the link between wire bytes and `String`s, and
//! the substring test used for content negotiation.

use vstd::prelude::*;

verus! {

/// The characters that a sequence of ASCII bytes spells.
pub open spec fn chars_of(bytes: Seq<u8>) -> Seq<char> {
    Seq::new(bytes.len(), |i: int| bytes[i] as char)
}

/// Every byte is below 128.
pub open spec fn is_ascii_bytes(bytes: Seq<u8>) -> bool {
    forall|i: int| 0 <= i < bytes.len() ==> bytes[i] < 128
}

/// A byte that may stand in a header value read as text: a printable ASCII
/// character, a space or a tab.
pub open spec fn is_visible_ascii(b: u8) -> bool {
    32 <= b < 127 || b == 9
}

/// Every byte is visible ASCII.
pub open spec fn is_text_bytes(bytes: Seq<u8>) -> bool {
    forall|i: int| 0 <= i < bytes.len() ==> is_visible_ascii(#[trigger] bytes[i])
}

/// `needle` occurs in `hay` as a contiguous run.
pub open spec fn occurs_in<T>(needle: Seq<T>, hay: Seq<T>) -> bool {
    exists|i: int| occurs_at(needle, hay, i)
}

/// `needle` occurs in `hay` starting at index `i`.
pub open spec fn occurs_at<T>(needle: Seq<T>, hay: Seq<T>, i: int) -> bool {
    0 <= i && i + needle.len() <= hay.len() && hay.subrange(i, i + needle.len()) == needle
}

/// `String::from_utf8` of std, for bytes that are all ASCII: each byte becomes
/// the character with the same code, so the string spells the bytes one for one.
#[verifier::external_body]
pub(crate) fn ascii_string(bytes: Vec<u8>) -> (s: String)
    requires
        is_ascii_bytes(bytes@),
    ensures
        s@ == chars_of(bytes@),
{
    String::from_utf8(bytes).unwrap_or_default()
}

/// Whether every byte of `bytes` is visible ASCII.
pub fn all_visible_ascii(bytes: &[u8]) -> (ok: bool)
    ensures
        ok == is_text_bytes(bytes@),
{
    let mut i: usize = 0;
    while i < bytes.len()
        invariant
            i <= bytes.len(),
            forall|j: int| 0 <= j < i ==> is_visible_ascii(#[trigger] bytes@[j]),
        decreases bytes.len() - i,
    {
        let b = bytes[i];
        if !((32 <= b && b < 127) || b == 9) {
            return false;
        }
        i += 1;
    }
    true
}

/// Whether `needle` occurs in `hay`.
pub fn contains(hay: &[char], needle: &[char]) -> (found: bool)
    ensures
        found == occurs_in(needle@, hay@),
{
    if needle.len() > hay.len() {
        return false;
    }
    let last: usize = hay.len() - needle.len();
    let mut i: usize = 0;
    while i <= last
        invariant
            last == hay.len() - needle.len(),
            i <= last + 1,
            forall|k: int| 0 <= k < i ==> !occurs_at(needle@, hay@, k),
        decreases last + 1 - i,
    {
        let mut j: usize = 0;
        while j < needle.len() && hay[i + j] == needle[j]
            invariant
                i <= last,
                last == hay.len() - needle.len(),
                j <= needle.len(),
                forall|k: int| 0 <= k < j ==> hay@[i + k] == needle@[k],
            decreases needle.len() - j,
        {
            j += 1;
        }
        if j == needle.len() {
            assert(hay@.subrange(i as int, i + needle@.len()) =~= needle@);
            assert(occurs_at(needle@, hay@, i as int));
            return true;
        }
        assert(!occurs_at(needle@, hay@, i as int)) by {
            if occurs_at(needle@, hay@, i as int) {
                assert(hay@.subrange(i as int, i + needle@.len())[j as int] == needle@[j as int]);
            }
        }
        i += 1;
    }
    false
}

/// The characters of `text`, one by one.
pub fn chars(text: &str) -> (out: Vec<char>)
    ensures
        out@ == text@,
{
    let mut out: Vec<char> = Vec::new();
    for c in it: text.chars()
        invariant
            out@ == it.seq().take(it.index() as int),
    {
        out.push(c);
    }
    out
}

/// Whether `needle` occurs in `hay`.
pub fn str_contains(hay: &str, needle: &str) -> (found: bool)
    ensures
        found == occurs_in(needle@, hay@),
{
    let hay = chars(hay);
    let needle = chars(needle);
    contains(hay.as_slice(), needle.as_slice())
}

/// What occurs in a text occurs in every text that the text is a part of.
pub proof fn lemma_occurs_in_part<T>(needle: Seq<T>, before: Seq<T>, part: Seq<T>, after: Seq<T>)
    requires
        occurs_in(needle, part),
    ensures
        occurs_in(needle, before + part + after),
{
    let i = choose|i: int| occurs_at(needle, part, i);
    let whole = before + part + after;
    assert(whole.subrange(before.len() + i, before.len() + i + needle.len()) =~= part.subrange(
        i,
        i + needle.len(),
    ));
    assert(occurs_at(needle, whole, before.len() + i));
}

/// A text occurs in itself.
pub proof fn lemma_occurs_in_self<T>(text: Seq<T>)
    ensures
        occurs_in(text, text),
{
    assert(text.subrange(0, text.len() as int) =~= text);
    assert(occurs_at(text, text, 0));
}

/// What occurs in a text occurs in the text with more behind it.
pub proof fn lemma_occurs_in_front<T>(needle: Seq<T>, part: Seq<T>, after: Seq<T>)
    requires
        occurs_in(needle, part),
    ensures
        occurs_in(needle, part + after),
{
    let i = choose|i: int| occurs_at(needle, part, i);
    assert((part + after).subrange(i, i + needle.len()) =~= part.subrange(i, i + needle.len()));
    assert(occurs_at(needle, part + after, i));
}

/// What occurs in a text occurs in the text with more before it.
pub proof fn lemma_occurs_in_back<T>(needle: Seq<T>, before: Seq<T>, part: Seq<T>)
    requires
        occurs_in(needle, part),
    ensures
        occurs_in(needle, before + part),
{
    let i = choose|i: int| occurs_at(needle, part, i);
    assert((before + part).subrange(before.len() + i, before.len() + i + needle.len())
        =~= part.subrange(i, i + needle.len()));
    assert(occurs_at(needle, before + part, before.len() + i));
}

} // verus!
