//! Which byte strings are IP addresses, and which address each one is.
//!
//! IPv4 text is four decimal numbers below 256, without leading zeros, joined
//! by dots. IPv6 text is up to eight groups of one to four hexadecimal digits
//! joined by colons; one `::` may stand for one or more zero groups, and a
//! dotted quad may take the place of the last two groups.

use vstd::prelude::*;
use crate::addr::{v4_text, Addr, COLON};

verus! {

/// An ASCII decimal digit.
pub open spec fn is_dec(b: u8) -> bool {
    48 <= b <= 57
}

/// An ASCII hexadecimal digit of either case.
pub open spec fn is_hex(b: u8) -> bool {
    48 <= b <= 57 || 97 <= b <= 102 || 65 <= b <= 70
}

/// The value of a hexadecimal digit.
pub open spec fn hex_val(b: u8) -> int {
    if b <= 57 {
        b - 48
    } else if b >= 97 {
        b - 87
    } else {
        b - 55
    }
}

/// A group of IPv6 text: one to four hexadecimal digits.
pub open spec fn is_hex_group(group: Seq<u8>) -> bool {
    1 <= group.len() <= 4 && forall|i: int| 0 <= i < group.len() ==> is_hex(#[trigger] group[i])
}

/// The number that hexadecimal digits spell.
pub open spec fn hex_value(digits: Seq<u8>) -> int
    decreases digits.len(),
{
    if digits.len() == 0 {
        0
    } else {
        hex_value(digits.drop_last()) * 16 + hex_val(digits.last())
    }
}

/// The number that decimal digits spell.
pub open spec fn dec_value(digits: Seq<u8>) -> int
    decreases digits.len(),
{
    if digits.len() == 0 {
        0
    } else {
        dec_value(digits.drop_last()) * 10 + (digits.last() - 48)
    }
}

/// The parts of an IPv6 text.
pub struct V6Form {
    /// The groups before `::`; all the groups where there is no `::`.
    pub head: Seq<Seq<u8>>,
    /// Whether `::` occurs.
    pub gap: bool,
    /// The groups after `::`.
    pub tail: Seq<Seq<u8>>,
    /// The octets of the dotted quad that ends the text, if one does.
    pub quad: Option<Seq<u8>>,
}

/// The items, joined by colons.
pub open spec fn join(items: Seq<Seq<u8>>) -> Seq<u8>
    decreases items.len(),
{
    if items.len() == 0 {
        seq![]
    } else if items.len() == 1 {
        items[0]
    } else {
        items[0] + seq![COLON] + join(items.drop_first())
    }
}

/// The groups, followed by the dotted quad's text if there is one.
pub open spec fn items(groups: Seq<Seq<u8>>, quad: Option<Seq<u8>>) -> Seq<Seq<u8>> {
    match quad {
        Some(octets) => groups.push(v4_text(octets)),
        None => groups,
    }
}

/// The number of 16-bit segments that the groups and the quad fill.
pub open spec fn slots(groups: Seq<Seq<u8>>, quad: Option<Seq<u8>>) -> int {
    groups.len() + if quad is Some {
        2int
    } else {
        0int
    }
}

/// The segments that the groups spell.
pub open spec fn group_values(groups: Seq<Seq<u8>>) -> Seq<u16> {
    Seq::new(groups.len(), |i: int| hex_value(groups[i]) as u16)
}

/// The two segments that a dotted quad fills; none without a quad.
pub open spec fn quad_segments(quad: Option<Seq<u8>>) -> Seq<u16> {
    match quad {
        Some(octets) => seq![
            (octets[0] * 256 + octets[1]) as u16,
            (octets[2] * 256 + octets[3]) as u16,
        ],
        None => seq![],
    }
}

/// `n` zero segments.
pub open spec fn zeros(n: int) -> Seq<u16> {
    Seq::new(n as nat, |i: int| 0u16)
}

impl V6Form {
    /// The form is one that IPv6 text can have: every group is one to four
    /// hexadecimal digits; without `::` the parts fill eight segments; with
    /// `::` they fill at most seven.
    pub open spec fn ok(self) -> bool {
        &&& forall|i: int| 0 <= i < self.head.len() ==> is_hex_group(#[trigger] self.head[i])
        &&& forall|i: int| 0 <= i < self.tail.len() ==> is_hex_group(#[trigger] self.tail[i])
        &&& self.quad matches Some(octets) ==> octets.len() == 4
        &&& if self.gap {
            self.head.len() + slots(self.tail, self.quad) <= 7
        } else {
            self.tail.len() == 0 && slots(self.head, self.quad) == 8
        }
    }

    /// The text of the form.
    pub open spec fn text(self) -> Seq<u8> {
        if self.gap {
            join(self.head) + seq![COLON, COLON] + join(items(self.tail, self.quad))
        } else {
            join(items(self.head, self.quad))
        }
    }

    /// The eight segments that the form denotes.
    pub open spec fn segments(self) -> Seq<u16> {
        if self.gap {
            group_values(self.head) + zeros(8 - self.head.len() - slots(self.tail, self.quad))
                + group_values(self.tail) + quad_segments(self.quad)
        } else {
            group_values(self.head) + quad_segments(self.quad)
        }
    }
}

/// `text` is IPv4 text of `octets`.
pub open spec fn is_v4_text(text: Seq<u8>, octets: Seq<u8>) -> bool {
    octets.len() == 4 && text == v4_text(octets)
}

/// `text` is IPv6 text of `segments`.
pub open spec fn is_v6_text(text: Seq<u8>, segments: Seq<u16>) -> bool {
    exists|form: V6Form| #[trigger] form.ok() && form.text() == text && form.segments() == segments
}

/// `text` is IP address text of `addr`.
pub open spec fn is_ip_text(text: Seq<u8>, addr: Addr) -> bool {
    match addr {
        Addr::V4(octets) => is_v4_text(text, octets),
        Addr::V6(segments) => is_v6_text(text, segments),
    }
}

} // verus!
