//! Reading address text from left to right, and why such a reading finds
//! exactly the texts of the grammar.

use vstd::prelude::*;
use crate::addr::{dec_text, is_addr_byte, lemma_ip_text_bytes, v4_text, Addr, COLON, DOT};
use crate::text::{is_text_bytes, is_visible_ascii};
use crate::grammar::{
    dec_value, is_dec, is_hex, is_hex_group, is_ip_text, is_v4_text, is_v6_text, items, join,
    slots, V6Form,
};

verus! {

/// The number of decimal digits that follow each other from `pos` on.
pub open spec fn dec_run(s: Seq<u8>, pos: int) -> int
    decreases s.len() - pos,
{
    if 0 <= pos < s.len() && is_dec(s[pos]) {
        1 + dec_run(s, pos + 1)
    } else {
        0
    }
}

/// The number of hexadecimal digits that follow each other from `pos` on.
pub open spec fn hex_run(s: Seq<u8>, pos: int) -> int
    decreases s.len() - pos,
{
    if 0 <= pos < s.len() && is_hex(s[pos]) {
        1 + hex_run(s, pos + 1)
    } else {
        0
    }
}

/// A run of digits is no longer than what is left of the text.
pub proof fn lemma_dec_run_bounds(s: Seq<u8>, pos: int)
    requires
        0 <= pos <= s.len(),
    ensures
        0 <= dec_run(s, pos) <= s.len() - pos,
    decreases s.len() - pos,
{
    if pos < s.len() && is_dec(s[pos]) {
        lemma_dec_run_bounds(s, pos + 1);
    }
}

/// A run of digits is no longer than what is left of the text.
pub proof fn lemma_hex_run_bounds(s: Seq<u8>, pos: int)
    requires
        0 <= pos <= s.len(),
    ensures
        0 <= hex_run(s, pos) <= s.len() - pos,
    decreases s.len() - pos,
{
    if pos < s.len() && is_hex(s[pos]) {
        lemma_hex_run_bounds(s, pos + 1);
    }
}

/// The octet written at `pos` and where it ends: all the decimal digits from
/// `pos` on, if they are one to three, start with no needless zero and spell a
/// number below 256.
pub open spec fn octet_at(s: Seq<u8>, pos: int) -> Option<(u8, int)> {
    let n = dec_run(s, pos);
    let digits = s.subrange(pos, pos + n);
    if 1 <= n <= 3 && (n == 1 || s[pos] != 48) && dec_value(digits) <= 255 {
        Some((dec_value(digits) as u8, pos + n))
    } else {
        None
    }
}

/// The dotted quad written at `pos` and where it ends.
#[verifier::opaque]
pub open spec fn quad_at(s: Seq<u8>, pos: int) -> Option<(Seq<u8>, int)> {
    match octet_at(s, pos) {
        Some((a, dot1)) => if dot1 < s.len() && s[dot1] == DOT {
            match octet_at(s, dot1 + 1) {
                Some((b, dot2)) => if dot2 < s.len() && s[dot2] == DOT {
                    match octet_at(s, dot2 + 1) {
                        Some((c, dot3)) => if dot3 < s.len() && s[dot3] == DOT {
                            match octet_at(s, dot3 + 1) {
                                Some((d, end)) => Some((seq![a, b, c, d], end)),
                                None => None,
                            }
                        } else {
                            None
                        },
                        None => None,
                    }
                } else {
                    None
                },
                None => None,
            }
        } else {
            None
        },
        None => None,
    }
}

/// What a left-to-right reading of groups finds.
pub struct Scan {
    /// The groups read.
    pub groups: Seq<Seq<u8>>,
    /// The octets of the dotted quad that ended the reading, if one did.
    pub quad: Option<Seq<u8>>,
    /// Where the reading stopped.
    pub end: int,
}

/// Reads groups from `pos` on into the slots `i..limit`: each group but the
/// one in slot 0 follows a colon; a dotted quad is taken where two slots are
/// left, and ends the reading; the reading also ends at the first place where
/// no group stands, before the colon if there is one.
pub open spec fn scan(s: Seq<u8>, pos: int, i: int, limit: int) -> Scan
    decreases limit - i,
{
    let nothing = Scan { groups: seq![], quad: None, end: pos };
    if i >= limit {
        nothing
    } else if i > 0 && !(0 <= pos < s.len() && s[pos] == COLON) {
        nothing
    } else {
        let start = if i > 0 {
            pos + 1
        } else {
            pos
        };
        if i + 1 < limit && quad_at(s, start) is Some {
            let quad = quad_at(s, start).unwrap();
            Scan { groups: seq![], quad: Some(quad.0), end: quad.1 }
        } else {
            let n = hex_run(s, start);
            if 1 <= n <= 4 {
                let rest = scan(s, start + n, i + 1, limit);
                Scan {
                    groups: seq![s.subrange(start, start + n)] + rest.groups,
                    quad: rest.quad,
                    end: rest.end,
                }
            } else {
                nothing
            }
        }
    }
}

/// The form that a left-to-right reading of the whole of `s` finds, if it
/// finds one: up to eight slots; if they are not all filled, `::` and the
/// slots that are left but one.
pub open spec fn read_v6(s: Seq<u8>) -> Option<V6Form> {
    let head = scan(s, 0, 0, 8);
    if slots(head.groups, head.quad) == 8 {
        if head.end == s.len() {
            Some(V6Form { head: head.groups, gap: false, tail: seq![], quad: head.quad })
        } else {
            None
        }
    } else if head.quad is Some {
        None
    } else if head.end + 1 < s.len() && s[head.end] == COLON && s[head.end + 1] == COLON {
        let tail = scan(s, head.end + 2, 0, 7 - head.groups.len());
        if tail.end == s.len() {
            Some(V6Form { head: head.groups, gap: true, tail: tail.groups, quad: tail.quad })
        } else {
            None
        }
    } else {
        None
    }
}

/// The octets that a left-to-right reading of the whole of `s` finds, if it
/// finds a dotted quad.
pub open spec fn read_v4(s: Seq<u8>) -> Option<Seq<u8>> {
    match quad_at(s, 0) {
        Some((octets, end)) => if end == s.len() {
            Some(octets)
        } else {
            None
        },
        None => None,
    }
}

/// The first `dec_run` bytes from `pos` on are decimal digits, and the byte
/// after them, if there is one, is none.
pub proof fn lemma_dec_run_digits(s: Seq<u8>, pos: int)
    requires
        0 <= pos <= s.len(),
    ensures
        forall|k: int| 0 <= k < dec_run(s, pos) ==> is_dec(#[trigger] s[pos + k]),
        pos + dec_run(s, pos) == s.len() || !is_dec(s[pos + dec_run(s, pos)]),
        0 <= dec_run(s, pos) <= s.len() - pos,
    decreases s.len() - pos,
{
    if pos < s.len() && is_dec(s[pos]) {
        lemma_dec_run_digits(s, pos + 1);
        assert forall|k: int| 0 <= k < dec_run(s, pos) implies is_dec(#[trigger] s[pos + k]) by {
            if k > 0 {
                assert(is_dec(s[pos + 1 + (k - 1)]));
            }
        }
    }
}

/// `n` decimal digits from `pos` on, and none after them, are a run of `n`.
pub proof fn lemma_dec_run_exact(s: Seq<u8>, pos: int, n: int)
    requires
        0 <= pos,
        0 <= n,
        pos + n <= s.len(),
        forall|k: int| 0 <= k < n ==> is_dec(#[trigger] s[pos + k]),
        pos + n == s.len() || !is_dec(s[pos + n]),
    ensures
        dec_run(s, pos) == n,
    decreases n,
{
    if n > 0 {
        assert(is_dec(s[pos + 0]));
        assert forall|k: int| 0 <= k < n - 1 implies is_dec(#[trigger] s[pos + 1 + k]) by {
            assert(is_dec(s[pos + (k + 1)]));
        }
        lemma_dec_run_exact(s, pos + 1, n - 1);
    }
}

/// What one, two and three digits spell.
pub proof fn lemma_dec_value_small(d: Seq<u8>)
    ensures
        d.len() == 1 ==> dec_value(d) == d[0] - 48,
        d.len() == 2 ==> dec_value(d) == (d[0] - 48) * 10 + (d[1] - 48),
        d.len() == 3 ==> dec_value(d) == (d[0] - 48) * 100 + (d[1] - 48) * 10 + (d[2] - 48),
{
    reveal_with_fuel(dec_value, 4);
    if d.len() == 1 {
        assert(d.drop_last().len() == 0);
    } else if d.len() == 2 {
        assert(d.drop_last().len() == 1);
        assert(d.drop_last().drop_last().len() == 0);
        assert(d.drop_last().last() == d[0]);
    } else if d.len() == 3 {
        assert(d.drop_last().len() == 2);
        assert(d.drop_last().drop_last().len() == 1);
        assert(d.drop_last().drop_last().drop_last().len() == 0);
        assert(d.drop_last().last() == d[1]);
        assert(d.drop_last().drop_last().last() == d[0]);
    }
}

/// An octet that is read was written in the one way that the grammar has.
pub proof fn lemma_octet_sound(s: Seq<u8>, pos: int)
    requires
        0 <= pos <= s.len(),
        octet_at(s, pos) is Some,
    ensures
        ({
            let (v, end) = octet_at(s, pos).unwrap();
            &&& pos < end <= s.len()
            &&& s.subrange(pos, end) == dec_text(v as int)
            &&& end == pos + dec_text(v as int).len()
        }),
{
    let n = dec_run(s, pos);
    let d = s.subrange(pos, pos + n);
    lemma_dec_run_digits(s, pos);
    lemma_dec_value_small(d);
    assert forall|k: int| 0 <= k < n implies is_dec(#[trigger] d[k]) by {
        assert(is_dec(s[pos + k]));
    }
    let v = dec_value(d);
    if n == 1 {
        assert(is_dec(d[0]));
        assert(d =~= dec_text(v));
    } else if n == 2 {
        assert(is_dec(d[0]) && is_dec(d[1]));
        assert(d[0] == s[pos + 0]);
        assert(d =~= dec_text(v));
    } else {
        assert(is_dec(d[0]) && is_dec(d[1]) && is_dec(d[2]));
        assert(d[0] == s[pos + 0]);
        assert(d =~= dec_text(v));
    }
}

/// The text of an octet, followed by no digit, is read as that octet.
pub proof fn lemma_octet_complete(s: Seq<u8>, pos: int, v: u8)
    requires
        0 <= pos,
        pos + dec_text(v as int).len() <= s.len(),
        s.subrange(pos, pos + dec_text(v as int).len()) == dec_text(v as int),
        pos + dec_text(v as int).len() == s.len() || !is_dec(s[pos + dec_text(v as int).len()]),
    ensures
        octet_at(s, pos) == Some((v, pos + dec_text(v as int).len())),
{
    let t = dec_text(v as int);
    let n = t.len() as int;
    let d = s.subrange(pos, pos + n);
    assert forall|k: int| 0 <= k < n implies is_dec(#[trigger] s[pos + k]) by {
        assert(s[pos + k] == d[k]);
        assert(is_dec(t[k]));
    }
    lemma_dec_run_exact(s, pos, n);
    lemma_dec_value_small(d);
    assert(s[pos] == d[0]);
    assert(dec_value(d) == v);
}

proof fn lemma_dotted(
    s: Seq<u8>,
    pos: int,
    dot1: int,
    dot2: int,
    dot3: int,
    end: int,
    ta: Seq<u8>,
    tb: Seq<u8>,
    tc: Seq<u8>,
    td: Seq<u8>,
)
    requires
        0 <= pos <= dot1 < dot2 < dot3 < end <= s.len(),
        s.subrange(pos, dot1) == ta,
        s[dot1] == DOT,
        s.subrange(dot1 + 1, dot2) == tb,
        s[dot2] == DOT,
        s.subrange(dot2 + 1, dot3) == tc,
        s[dot3] == DOT,
        s.subrange(dot3 + 1, end) == td,
    ensures
        s.subrange(pos, end) == ta + seq![DOT] + tb + seq![DOT] + tc + seq![DOT] + td,
{
    assert(s.subrange(pos, end) =~= s.subrange(pos, dot1) + seq![DOT] + s.subrange(dot1 + 1, dot2)
        + seq![DOT] + s.subrange(dot2 + 1, dot3) + seq![DOT] + s.subrange(dot3 + 1, end));
}

/// A dotted quad that is read was written in the one way that the grammar has.
pub proof fn lemma_quad_sound(s: Seq<u8>, pos: int)
    requires
        0 <= pos <= s.len(),
        quad_at(s, pos) is Some,
    ensures
        ({
            let (octets, end) = quad_at(s, pos).unwrap();
            &&& octets.len() == 4
            &&& pos < end <= s.len()
            &&& s.subrange(pos, end) == v4_text(octets)
        }),
{
    reveal(quad_at);
    let first = octet_at(s, pos);
    assert(first is Some);
    let (a, dot1) = first.unwrap();
    lemma_octet_sound(s, pos);
    let second = octet_at(s, dot1 + 1);
    assert(second is Some && dot1 < s.len() && s[dot1] == DOT);
    let (b, dot2) = second.unwrap();
    lemma_octet_sound(s, dot1 + 1);
    let third = octet_at(s, dot2 + 1);
    assert(third is Some && dot2 < s.len() && s[dot2] == DOT);
    let (c, dot3) = third.unwrap();
    lemma_octet_sound(s, dot2 + 1);
    let fourth = octet_at(s, dot3 + 1);
    assert(fourth is Some && dot3 < s.len() && s[dot3] == DOT);
    let (d, end) = fourth.unwrap();
    lemma_octet_sound(s, dot3 + 1);
    assert(quad_at(s, pos) == Some((seq![a, b, c, d], end)));
    lemma_dotted(
        s,
        pos,
        dot1,
        dot2,
        dot3,
        end,
        dec_text(a as int),
        dec_text(b as int),
        dec_text(c as int),
        dec_text(d as int),
    );
}

/// The text of a dotted quad, followed by no digit, is read as that quad.
pub proof fn lemma_quad_complete(s: Seq<u8>, pos: int, octets: Seq<u8>)
    requires
        0 <= pos,
        octets.len() == 4,
        pos + v4_text(octets).len() <= s.len(),
        s.subrange(pos, pos + v4_text(octets).len()) == v4_text(octets),
        pos + v4_text(octets).len() == s.len() || !is_dec(s[pos + v4_text(octets).len()]),
    ensures
        quad_at(s, pos) == Some((octets, pos + v4_text(octets).len())),
{
    reveal(quad_at);
    let t = v4_text(octets);
    let ta = dec_text(octets[0] as int);
    let tb = dec_text(octets[1] as int);
    let tc = dec_text(octets[2] as int);
    let td = dec_text(octets[3] as int);
    let dot1 = pos + ta.len();
    let dot2 = dot1 + 1 + tb.len();
    let dot3 = dot2 + 1 + tc.len();
    let end = dot3 + 1 + td.len();
    assert(end == pos + t.len());
    assert forall|k: int| 0 <= k < t.len() implies s[pos + k] == #[trigger] t[k] by {
        assert(s.subrange(pos, pos + t.len())[k] == t[k]);
    }
    assert(s.subrange(pos, dot1) =~= ta) by {
        assert forall|k: int| 0 <= k < ta.len() implies s.subrange(pos, dot1)[k] == ta[k] by {
            assert(t[k] == ta[k]);
        }
    }
    assert(s[dot1] == DOT) by {
        assert(t[dot1 - pos] == DOT);
    }
    lemma_octet_complete(s, pos, octets[0]);
    assert(s.subrange(dot1 + 1, dot2) =~= tb) by {
        assert forall|k: int| 0 <= k < tb.len() implies s.subrange(dot1 + 1, dot2)[k] == tb[k] by {
            assert(t[dot1 + 1 - pos + k] == tb[k]);
        }
    }
    assert(s[dot2] == DOT) by {
        assert(t[dot2 - pos] == DOT);
    }
    lemma_octet_complete(s, dot1 + 1, octets[1]);
    assert(s.subrange(dot2 + 1, dot3) =~= tc) by {
        assert forall|k: int| 0 <= k < tc.len() implies s.subrange(dot2 + 1, dot3)[k] == tc[k] by {
            assert(t[dot2 + 1 - pos + k] == tc[k]);
        }
    }
    assert(s[dot3] == DOT) by {
        assert(t[dot3 - pos] == DOT);
    }
    lemma_octet_complete(s, dot2 + 1, octets[2]);
    assert(s.subrange(dot3 + 1, end) =~= td) by {
        assert forall|k: int| 0 <= k < td.len() implies s.subrange(dot3 + 1, end)[k] == td[k] by {
            assert(t[dot3 + 1 - pos + k] == td[k]);
        }
    }
    lemma_octet_complete(s, dot3 + 1, octets[3]);
    assert(seq![octets[0], octets[1], octets[2], octets[3]] =~= octets);
}

/// The first `hex_run` bytes from `pos` on are hexadecimal digits, and the
/// byte after them, if there is one, is none.
pub proof fn lemma_hex_run_digits(s: Seq<u8>, pos: int)
    requires
        0 <= pos <= s.len(),
    ensures
        forall|k: int| 0 <= k < hex_run(s, pos) ==> is_hex(#[trigger] s[pos + k]),
        pos + hex_run(s, pos) == s.len() || !is_hex(s[pos + hex_run(s, pos)]),
        0 <= hex_run(s, pos) <= s.len() - pos,
    decreases s.len() - pos,
{
    if pos < s.len() && is_hex(s[pos]) {
        lemma_hex_run_digits(s, pos + 1);
        assert forall|k: int| 0 <= k < hex_run(s, pos) implies is_hex(#[trigger] s[pos + k]) by {
            if k > 0 {
                assert(is_hex(s[pos + 1 + (k - 1)]));
            }
        }
    }
}

/// `n` hexadecimal digits from `pos` on, and none after them, are a run of `n`.
pub proof fn lemma_hex_run_exact(s: Seq<u8>, pos: int, n: int)
    requires
        0 <= pos,
        0 <= n,
        pos + n <= s.len(),
        forall|k: int| 0 <= k < n ==> is_hex(#[trigger] s[pos + k]),
        pos + n == s.len() || !is_hex(s[pos + n]),
    ensures
        hex_run(s, pos) == n,
    decreases n,
{
    if n > 0 {
        assert(is_hex(s[pos + 0]));
        assert forall|k: int| 0 <= k < n - 1 implies is_hex(#[trigger] s[pos + 1 + k]) by {
            assert(is_hex(s[pos + (k + 1)]));
        }
        lemma_hex_run_exact(s, pos + 1, n - 1);
    }
}

/// Decimal digits are hexadecimal digits: the decimal run is the shorter one.
pub proof fn lemma_dec_run_within_hex_run(s: Seq<u8>, pos: int)
    requires
        0 <= pos <= s.len(),
    ensures
        0 <= dec_run(s, pos) <= hex_run(s, pos),
    decreases s.len() - pos,
{
    if pos < s.len() && is_hex(s[pos]) {
        lemma_dec_run_within_hex_run(s, pos + 1);
    }
}

/// Where the hexadecimal digits from `pos` on are followed by no dot, no
/// dotted quad stands at `pos`.
pub proof fn lemma_no_quad(s: Seq<u8>, pos: int)
    requires
        0 <= pos <= s.len(),
        pos + hex_run(s, pos) == s.len() || s[pos + hex_run(s, pos)] != DOT,
    ensures
        quad_at(s, pos) is None,
{
    reveal(quad_at);
    lemma_dec_run_within_hex_run(s, pos);
    lemma_hex_run_digits(s, pos);
    let k = dec_run(s, pos);
    if octet_at(s, pos) is Some {
        let dot1 = pos + k;
        if k < hex_run(s, pos) {
            assert(is_hex(s[pos + k]));
        }
    }
}

/// The items joined by colons, after a colon if they do not start the text.
pub open spec fn led(i: int, its: Seq<Seq<u8>>) -> Seq<u8> {
    if i > 0 && its.len() > 0 {
        seq![COLON] + join(its)
    } else {
        join(its)
    }
}

proof fn lemma_join_first(g: Seq<u8>, rest: Seq<Seq<u8>>)
    ensures
        join(seq![g] + rest) == g + led(1, rest),
{
    let its = seq![g] + rest;
    assert(its[0] == g);
    assert(its.drop_first() =~= rest);
    if rest.len() == 0 {
        assert(join(its) == g);
        assert(g + led(1, rest) =~= g);
    } else {
        assert(join(its) == g + seq![COLON] + join(rest));
        assert(g + seq![COLON] + join(rest) =~= g + (seq![COLON] + join(rest)));
    }
}

/// What a reading finds is made of groups of the grammar, fits the slots, and
/// spells the text that was read.
pub proof fn lemma_scan_sound(s: Seq<u8>, pos: int, i: int, limit: int)
    requires
        0 <= pos <= s.len(),
        0 <= i <= limit,
    ensures
        ({
            let found = scan(s, pos, i, limit);
            &&& forall|k: int|
                0 <= k < found.groups.len() ==> is_hex_group(#[trigger] found.groups[k])
            &&& found.quad matches Some(octets) ==> octets.len() == 4
            &&& i + slots(found.groups, found.quad) <= limit
            &&& pos <= found.end <= s.len()
            &&& s.subrange(pos, found.end) == led(i, items(found.groups, found.quad))
        }),
    decreases limit - i,
{
    let found = scan(s, pos, i, limit);
    let nothing = Scan { groups: seq![], quad: None, end: pos };
    if i >= limit || (i > 0 && !(0 <= pos < s.len() && s[pos] == COLON)) {
        assert(found == nothing);
        assert(s.subrange(pos, pos) =~= led(i, items(found.groups, found.quad)));
    } else {
        let start = if i > 0 {
            pos + 1
        } else {
            pos
        };
        if i + 1 < limit && quad_at(s, start) is Some {
            lemma_quad_sound(s, start);
            let (octets, end) = quad_at(s, start).unwrap();
            let its = items(found.groups, found.quad);
            assert(its =~= seq![v4_text(octets)]);
            assert(join(its) == v4_text(octets));
            if i > 0 {
                assert(s.subrange(pos, end) =~= seq![COLON] + s.subrange(start, end));
            }
        } else {
            let n = hex_run(s, start);
            lemma_hex_run_digits(s, start);
            if 1 <= n <= 4 {
                let g = s.subrange(start, start + n);
                let rest = scan(s, start + n, i + 1, limit);
                lemma_scan_sound(s, start + n, i + 1, limit);
                assert(found.groups == seq![g] + rest.groups);
                assert(is_hex_group(g)) by {
                    assert forall|k: int| 0 <= k < g.len() implies is_hex(#[trigger] g[k]) by {
                        assert(is_hex(s[start + k]));
                    }
                }
                assert forall|k: int| 0 <= k < found.groups.len() implies is_hex_group(
                    #[trigger] found.groups[k],
                ) by {
                    if k > 0 {
                        assert(found.groups[k] == rest.groups[k - 1]);
                    }
                }
                let rest_its = items(rest.groups, rest.quad);
                let its = items(found.groups, found.quad);
                assert(its =~= seq![g] + rest_its);
                lemma_join_first(g, rest_its);
                assert(led(i + 1, rest_its) == led(1, rest_its));
                assert(s.subrange(start, rest.end) =~= g + s.subrange(start + n, rest.end));
                if i > 0 {
                    assert(s.subrange(pos, rest.end) =~= seq![COLON] + s.subrange(start, rest.end));
                }
            } else {
                assert(found == nothing);
                assert(s.subrange(pos, pos) =~= led(i, items(found.groups, found.quad)));
            }
        }
    }
}

/// Groups and a quad of the grammar that fit the slots, written at `pos` and
/// followed by the end of the text or by `::`, are what a reading finds there.
pub proof fn lemma_scan_complete(
    s: Seq<u8>,
    pos: int,
    i: int,
    limit: int,
    groups: Seq<Seq<u8>>,
    quad: Option<Seq<u8>>,
)
    requires
        0 <= pos,
        0 <= i,
        forall|k: int| 0 <= k < groups.len() ==> is_hex_group(#[trigger] groups[k]),
        quad matches Some(octets) ==> octets.len() == 4,
        i + slots(groups, quad) <= limit,
        pos + led(i, items(groups, quad)).len() <= s.len(),
        s.subrange(pos, pos + led(i, items(groups, quad)).len()) == led(i, items(groups, quad)),
        ({
            let e = pos + led(i, items(groups, quad)).len();
            e == s.len() || (s[e] == COLON && e + 1 < s.len() && s[e + 1] == COLON)
        }),
    ensures
        scan(s, pos, i, limit).groups == groups,
        scan(s, pos, i, limit).quad == quad,
        scan(s, pos, i, limit).end == pos + led(i, items(groups, quad)).len(),
    decreases groups.len(),
{
    let its = items(groups, quad);
    let t = led(i, its);
    let e = pos + t.len();
    assert forall|k: int| 0 <= k < t.len() implies s[pos + k] == #[trigger] t[k] by {
        assert(s.subrange(pos, e)[k] == t[k]);
    }
    if groups.len() == 0 {
        match quad {
            None => {
                assert(its.len() == 0);
                assert(t.len() == 0);
                if i < limit {
                    if i > 0 {
                        if pos < s.len() && s[pos] == COLON {
                            assert(hex_run(s, pos + 1) == 0);
                            lemma_no_quad(s, pos + 1);
                        }
                    } else {
                        assert(hex_run(s, pos) == 0);
                        lemma_no_quad(s, pos);
                    }
                }
                assert(scan(s, pos, i, limit).groups =~= groups);
            },
            Some(octets) => {
                assert(its =~= seq![v4_text(octets)]);
                assert(join(its) == v4_text(octets));
                let start = if i > 0 {
                    pos + 1
                } else {
                    pos
                };
                if i > 0 {
                    assert(t[0] == COLON);
                    assert(s[pos + 0] == t[0]);
                }
                assert(s.subrange(start, e) =~= v4_text(octets)) by {
                    assert forall|k: int| 0 <= k < v4_text(octets).len() implies s.subrange(
                        start,
                        e,
                    )[k] == v4_text(octets)[k] by {
                        assert(s[pos + (start - pos + k)] == t[start - pos + k]);
                    }
                }
                lemma_quad_complete(s, start, octets);
                assert(scan(s, pos, i, limit).groups =~= groups);
            },
        }
    } else {
        let g = groups[0];
        let rest = groups.drop_first();
        let rest_its = items(rest, quad);
        assert(is_hex_group(g));
        assert(its =~= seq![g] + rest_its);
        lemma_join_first(g, rest_its);
        let start = if i > 0 {
            pos + 1
        } else {
            pos
        };
        if i > 0 {
            assert(t[0] == COLON);
            assert(s[pos + 0] == t[0]);
        }
        let f = start + g.len();
        assert(e == f + led(i + 1, rest_its).len());
        assert(led(i + 1, rest_its) == led(1, rest_its));
        assert forall|k: int| 0 <= k < g.len() implies s[start + k] == #[trigger] g[k] by {
            assert(s[pos + (start - pos + k)] == t[start - pos + k]);
        }
        assert forall|k: int| 0 <= k < g.len() implies is_hex(#[trigger] s[start + k]) by {
            assert(is_hex(g[k]));
        }
        assert(f == s.len() || s[f] == COLON) by {
            if rest_its.len() > 0 {
                assert(led(1, rest_its)[0] == COLON);
                assert(s[pos + (f - pos)] == t[f - pos]);
            }
        }
        lemma_hex_run_exact(s, start, g.len() as int);
        lemma_no_quad(s, start);
        assert(s.subrange(start, f) =~= g);
        assert(s.subrange(f, e) =~= led(i + 1, rest_its)) by {
            assert forall|k: int| 0 <= k < led(i + 1, rest_its).len() implies s.subrange(f, e)[k]
                == led(i + 1, rest_its)[k] by {
                assert(s[pos + (f - pos + k)] == t[f - pos + k]);
            }
        }
        assert forall|k: int| 0 <= k < rest.len() implies is_hex_group(#[trigger] rest[k]) by {
            assert(rest[k] == groups[k + 1]);
        }
        lemma_scan_complete(s, f, i + 1, limit, rest, quad);
        assert(scan(s, pos, i, limit).groups =~= groups);
    }
}

/// The address that a left-to-right reading of the whole of `s` finds: a
/// dotted quad if `s` is one, else IPv6 text.
pub open spec fn read_ip(s: Seq<u8>) -> Option<Addr> {
    match read_v4(s) {
        Some(octets) => Some(Addr::V4(octets)),
        None => match read_v6(s) {
            Some(form) => Some(Addr::V6(form.segments())),
            None => None,
        },
    }
}

/// A reading finds four octets exactly in the IPv4 text of those octets.
pub proof fn lemma_read_v4(s: Seq<u8>, octets: Seq<u8>)
    ensures
        read_v4(s) == Some(octets) <==> is_v4_text(s, octets),
{
    if read_v4(s) == Some(octets) {
        lemma_quad_sound(s, 0);
        assert(s.subrange(0, s.len() as int) =~= s);
    }
    if is_v4_text(s, octets) {
        assert(s.subrange(0, s.len() as int) =~= s);
        lemma_quad_complete(s, 0, octets);
    }
}

/// The form that a reading finds is one of the grammar, and its text is the
/// text that was read.
pub proof fn lemma_read_v6_sound(s: Seq<u8>)
    requires
        read_v6(s) is Some,
    ensures
        read_v6(s).unwrap().ok(),
        read_v6(s).unwrap().text() == s,
        read_v6(s).unwrap().segments().len() == 8,
{
    let form = read_v6(s).unwrap();
    let head = scan(s, 0, 0, 8);
    lemma_scan_sound(s, 0, 0, 8);
    if slots(head.groups, head.quad) == 8 {
        assert(s.subrange(0, s.len() as int) =~= s);
    } else {
        let p = head.end;
        let tail = scan(s, p + 2, 0, 7 - head.groups.len());
        lemma_scan_sound(s, p + 2, 0, 7 - head.groups.len());
        assert(items(head.groups, head.quad) == head.groups);
        assert(s =~= s.subrange(0, p) + seq![COLON, COLON] + s.subrange(p + 2, s.len() as int));
    }
}

/// The text of every form of the grammar is read as that form.
pub proof fn lemma_read_v6_complete(form: V6Form)
    requires
        form.ok(),
    ensures
        read_v6(form.text()) == Some(form),
{
    let s = form.text();
    if form.gap {
        let a = join(form.head);
        let b = join(items(form.tail, form.quad));
        let p = a.len() as int;
        assert(items(form.head, None) == form.head);
        assert(s.subrange(0, p) =~= a);
        assert(s[p] == COLON && s[p + 1] == COLON);
        lemma_scan_complete(s, 0, 0, 8, form.head, None);
        assert(s.subrange(p + 2, p + 2 + b.len()) =~= b);
        lemma_scan_complete(s, p + 2, 0, 7 - form.head.len(), form.tail, form.quad);
        let found = read_v6(s).unwrap();
        assert(found.head =~= form.head && found.tail =~= form.tail);
    } else {
        assert(s.subrange(0, s.len() as int) =~= s);
        lemma_scan_complete(s, 0, 0, 8, form.head, form.quad);
        let found = read_v6(s).unwrap();
        assert(found.head =~= form.head && found.tail =~= form.tail);
    }
}

/// No text is both IPv4 text and IPv6 text.
pub proof fn lemma_v4_text_is_no_v6_text(s: Seq<u8>)
    requires
        read_v4(s) is Some,
    ensures
        read_v6(s) is None,
{
    reveal(quad_at);
}

/// A reading finds an address exactly in the texts that the grammar gives to
/// that address: so every text has at most one address.
pub proof fn lemma_read_ip(s: Seq<u8>, addr: Addr)
    ensures
        read_ip(s) == Some(addr) <==> is_ip_text(s, addr),
        is_ip_text(s, addr) ==> addr.wf(),
{
    match addr {
        Addr::V4(octets) => {
            lemma_read_v4(s, octets);
        },
        Addr::V6(segments) => {
            if read_ip(s) == Some(addr) {
                lemma_read_v6_sound(s);
                assert(read_v6(s).unwrap().ok());
            }
            if is_v6_text(s, segments) {
                let form = choose|form: V6Form|
                    #[trigger] form.ok() && form.text() == s && form.segments() == segments;
                lemma_read_v6_complete(form);
                lemma_read_v6_sound(s);
                if read_v4(s) is Some {
                    lemma_v4_text_is_no_v6_text(s);
                }
            }
        },
    }
}

/// A text is text of one address at most.
pub proof fn lemma_ip_text_unique(s: Seq<u8>, a: Addr, b: Addr)
    requires
        is_ip_text(s, a),
        is_ip_text(s, b),
    ensures
        a == b,
{
    lemma_read_ip(s, a);
    lemma_read_ip(s, b);
}

proof fn lemma_text_bytes_concat(a: Seq<u8>, b: Seq<u8>)
    requires
        is_text_bytes(a),
        is_text_bytes(b),
    ensures
        is_text_bytes(a + b),
{
    assert forall|i: int| 0 <= i < (a + b).len() implies is_visible_ascii(#[trigger] (a + b)[i]) by {
        if i < a.len() {
            assert((a + b)[i] == a[i]);
        } else {
            assert((a + b)[i] == b[i - a.len()]);
        }
    }
}

proof fn lemma_join_text_bytes(its: Seq<Seq<u8>>)
    requires
        forall|k: int| 0 <= k < its.len() ==> is_text_bytes(#[trigger] its[k]),
    ensures
        is_text_bytes(join(its)),
    decreases its.len(),
{
    if its.len() > 1 {
        assert forall|k: int| 0 <= k < its.drop_first().len() implies is_text_bytes(
            #[trigger] its.drop_first()[k],
        ) by {
            assert(its.drop_first()[k] == its[k + 1]);
        }
        lemma_join_text_bytes(its.drop_first());
        lemma_text_bytes_concat(its[0], seq![COLON]);
        lemma_text_bytes_concat(its[0] + seq![COLON], join(its.drop_first()));
    }
}

proof fn lemma_v4_text_visible(octets: Seq<u8>)
    ensures
        is_text_bytes(v4_text(octets)),
{
    lemma_ip_text_bytes(Addr::V4(octets));
    assert forall|i: int| 0 <= i < v4_text(octets).len() implies is_visible_ascii(
        #[trigger] v4_text(octets)[i],
    ) by {
        assert(is_addr_byte(v4_text(octets)[i]));
    }
}

proof fn lemma_items_text_bytes(groups: Seq<Seq<u8>>, quad: Option<Seq<u8>>)
    requires
        forall|k: int| 0 <= k < groups.len() ==> is_hex_group(#[trigger] groups[k]),
    ensures
        is_text_bytes(join(items(groups, quad))),
{
    let its = items(groups, quad);
    assert forall|k: int| 0 <= k < its.len() implies is_text_bytes(#[trigger] its[k]) by {
        if k < groups.len() {
            assert(is_hex_group(groups[k]));
            assert forall|i: int| 0 <= i < its[k].len() implies is_visible_ascii(
                #[trigger] its[k][i],
            ) by {
                assert(is_hex(groups[k][i]));
            }
        } else {
            lemma_v4_text_visible(quad.unwrap());
        }
    }
    lemma_join_text_bytes(its);
}

/// Address text is visible ASCII.
pub proof fn lemma_ip_text_visible(s: Seq<u8>, addr: Addr)
    requires
        is_ip_text(s, addr),
    ensures
        is_text_bytes(s),
{
    match addr {
        Addr::V4(octets) => {
            lemma_v4_text_visible(octets);
        },
        Addr::V6(segments) => {
            let form = choose|form: V6Form|
                #[trigger] form.ok() && form.text() == s && form.segments() == segments;
            if form.gap {
                lemma_items_text_bytes(form.head, None);
                lemma_items_text_bytes(form.tail, form.quad);
                lemma_text_bytes_concat(join(form.head), seq![COLON, COLON]);
                lemma_text_bytes_concat(
                    join(form.head) + seq![COLON, COLON],
                    join(items(form.tail, form.quad)),
                );
            } else {
                lemma_items_text_bytes(form.head, form.quad);
            }
        },
    }
}

} // verus!
