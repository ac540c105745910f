//! Reading an IP address from its text, left to right.

use vstd::prelude::*;
use crate::addr::{Addr, IpAddr, COLON, DOT};
use crate::grammar::{
    dec_value, group_values, hex_val, hex_value, is_dec, is_hex, is_ip_text, is_v4_text,
    is_v6_text, quad_segments, slots, V6Form,
};
use crate::reading::{
    dec_run, hex_run, lemma_dec_run_bounds, lemma_hex_run_bounds, lemma_read_ip, lemma_read_v4,
    lemma_read_v6_complete, lemma_read_v6_sound, octet_at, quad_at, read_ip, read_v4, read_v6,
    scan,
};

verus! {

fn is_dec_byte(b: u8) -> (r: bool)
    ensures
        r == is_dec(b),
{
    48 <= b && b <= 57
}

fn is_hex_byte(b: u8) -> (r: bool)
    ensures
        r == is_hex(b),
{
    (48 <= b && b <= 57) || (97 <= b && b <= 102) || (65 <= b && b <= 70)
}

fn hex_val_of(b: u8) -> (v: u32)
    requires
        is_hex(b),
    ensures
        v == hex_val(b),
        v < 16,
{
    if b <= 57 {
        (b - 48) as u32
    } else if b >= 97 {
        (b - 87) as u32
    } else {
        (b - 55) as u32
    }
}

fn read_octet(s: &[u8], pos: usize) -> (r: Option<(u8, usize)>)
    requires
        pos <= s.len(),
    ensures
        match r {
            Some((v, end)) => octet_at(s@, pos as int) == Some((v, end as int)) && pos < end
                <= s.len(),
            None => octet_at(s@, pos as int) is None,
        },
{
    let mut j: usize = pos;
    let mut v: u32 = 0;
    while j < s.len() && j - pos < 4 && is_dec_byte(s[j])
        invariant
            pos <= j <= s.len(),
            j - pos <= 4,
            dec_run(s@, pos as int) == (j - pos) + dec_run(s@, j as int),
            v == dec_value(s@.subrange(pos as int, j as int)),
            v <= 9999,
            j - pos <= 3 ==> v <= 999,
            j - pos <= 2 ==> v <= 99,
            j - pos <= 1 ==> v <= 9,
            j - pos <= 0 ==> v == 0,
        decreases s.len() - j,
    {
        proof {
            assert(s@.subrange(pos as int, j + 1).drop_last() =~= s@.subrange(pos as int, j as int));
        }
        v = v * 10 + (s[j] - 48) as u32;
        j += 1;
    }
    let n = j - pos;
    proof {
        lemma_dec_run_bounds(s@, j as int);
    }
    if n == 0 || n == 4 {
        return None;
    }
    if n > 1 && s[pos] == 48 {
        return None;
    }
    if v > 255 {
        return None;
    }
    Some((v as u8, j))
}

fn read_quad(s: &[u8], pos: usize) -> (r: Option<([u8; 4], usize)>)
    requires
        pos <= s.len(),
    ensures
        match r {
            Some((octets, end)) => quad_at(s@, pos as int) == Some((octets@, end as int)) && pos
                < end <= s.len(),
            None => quad_at(s@, pos as int) is None,
        },
{
    reveal(quad_at);
    let (a, dot1) = match read_octet(s, pos) {
        Some(found) => found,
        None => return None,
    };
    if !(dot1 < s.len() && s[dot1] == DOT) {
        return None;
    }
    let (b, dot2) = match read_octet(s, dot1 + 1) {
        Some(found) => found,
        None => return None,
    };
    if !(dot2 < s.len() && s[dot2] == DOT) {
        return None;
    }
    let (c, dot3) = match read_octet(s, dot2 + 1) {
        Some(found) => found,
        None => return None,
    };
    if !(dot3 < s.len() && s[dot3] == DOT) {
        return None;
    }
    let (d, end) = match read_octet(s, dot3 + 1) {
        Some(found) => found,
        None => return None,
    };
    let octets = [a, b, c, d];
    assert(octets@ =~= seq![a, b, c, d]);
    Some((octets, end))
}

fn read_group(s: &[u8], pos: usize) -> (r: Option<(u16, usize)>)
    requires
        pos <= s.len(),
    ensures
        match r {
            Some((v, end)) => {
                &&& 1 <= hex_run(s@, pos as int) <= 4
                &&& end == pos + hex_run(s@, pos as int)
                &&& end <= s.len()
                &&& v == hex_value(s@.subrange(pos as int, end as int))
            },
            None => !(1 <= hex_run(s@, pos as int) <= 4),
        },
{
    let mut j: usize = pos;
    let mut v: u32 = 0;
    while j < s.len() && j - pos < 5 && is_hex_byte(s[j])
        invariant
            pos <= j <= s.len(),
            j - pos <= 5,
            hex_run(s@, pos as int) == (j - pos) + hex_run(s@, j as int),
            v == hex_value(s@.subrange(pos as int, j as int)),
            v <= 0xfffff,
            j - pos <= 4 ==> v <= 0xffff,
            j - pos <= 3 ==> v <= 0xfff,
            j - pos <= 2 ==> v <= 0xff,
            j - pos <= 1 ==> v <= 0xf,
            j - pos <= 0 ==> v == 0,
        decreases s.len() - j,
    {
        proof {
            assert(s@.subrange(pos as int, j + 1).drop_last() =~= s@.subrange(pos as int, j as int));
        }
        v = v * 16 + hex_val_of(s[j]);
        j += 1;
    }
    let n = j - pos;
    proof {
        lemma_hex_run_bounds(s@, j as int);
    }
    if n == 0 || n == 5 {
        return None;
    }
    Some((v as u16, j))
}

/// Reads groups into up to `limit` slots; returns the segments read, where the
/// reading stopped, and whether a dotted quad ended it.
fn read_groups(s: &[u8], pos: usize, limit: usize) -> (r: (Vec<u16>, usize, bool))
    requires
        pos <= s.len(),
        limit <= 8,
    ensures
        ({
            let found = scan(s@, pos as int, 0, limit as int);
            &&& r.0@ == group_values(found.groups) + quad_segments(found.quad)
            &&& r.0@.len() == slots(found.groups, found.quad)
            &&& r.0@.len() <= limit
            &&& r.1 == found.end
            &&& r.1 <= s.len()
            &&& r.2 == (found.quad is Some)
        }),
{
    let mut out: Vec<u16> = Vec::new();
    let mut p: usize = pos;
    let mut i: usize = 0;
    let ghost mut done: Seq<Seq<u8>> = seq![];
    while i < limit
        invariant
            i <= limit <= 8,
            p <= s.len(),
            done.len() == i,
            out@ == group_values(done),
            scan(s@, pos as int, 0, limit as int).groups == done + scan(
                s@,
                p as int,
                i as int,
                limit as int,
            ).groups,
            scan(s@, pos as int, 0, limit as int).quad == scan(
                s@,
                p as int,
                i as int,
                limit as int,
            ).quad,
            scan(s@, pos as int, 0, limit as int).end == scan(
                s@,
                p as int,
                i as int,
                limit as int,
            ).end,
        decreases limit - i,
    {
        let ghost here = scan(s@, p as int, i as int, limit as int);
        let mut start: usize = p;
        if i > 0 {
            if !(p < s.len() && s[p] == COLON) {
                assert(done + here.groups =~= done);
                assert(out@ + quad_segments(here.quad) =~= out@);
                return (out, p, false);
            }
            start = p + 1;
        }
        if i + 1 < limit {
            match read_quad(s, start) {
                Some((octets, end)) => {
                    out.push((octets[0] as u16) * 256 + octets[1] as u16);
                    out.push((octets[2] as u16) * 256 + octets[3] as u16);
                    assert(done + here.groups =~= done);
                    assert(out@ =~= group_values(done) + quad_segments(here.quad));
                    return (out, end, true);
                },
                None => {},
            }
        }
        match read_group(s, start) {
            Some((v, end)) => {
                let ghost group = s@.subrange(start as int, end as int);
                let ghost rest = scan(s@, end as int, i + 1, limit as int);
                proof {
                    assert(here.groups == seq![group] + rest.groups);
                    assert(done + here.groups =~= done.push(group) + rest.groups);
                    assert(group_values(done.push(group)) =~= group_values(done).push(v));
                    done = done.push(group);
                }
                out.push(v);
                p = end;
                i += 1;
            },
            None => {
                assert(done + here.groups =~= done);
                assert(out@ + quad_segments(here.quad) =~= out@);
                return (out, p, false);
            },
        }
    }
    proof {
        let here = scan(s@, p as int, i as int, limit as int);
        assert(done + here.groups =~= done);
        assert(out@ + quad_segments(here.quad) =~= out@);
    }
    (out, p, false)
}

fn read_whole_v4(s: &[u8]) -> (r: Option<[u8; 4]>)
    ensures
        match r {
            Some(octets) => read_v4(s@) == Some(octets@),
            None => read_v4(s@) is None,
        },
{
    match read_quad(s, 0) {
        Some((octets, end)) => if end == s.len() {
            Some(octets)
        } else {
            None
        },
        None => None,
    }
}

fn read_whole_v6(s: &[u8]) -> (r: Option<[u16; 8]>)
    ensures
        match r {
            Some(segments) => read_v6(s@) matches Some(form) && segments@ == form.segments(),
            None => read_v6(s@) is None,
        },
{
    let (head, p, head_quad) = read_groups(s, 0, 8);
    let mut segments: [u16; 8] = [0u16; 8];
    if head.len() == 8 {
        if p != s.len() {
            return None;
        }
        let mut k: usize = 0;
        while k < 8
            invariant
                k <= 8,
                head@.len() == 8,
                forall|j: int| 0 <= j < k ==> segments@[j] == head@[j],
            decreases 8 - k,
        {
            segments[k] = head[k];
            k += 1;
        }
        assert(segments@ =~= head@);
        return Some(segments);
    }
    if head_quad {
        return None;
    }
    if !(s.len() - p >= 2 && s[p] == COLON && s[p + 1] == COLON) {
        return None;
    }
    let (tail, q, _tail_quad) = read_groups(s, p + 2, 7 - head.len());
    if q != s.len() {
        return None;
    }
    let h = head.len();
    let t = tail.len();
    let mut k: usize = 0;
    while k < h
        invariant
            k <= h < 8,
            h == head@.len(),
            forall|j: int| 0 <= j < k ==> segments@[j] == head@[j],
            forall|j: int| k <= j < 8 ==> segments@[j] == 0,
        decreases h - k,
    {
        segments[k] = head[k];
        k += 1;
    }
    let mut k: usize = 0;
    while k < t
        invariant
            k <= t,
            h + t <= 7,
            h == head@.len(),
            t == tail@.len(),
            forall|j: int| 0 <= j < h ==> segments@[j] == head@[j],
            forall|j: int| h <= j < 8 - t ==> segments@[j] == 0,
            forall|j: int| 8 - t <= j < 8 - t + k ==> segments@[j] == tail@[j - (8 - t)],
        decreases t - k,
    {
        segments[8 - t + k] = tail[k];
        k += 1;
    }
    proof {
        let form = read_v6(s@).unwrap();
        assert(segments@ =~= form.segments());
    }
    Some(segments)
}

/// Reads the whole of `text` as an IPv4 address.
pub fn parse_v4(text: &[u8]) -> (r: Option<[u8; 4]>)
    ensures
        match r {
            Some(octets) => is_v4_text(text@, octets@),
            None => forall|octets: Seq<u8>| !is_v4_text(text@, octets),
        },
{
    let r = read_whole_v4(text);
    proof {
        assert forall|octets: Seq<u8>| is_v4_text(text@, octets) <==> read_v4(text@) == Some(
            octets,
        ) by {
            lemma_read_v4(text@, octets);
        }
    }
    r
}

/// Reads the whole of `text` as an IPv6 address.
pub fn parse_v6(text: &[u8]) -> (r: Option<[u16; 8]>)
    ensures
        match r {
            Some(segments) => is_v6_text(text@, segments@),
            None => forall|segments: Seq<u16>| !is_v6_text(text@, segments),
        },
{
    let r = read_whole_v6(text);
    proof {
        match r {
            Some(segments) => {
                lemma_read_v6_sound(text@);
                assert(read_v6(text@).unwrap().ok());
            },
            None => {
                assert forall|segments: Seq<u16>| !is_v6_text(text@, segments) by {
                    if is_v6_text(text@, segments) {
                        let form = choose|form: V6Form|
                            #[trigger] form.ok() && form.text() == text@ && form.segments()
                                == segments;
                        lemma_read_v6_complete(form);
                    }
                }
            },
        }
    }
    r
}

/// Reads the whole of `text` as an IP address of either family.
pub fn parse(text: &[u8]) -> (r: Option<IpAddr>)
    ensures
        match r {
            Some(addr) => is_ip_text(text@, addr@),
            None => forall|addr: Addr| !is_ip_text(text@, addr),
        },
{
    let r = match read_whole_v4(text) {
        Some(octets) => Some(IpAddr::V4(octets)),
        None => match read_whole_v6(text) {
            Some(segments) => Some(IpAddr::V6(segments)),
            None => None,
        },
    };
    proof {
        match r {
            Some(addr) => {
                assert(read_ip(text@) == Some(addr@));
                lemma_read_ip(text@, addr@);
            },
            None => {
                assert forall|addr: Addr| !is_ip_text(text@, addr) by {
                    lemma_read_ip(text@, addr);
                }
            },
        }
    }
    r
}

} // verus!
