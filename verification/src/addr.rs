//! IP addresses as plain values, and their canonical text.

use vstd::prelude::*;
use crate::text::{ascii_string, chars_of, is_ascii_bytes};

verus! {

pub const DOT: u8 = 46;

pub const COLON: u8 = 58;

/// An IPv4 or IPv6 address: four octets, or eight 16-bit segments, most
/// significant first.
#[derive(Clone, Copy, Debug, PartialEq, Eq, Hash)]
pub enum IpAddr {
    V4([u8; 4]),
    V6([u16; 8]),
}

/// The mathematical value of an [`IpAddr`].
pub enum Addr {
    V4(Seq<u8>),
    V6(Seq<u16>),
}

impl View for IpAddr {
    type V = Addr;

    open spec fn view(&self) -> Addr {
        match *self {
            IpAddr::V4(octets) => Addr::V4(octets@),
            IpAddr::V6(segments) => Addr::V6(segments@),
        }
    }
}

impl Addr {
    /// Four octets, or eight segments.
    pub open spec fn wf(self) -> bool {
        match self {
            Addr::V4(octets) => octets.len() == 4,
            Addr::V6(segments) => segments.len() == 8,
        }
    }

    /// The IP version: 4 or 6.
    pub open spec fn version(self) -> int {
        match self {
            Addr::V4(_) => 4,
            Addr::V6(_) => 6,
        }
    }
}

/// The client's address as a request carries it.
#[derive(Clone, Copy, Debug, PartialEq, Eq, Hash)]
pub struct IpAddress(pub IpAddr);

impl View for IpAddress {
    type V = Addr;

    open spec fn view(&self) -> Addr {
        self.0@
    }
}

/// The ASCII digit for `d`, `0 <= d < 10`.
pub open spec fn dec_digit(d: int) -> u8 {
    (48 + d) as u8
}

/// The lower-case ASCII hexadecimal digit for `d`, `0 <= d < 16`.
pub open spec fn hex_digit(d: int) -> u8 {
    if d < 10 {
        (48 + d) as u8
    } else {
        (87 + d) as u8
    }
}

/// Decimal text of `n`, `0 <= n < 1000`, without leading zeros.
pub open spec fn dec_text(n: int) -> Seq<u8> {
    if n < 10 {
        seq![dec_digit(n)]
    } else if n < 100 {
        seq![dec_digit(n / 10), dec_digit(n % 10)]
    } else {
        seq![dec_digit(n / 100), dec_digit(n / 10 % 10), dec_digit(n % 10)]
    }
}

/// Lower-case hexadecimal text of `n`, `0 <= n < 65536`, without leading zeros.
pub open spec fn hex_text(n: int) -> Seq<u8> {
    if n < 0x10 {
        seq![hex_digit(n)]
    } else if n < 0x100 {
        seq![hex_digit(n / 0x10), hex_digit(n % 0x10)]
    } else if n < 0x1000 {
        seq![hex_digit(n / 0x100), hex_digit(n / 0x10 % 0x10), hex_digit(n % 0x10)]
    } else {
        seq![
            hex_digit(n / 0x1000),
            hex_digit(n / 0x100 % 0x10),
            hex_digit(n / 0x10 % 0x10),
            hex_digit(n % 0x10),
        ]
    }
}

/// Dotted-quad text of four octets.
pub open spec fn v4_text(octets: Seq<u8>) -> Seq<u8> {
    dec_text(octets[0] as int) + seq![DOT] + dec_text(octets[1] as int) + seq![DOT] + dec_text(
        octets[2] as int,
    ) + seq![DOT] + dec_text(octets[3] as int)
}

/// The segments' hexadecimal texts, joined by colons.
pub open spec fn groups_text(segments: Seq<u16>) -> Seq<u8>
    decreases segments.len(),
{
    if segments.len() == 0 {
        seq![]
    } else if segments.len() == 1 {
        hex_text(segments[0] as int)
    } else {
        groups_text(segments.drop_last()) + seq![COLON] + hex_text(segments.last() as int)
    }
}

/// The number of consecutive zero segments from index `i` on.
pub open spec fn zero_run(segments: Seq<u16>, i: int) -> int
    decreases segments.len() - i,
{
    if 0 <= i < segments.len() && segments[i] == 0 {
        1 + zero_run(segments, i + 1)
    } else {
        0
    }
}

/// Start and length of the longest run of zero segments that starts before
/// index `n`; of several longest runs, the leftmost. `(0, 0)` if there is none.
pub open spec fn longest_zero_run(segments: Seq<u16>, n: int) -> (int, int)
    decreases n,
{
    if n <= 0 {
        (0, 0)
    } else {
        let before = longest_zero_run(segments, n - 1);
        let here = zero_run(segments, n - 1);
        if here > before.1 {
            (n - 1, here)
        } else {
            before
        }
    }
}

/// An IPv4-mapped address, `::ffff:a.b.c.d`.
pub open spec fn is_v4_mapped(segments: Seq<u16>) -> bool {
    segments[0] == 0 && segments[1] == 0 && segments[2] == 0 && segments[3] == 0 && segments[4]
        == 0 && segments[5] == 0xffff
}

/// The four octets that two segments hold.
pub open spec fn octets_of(high: u16, low: u16) -> Seq<u8> {
    seq![(high / 256) as u8, (high % 256) as u8, (low / 256) as u8, (low % 256) as u8]
}

/// Canonical text of eight segments: an IPv4-mapped address ends in a dotted
/// quad; otherwise the longest run of two or more zero segments is written `::`.
pub open spec fn v6_text(segments: Seq<u16>) -> Seq<u8> {
    if is_v4_mapped(segments) {
        seq![COLON, COLON, 102u8, 102u8, 102u8, 102u8, COLON] + v4_text(
            octets_of(segments[6], segments[7]),
        )
    } else {
        let run = longest_zero_run(segments, 8);
        if run.1 > 1 {
            groups_text(segments.subrange(0, run.0)) + seq![COLON, COLON] + groups_text(
                segments.subrange(run.0 + run.1, 8),
            )
        } else {
            groups_text(segments)
        }
    }
}

/// Canonical text of an address.
pub open spec fn ip_text(addr: Addr) -> Seq<u8> {
    match addr {
        Addr::V4(octets) => v4_text(octets),
        Addr::V6(segments) => v6_text(segments),
    }
}

/// A byte of canonical address text: a digit, a lower-case hexadecimal letter,
/// a dot or a colon.
pub open spec fn is_addr_byte(b: u8) -> bool {
    48 <= b <= 57 || 97 <= b <= 102 || b == DOT || b == COLON
}

/// Every byte is one that canonical address text is made of.
pub open spec fn is_addr_bytes(bytes: Seq<u8>) -> bool {
    forall|i: int| 0 <= i < bytes.len() ==> is_addr_byte(#[trigger] bytes[i])
}

proof fn lemma_addr_bytes_concat(a: Seq<u8>, b: Seq<u8>)
    requires
        is_addr_bytes(a),
        is_addr_bytes(b),
    ensures
        is_addr_bytes(a + b),
{
    assert forall|i: int| 0 <= i < (a + b).len() implies is_addr_byte(#[trigger] (a + b)[i]) by {
        if i < a.len() {
            assert((a + b)[i] == a[i]);
        } else {
            assert((a + b)[i] == b[i - a.len()]);
        }
    }
}

fn push_dec(out: &mut Vec<u8>, n: u8)
    ensures
        final(out)@ == old(out)@ + dec_text(n as int),
{
    if n >= 100 {
        out.push(48 + n / 100);
    }
    if n >= 10 {
        out.push(48 + n / 10 % 10);
    }
    out.push(48 + n % 10);
    assert(out@ =~= old(out)@ + dec_text(n as int));
}

fn hex_digit_of(d: u16) -> (b: u8)
    requires
        d < 16,
    ensures
        b == hex_digit(d as int),
{
    if d < 10 {
        48 + d as u8
    } else {
        87 + d as u8
    }
}

fn push_hex(out: &mut Vec<u8>, n: u16)
    ensures
        final(out)@ == old(out)@ + hex_text(n as int),
{
    if n >= 0x1000 {
        out.push(hex_digit_of(n / 0x1000));
    }
    if n >= 0x100 {
        out.push(hex_digit_of(n / 0x100 % 0x10));
    }
    if n >= 0x10 {
        out.push(hex_digit_of(n / 0x10 % 0x10));
    }
    out.push(hex_digit_of(n % 0x10));
    assert(out@ =~= old(out)@ + hex_text(n as int));
}

fn push_v4(out: &mut Vec<u8>, a: u8, b: u8, c: u8, d: u8)
    ensures
        final(out)@ == old(out)@ + v4_text(seq![a, b, c, d]),
{
    push_dec(out, a);
    out.push(DOT);
    push_dec(out, b);
    out.push(DOT);
    push_dec(out, c);
    out.push(DOT);
    push_dec(out, d);
    assert(out@ =~= old(out)@ + v4_text(seq![a, b, c, d]));
}

fn push_groups(out: &mut Vec<u8>, segments: &[u16; 8], from: usize, to: usize)
    requires
        from <= to <= 8,
    ensures
        final(out)@ == old(out)@ + groups_text(segments@.subrange(from as int, to as int)),
{
    let mut i: usize = from;
    while i < to
        invariant
            from <= i <= to <= 8,
            out@ == old(out)@ + groups_text(segments@.subrange(from as int, i as int)),
        decreases to - i,
    {
        let ghost done = segments@.subrange(from as int, i as int);
        let ghost next = segments@.subrange(from as int, i + 1);
        if i > from {
            out.push(COLON);
        }
        push_hex(out, segments[i]);
        proof {
            assert(next.drop_last() =~= done);
            assert(next.last() == segments@[i as int]);
            if i > from {
                assert(out@ =~= old(out)@ + (groups_text(done) + seq![COLON] + hex_text(
                    segments@[i as int] as int,
                )));
            } else {
                assert(groups_text(done) =~= seq![]);
                assert(out@ =~= old(out)@ + hex_text(segments@[i as int] as int));
            }
        }
        i += 1;
    }
}

fn zero_run_at(segments: &[u16; 8], i: usize) -> (len: usize)
    requires
        i < 8,
    ensures
        len == zero_run(segments@, i as int),
        i + len <= 8,
{
    let mut j: usize = i;
    while j < 8 && segments[j] == 0
        invariant
            i <= j <= 8,
            zero_run(segments@, i as int) == (j - i) + zero_run(segments@, j as int),
        decreases 8 - j,
    {
        j += 1;
    }
    j - i
}

fn find_longest_zero_run(segments: &[u16; 8]) -> (run: (usize, usize))
    ensures
        (run.0 as int, run.1 as int) == longest_zero_run(segments@, 8),
        run.0 + run.1 <= 8,
{
    let mut best: (usize, usize) = (0, 0);
    let mut i: usize = 0;
    while i < 8
        invariant
            i <= 8,
            (best.0 as int, best.1 as int) == longest_zero_run(segments@, i as int),
            best.0 + best.1 <= 8,
        decreases 8 - i,
    {
        let here = zero_run_at(segments, i);
        if here > best.1 {
            best = (i, here);
        }
        i += 1;
    }
    best
}

fn text_bytes(addr: &IpAddr) -> (out: Vec<u8>)
    ensures
        out@ == ip_text(addr@),
{
    let mut out: Vec<u8> = Vec::new();
    match addr {
        IpAddr::V4(octets) => {
            push_v4(&mut out, octets[0], octets[1], octets[2], octets[3]);
            assert(octets@ =~= seq![octets@[0], octets@[1], octets@[2], octets@[3]]);
        },
        IpAddr::V6(segments) => {
            if segments[0] == 0 && segments[1] == 0 && segments[2] == 0 && segments[3] == 0
                && segments[4] == 0 && segments[5] == 0xffff {
                out.push(COLON);
                out.push(COLON);
                out.push(102);
                out.push(102);
                out.push(102);
                out.push(102);
                out.push(COLON);
                let high = segments[6];
                let low = segments[7];
                push_v4(
                    &mut out,
                    (high / 256) as u8,
                    (high % 256) as u8,
                    (low / 256) as u8,
                    (low % 256) as u8,
                );
                assert(out@ =~= v6_text(segments@));
            } else {
                let run = find_longest_zero_run(segments);
                if run.1 > 1 {
                    push_groups(&mut out, segments, 0, run.0);
                    out.push(COLON);
                    out.push(COLON);
                    push_groups(&mut out, segments, run.0 + run.1, 8);
                    assert(out@ =~= v6_text(segments@));
                } else {
                    push_groups(&mut out, segments, 0, 8);
                    assert(segments@.subrange(0, 8) =~= segments@);
                }
            }
        },
    }
    out
}

impl IpAddr {
    /// Whether this is an IPv4 address.
    pub fn is_ipv4(&self) -> (r: bool)
        ensures
            r == (self@ is V4),
    {
        match self {
            IpAddr::V4(_) => true,
            IpAddr::V6(_) => false,
        }
    }

    /// Whether this is an IPv6 address.
    pub fn is_ipv6(&self) -> (r: bool)
        ensures
            r == (self@ is V6),
    {
        match self {
            IpAddr::V4(_) => false,
            IpAddr::V6(_) => true,
        }
    }

    /// The IP version, 4 or 6.
    pub fn version(&self) -> (v: u8)
        ensures
            v == self@.version(),
    {
        match self {
            IpAddr::V4(_) => 4,
            IpAddr::V6(_) => 6,
        }
    }

    /// The canonical text of the address.
    pub fn to_string(&self) -> (s: String)
        ensures
            s@ == chars_of(ip_text(self@)),
    {
        let bytes = text_bytes(self);
        proof {
            lemma_ip_text_bytes(self@);
        }
        ascii_string(bytes)
    }
}

impl IpAddress {
    /// The canonical text of the address.
    pub fn to_string(&self) -> (s: String)
        ensures
            s@ == chars_of(ip_text(self@)),
    {
        self.0.to_string()
    }
}

proof fn lemma_groups_text_bytes(segments: Seq<u16>)
    ensures
        is_addr_bytes(groups_text(segments)),
    decreases segments.len(),
{
    if segments.len() > 1 {
        lemma_groups_text_bytes(segments.drop_last());
        lemma_addr_bytes_concat(groups_text(segments.drop_last()), seq![COLON]);
        lemma_addr_bytes_concat(
            groups_text(segments.drop_last()) + seq![COLON],
            hex_text(segments.last() as int),
        );
    }
}

proof fn lemma_v4_text_bytes(octets: Seq<u8>)
    ensures
        is_addr_bytes(v4_text(octets)),
{
    let a = dec_text(octets[0] as int) + seq![DOT];
    let b = a + dec_text(octets[1] as int) + seq![DOT];
    let c = b + dec_text(octets[2] as int) + seq![DOT];
    lemma_addr_bytes_concat(dec_text(octets[0] as int), seq![DOT]);
    lemma_addr_bytes_concat(a, dec_text(octets[1] as int));
    lemma_addr_bytes_concat(a + dec_text(octets[1] as int), seq![DOT]);
    lemma_addr_bytes_concat(b, dec_text(octets[2] as int));
    lemma_addr_bytes_concat(b + dec_text(octets[2] as int), seq![DOT]);
    lemma_addr_bytes_concat(c, dec_text(octets[3] as int));
}

/// Canonical address text holds only digits, the letters `a` to `f`, dots and
/// colons: it can stand in markup and in a JSON string as it is.
pub proof fn lemma_ip_text_bytes(addr: Addr)
    ensures
        is_addr_bytes(ip_text(addr)),
        is_ascii_bytes(ip_text(addr)),
{
    match addr {
        Addr::V4(octets) => {
            lemma_v4_text_bytes(octets);
        },
        Addr::V6(segments) => {
            if is_v4_mapped(segments) {
                lemma_v4_text_bytes(octets_of(segments[6], segments[7]));
                lemma_addr_bytes_concat(
                    seq![COLON, COLON, 102u8, 102u8, 102u8, 102u8, COLON],
                    v4_text(octets_of(segments[6], segments[7])),
                );
            } else {
                let run = longest_zero_run(segments, 8);
                if run.1 > 1 {
                    let head = groups_text(segments.subrange(0, run.0));
                    lemma_groups_text_bytes(segments.subrange(0, run.0));
                    lemma_groups_text_bytes(segments.subrange(run.0 + run.1, 8));
                    lemma_addr_bytes_concat(head, seq![COLON, COLON]);
                    lemma_addr_bytes_concat(
                        head + seq![COLON, COLON],
                        groups_text(segments.subrange(run.0 + run.1, 8)),
                    );
                } else {
                    lemma_groups_text_bytes(segments);
                }
            }
        },
    }
    assert forall|i: int| 0 <= i < ip_text(addr).len() implies ip_text(addr)[i] < 128 by {
        assert(is_addr_byte(ip_text(addr)[i]));
    }
}

} // verus!
