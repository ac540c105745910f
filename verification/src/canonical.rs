//! The canonical text of an address is text of that address: what is written
//! can be read back.

use vstd::prelude::*;
use crate::addr::{
    groups_text, hex_digit, hex_text, ip_text, is_v4_mapped, longest_zero_run, octets_of, v4_text, v6_text,
    zero_run, Addr, COLON,
};
use crate::grammar::{
    group_values, hex_val, hex_value, is_hex, is_hex_group, is_ip_text, items, join,
    zeros, V6Form,
};

verus! {

/// The canonical texts of the segments, one group each.
pub open spec fn hex_texts(segments: Seq<u16>) -> Seq<Seq<u8>> {
    Seq::new(segments.len(), |i: int| hex_text(segments[i] as int))
}

proof fn lemma_hex_value_small(d: Seq<u8>)
    ensures
        d.len() == 1 ==> hex_value(d) == hex_val(d[0]),
        d.len() == 2 ==> hex_value(d) == hex_val(d[0]) * 16
            + hex_val(d[1]),
        d.len() == 3 ==> hex_value(d) == hex_val(d[0]) * 256
            + hex_val(d[1]) * 16 + hex_val(d[2]),
        d.len() == 4 ==> hex_value(d) == hex_val(d[0]) * 4096
            + hex_val(d[1]) * 256 + hex_val(d[2]) * 16
            + hex_val(d[3]),
{
    reveal_with_fuel(hex_value, 5);
    if d.len() >= 1 {
        assert(d.drop_last().len() == d.len() - 1);
    }
    if d.len() >= 2 {
        assert(d.drop_last().last() == d[d.len() - 2]);
        assert(d.drop_last().drop_last().len() == d.len() - 2);
    }
    if d.len() >= 3 {
        assert(d.drop_last().drop_last().last() == d[d.len() - 3]);
        assert(d.drop_last().drop_last().drop_last().len() == d.len() - 3);
    }
    if d.len() >= 4 {
        assert(d.drop_last().drop_last().drop_last().last() == d[d.len() - 4]);
        assert(d.drop_last().drop_last().drop_last().drop_last().len() == d.len() - 4);
    }
}

proof fn lemma_hex_digit(d: int)
    requires
        0 <= d < 16,
    ensures
        is_hex(hex_digit(d)),
        hex_val(hex_digit(d)) == d,
{
}

proof fn lemma_hex_places(n: u16)
    ensures
        n / 0x1000 < 16,
        n == (n / 0x1000) * 0x1000 + (n / 0x100 % 0x10) * 0x100 + (n / 0x10 % 0x10) * 0x10 + n
            % 0x10,
        n < 0x1000 ==> n / 0x100 < 16 && n == (n / 0x100) * 0x100 + (n / 0x10 % 0x10) * 0x10 + n
            % 0x10,
        n < 0x100 ==> n / 0x10 < 16 && n == (n / 0x10) * 0x10 + n % 0x10,
{
    assert(n / 0x1000 < 16) by (bit_vector);
    assert(n == (n / 0x1000) * 0x1000 + (n / 0x100 % 0x10) * 0x100 + (n / 0x10 % 0x10) * 0x10 + n
        % 0x10) by (bit_vector);
    assert(n < 0x1000 ==> n / 0x100 < 16 && n == (n / 0x100) * 0x100 + (n / 0x10 % 0x10) * 0x10
        + n % 0x10) by (bit_vector);
    assert(n < 0x100 ==> n / 0x10 < 16 && n == (n / 0x10) * 0x10 + n % 0x10) by (bit_vector);
}

/// The canonical text of a segment is a group of the grammar that spells it.
pub proof fn lemma_hex_text_group(n: u16)
    ensures
        is_hex_group(hex_text(n as int)),
        hex_value(hex_text(n as int)) == n,
{
    let t = hex_text(n as int);
    let m = n as int;
    lemma_hex_value_small(t);
    lemma_hex_places(n);
    lemma_hex_digit(m % 0x10);
    lemma_hex_digit(m / 0x10 % 0x10);
    lemma_hex_digit(m / 0x100 % 0x10);
    if m < 0x10 {
        assert(t[0] == hex_digit(m));
        lemma_hex_digit(m);
    } else if m < 0x100 {
        lemma_hex_digit(m / 0x10);
        assert(t[0] == hex_digit(m / 0x10) && t[1] == hex_digit(m % 0x10));
    } else if m < 0x1000 {
        lemma_hex_digit(m / 0x100);
        assert(t[0] == hex_digit(m / 0x100) && t[1] == hex_digit(m / 0x10 % 0x10) && t[2]
            == hex_digit(m % 0x10));
    } else {
        lemma_hex_digit(m / 0x1000);
        assert(t[0] == hex_digit(m / 0x1000) && t[1] == hex_digit(m / 0x100 % 0x10) && t[2]
            == hex_digit(m / 0x10 % 0x10) && t[3] == hex_digit(m % 0x10));
    }
    assert forall|i: int| 0 <= i < t.len() implies is_hex(#[trigger] t[i]) by {}
}

proof fn lemma_join_push(its: Seq<Seq<u8>>, x: Seq<u8>)
    ensures
        join(its.push(x)) == if its.len() == 0 {
            x
        } else {
            join(its) + seq![COLON] + x
        },
    decreases its.len(),
{
    let all = its.push(x);
    if its.len() == 0 {
        assert(all[0] == x);
    } else if its.len() == 1 {
        assert(all.drop_first() =~= seq![x]);
        assert(join(all.drop_first()) == x) by {
            assert(all.drop_first()[0] == x);
        }
        assert(all[0] == its[0]);
        assert(join(its) == its[0]);
    } else {
        assert(all.drop_first() =~= its.drop_first().push(x));
        lemma_join_push(its.drop_first(), x);
        assert(all[0] == its[0]);
        assert(join(all) =~= join(its) + seq![COLON] + x);
    }
}

/// Joining the canonical texts of the segments gives their colon-joined text.
pub proof fn lemma_groups_text_join(segments: Seq<u16>)
    ensures
        groups_text(segments) == join(hex_texts(segments)),
    decreases segments.len(),
{
    if segments.len() == 0 {
    } else if segments.len() == 1 {
        assert(hex_texts(segments)[0] == hex_text(segments[0] as int));
    } else {
        lemma_groups_text_join(segments.drop_last());
        assert(hex_texts(segments) =~= hex_texts(segments.drop_last()).push(
            hex_text(segments.last() as int),
        ));
        lemma_join_push(hex_texts(segments.drop_last()), hex_text(segments.last() as int));
    }
}

proof fn lemma_hex_texts(segments: Seq<u16>)
    ensures
        forall|k: int|
            0 <= k < hex_texts(segments).len() ==> is_hex_group(#[trigger] hex_texts(segments)[k]),
        group_values(hex_texts(segments)) == segments,
{
    assert forall|k: int| 0 <= k < hex_texts(segments).len() implies is_hex_group(
        #[trigger] hex_texts(segments)[k],
    ) by {
        lemma_hex_text_group(segments[k]);
    }
    assert forall|k: int| 0 <= k < segments.len() implies group_values(hex_texts(segments))[k]
        == segments[k] by {
        lemma_hex_text_group(segments[k]);
    }
    assert(group_values(hex_texts(segments)) =~= segments);
}

/// A run of zeros holds zeros only and ends within the segments.
pub proof fn lemma_zero_run(segments: Seq<u16>, i: int)
    requires
        0 <= i <= segments.len(),
    ensures
        0 <= zero_run(segments, i) <= segments.len() - i,
        forall|k: int| 0 <= k < zero_run(segments, i) ==> #[trigger] segments[i + k] == 0,
    decreases segments.len() - i,
{
    if i < segments.len() && segments[i] == 0 {
        lemma_zero_run(segments, i + 1);
        assert forall|k: int| 0 <= k < zero_run(segments, i) implies #[trigger] segments[i + k]
            == 0 by {
            if k > 0 {
                assert(segments[i + 1 + (k - 1)] == 0);
            }
        }
    }
}

/// The longest run is a run: it starts before `n` and is as long as the zeros
/// from its start on; no run that starts before `n` is longer, and none that
/// starts further left is as long.
pub proof fn lemma_longest_zero_run(segments: Seq<u16>, n: int)
    requires
        0 <= n <= segments.len(),
    ensures
        ({
            let run = longest_zero_run(segments, n);
            &&& run.1 >= 0
            &&& run.1 > 0 ==> 0 <= run.0 < n && run.1 == zero_run(segments, run.0)
            &&& forall|i: int| 0 <= i < n ==> zero_run(segments, i) <= run.1
            &&& forall|i: int| 0 <= i < run.0 ==> zero_run(segments, i) < run.1
        }),
    decreases n,
{
    if n > 0 {
        lemma_longest_zero_run(segments, n - 1);
        lemma_zero_run(segments, n - 1);
    }
}

/// The canonical text of an address is text of that address.
pub proof fn lemma_canonical_text(addr: Addr)
    requires
        addr.wf(),
    ensures
        is_ip_text(ip_text(addr), addr),
{
    match addr {
        Addr::V4(octets) => {},
        Addr::V6(segments) => {
            let ffff = hex_text(0xffff);
            if is_v4_mapped(segments) {
                let octets = octets_of(segments[6], segments[7]);
                let form = V6Form { head: seq![], gap: true, tail: seq![ffff], quad: Some(octets) };
                lemma_hex_text_group(0xffff);
                let its = items(form.tail, form.quad);
                assert(its =~= seq![ffff, v4_text(octets)]);
                assert(its.drop_first() =~= seq![v4_text(octets)]);
                assert(join(its.drop_first()) == v4_text(octets)) by {
                    assert(its.drop_first()[0] == v4_text(octets));
                }
                assert(join(its) == ffff + seq![COLON] + v4_text(octets)) by {
                    assert(its[0] == ffff);
                }
                assert(form.text() =~= v6_text(segments));
                assert(form.segments() =~= segments);
                assert(form.ok());
            } else {
                let run = longest_zero_run(segments, 8);
                lemma_longest_zero_run(segments, 8);
                if run.1 > 1 {
                    lemma_zero_run(segments, run.0);
                    let before = segments.subrange(0, run.0);
                    let after = segments.subrange(run.0 + run.1, 8);
                    let form = V6Form {
                        head: hex_texts(before),
                        gap: true,
                        tail: hex_texts(after),
                        quad: None,
                    };
                    lemma_groups_text_join(before);
                    lemma_groups_text_join(after);
                    lemma_hex_texts(before);
                    lemma_hex_texts(after);
                    assert(form.text() == v6_text(segments));
                    assert forall|k: int| 0 <= k < 8 implies form.segments()[k] == segments[k] by {
                        if run.0 <= k < run.0 + run.1 {
                            assert(segments[run.0 + (k - run.0)] == 0);
                        }
                    }
                    assert(form.segments() =~= segments);
                    assert(form.ok());
                } else {
                    let form = V6Form {
                        head: hex_texts(segments),
                        gap: false,
                        tail: seq![],
                        quad: None,
                    };
                    lemma_groups_text_join(segments);
                    lemma_hex_texts(segments);
                    assert(form.segments() =~= segments);
                    assert(form.ok());
                }
            }
        },
    }
}

} // verus!
