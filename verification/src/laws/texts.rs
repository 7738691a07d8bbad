//! Notes and addresses as text.

use vstd::arithmetic::power::pow;
use vstd::prelude::*;

use crate::buf::{be, lemma_be2};
use crate::inet::{
    groups_text, inet_cell, ipv4_text, ipv6_text, is_v4_mapped, lemma_flip_top,
    lemma_flipped_hugeint, lemma_le_bound, lemma_le_reverse, lemma_top_weight, lemma_v4_hugeint,
    lemma_zeros_from_bound, segment, segments, starts_longest_run, zeros_from, InetVal, IpAddr,
};
use crate::laws::values::lemma_be_injective;
use crate::laws::wire::{host4, host6, lemma_number, lemma_w32, number, w32};
use crate::normalize::{has_note, is_part, noted};
use crate::text::{dec, hex};

verus! {

/// Whatever was noted before stays noted, and nothing is noted besides: a note joins those
/// that are there, or is there already.
pub proof fn lemma_notes_join(d: Seq<char>, msg: Seq<char>, m: Seq<char>)
    requires
        forall|i: int| 0 <= i < msg.len() ==> msg[i] != ';',
    ensures
        noted(None, msg) == Some(msg),
        noted(Some(d), msg) matches Some(t) && (has_note(t, m) <==> has_note(d, m) || m == msg),
{
    let t = noted(Some(d), msg)->0;
    reveal_strlit(";");
    if has_note(d, msg) {
    } else {
        let n = d.len() as int;
        assert(t == d + ";"@ + msg);
        assert(t[n] == ';');
        assert(forall|k: int| 0 <= k < n ==> t[k] == d[k]);
        assert(forall|k: int| 0 <= k < msg.len() ==> t[n + 1 + k] == msg[k]);
        if has_note(d, m) {
            let (i, j) = choose|i: int, j: int| #[trigger]
                is_part(d, i, j) && d.subrange(i, j) == m;
            assert(is_part(t, i, j));
            assert(t.subrange(i, j) =~= m);
        }
        assert(is_part(t, n + 1, t.len() as int));
        assert(t.subrange(n + 1, t.len() as int) =~= msg);
        if has_note(t, m) {
            let (i, j) = choose|i: int, j: int| #[trigger]
                is_part(t, i, j) && t.subrange(i, j) == m;
            if j <= n {
                assert(is_part(d, i, j));
                assert(d.subrange(i, j) =~= m);
            } else {
                if i <= n {
                    assert(t[n] != ';');
                }
                if i > n + 1 {
                    assert(t[i - 1] == msg[i - 1 - (n + 1)]);
                }
                if j < t.len() {
                    assert(t[j] == msg[j - (n + 1)]);
                }
                assert(i == n + 1 && j == t.len());
            }
        }
    }
}

/// Texts with colons between them.
pub open spec fn with_colons(parts: Seq<Seq<char>>) -> Seq<char>
    decreases parts.len(),
{
    if parts.len() == 0 {
        Seq::empty()
    } else if parts.len() == 1 {
        parts[0]
    } else {
        parts[0] + ":"@ + with_colons(parts.drop_first())
    }
}

/// One more text behind a colon.
proof fn lemma_colons_push(parts: Seq<Seq<char>>, x: Seq<char>)
    requires
        parts.len() > 0,
    ensures
        with_colons(parts.push(x)) == with_colons(parts) + ":"@ + x,
    decreases parts.len(),
{
    let all = parts.push(x);
    if parts.len() == 1 {
        assert(all.drop_first() =~= seq![x]);
        assert(with_colons(seq![x]) == x);
    } else {
        let rest = parts.drop_first();
        lemma_colons_push(rest, x);
        assert(all.drop_first() =~= rest.push(x));
        assert(parts[0] + ":"@ + (with_colons(rest) + ":"@ + x) =~= parts[0] + ":"@ + with_colons(
            rest,
        ) + ":"@ + x);
    }
}

/// The groups of an address in hexadecimal.
pub open spec fn hex_groups(segs: Seq<u16>) -> Seq<Seq<char>> {
    Seq::new(segs.len(), |i: int| hex(segs[i] as nat))
}

/// Groups are written in hexadecimal, with colons between them.
pub proof fn lemma_groups_text(segs: Seq<u16>)
    ensures
        groups_text(segs) == with_colons(hex_groups(segs)),
    decreases segs.len(),
{
    if segs.len() > 1 {
        let front = segs.drop_last();
        lemma_groups_text(front);
        lemma_colons_push(hex_groups(front), hex(segs.last() as nat));
        assert(hex_groups(segs) =~= hex_groups(front).push(hex(segs.last() as nat)));
    }
}

/// The groups of an IPv6 address: two bytes each.
pub open spec fn groups_of(o: Seq<u8>) -> Seq<u16> {
    Seq::new(8, |i: int| (o[2 * i] * 256 + o[2 * i + 1]) as u16)
}

/// So many zero groups from a place on.
pub open spec fn is_run(g: Seq<u16>, at: int, n: int) -> bool {
    &&& 0 <= at
    &&& 0 <= n
    &&& at + n <= g.len()
    &&& forall|i: int| at <= i < at + n ==> #[trigger] g[i] == 0
}

/// A run of zero groups is as long as zero groups follow.
proof fn lemma_run(g: Seq<u16>, at: int, n: int)
    requires
        0 <= at <= g.len(),
    ensures
        is_run(g, at, zeros_from(g, at) as int),
        is_run(g, at, n) ==> n <= zeros_from(g, at),
    decreases g.len() - at,
{
    lemma_zeros_from_bound(g, at);
    if at < g.len() && g[at] == 0 {
        lemma_run(g, at + 1, n - 1);
        if is_run(g, at, n) && n > 0 {
            assert(is_run(g, at + 1, n - 1));
        }
        assert forall|i: int| at <= i < at + zeros_from(g, at) implies #[trigger] g[i] == 0 by {
            if i > at {
                assert(is_run(g, at + 1, zeros_from(g, at + 1) as int));
            }
        }
    } else if is_run(g, at, n) && n > 0 {
        assert(g[at] == 0);
    }
}

/// Some place starts the longest run.
proof fn lemma_longest_run(g: Seq<u16>, n: int) -> (s: int)
    requires
        0 < n <= g.len(),
    ensures
        0 <= s < n,
        forall|t: int| 0 <= t < n ==> #[trigger] zeros_from(g, t) <= zeros_from(g, s),
        forall|t: int| 0 <= t < s ==> #[trigger] zeros_from(g, t) < zeros_from(g, s),
    decreases n,
{
    if n == 1 {
        0
    } else {
        let s = lemma_longest_run(g, n - 1);
        if zeros_from(g, n - 1) > zeros_from(g, s) {
            n - 1
        } else {
            s
        }
    }
}

/// An IPv6 address as text: all eight groups where no two zero groups stand together; else
/// the first of the longest runs of zero groups is left out, and two colons stand for it.
/// An address that maps an IPv4 address shows that one.
pub proof fn lemma_ipv6_text(o: Seq<u8>)
    requires
        o.len() == 16,
    ensures
        ({
            let g = groups_of(o);
            let mapped = o.take(12) == seq![0u8, 0, 0, 0, 0, 0, 0, 0, 0, 0, 255, 255];
            if mapped {
                ipv6_text(o) == "::ffff:"@ + dec(o[12] as nat) + "."@ + dec(o[13] as nat) + "."@
                    + dec(o[14] as nat) + "."@ + dec(o[15] as nat)
            } else {
                ||| (forall|i: int| !#[trigger] is_run(g, i, 2)) && ipv6_text(o) == with_colons(
                    hex_groups(g),
                )
                ||| exists|s: int, n: int|
                    {
                        &&& n >= 2
                        &&& #[trigger] is_run(g, s, n)
                        &&& forall|t: int, m: int| #[trigger]
                            is_run(g, t, m) ==> m < n || (m == n && s <= t)
                        &&& ipv6_text(o) == with_colons(hex_groups(g.take(s))) + "::"@
                            + with_colons(hex_groups(g.skip(s + n)))
                    }
            }
        }),
{
    let g = groups_of(o);
    let first = seq![0u8, 0, 0, 0, 0, 0, 0, 0, 0, 0, 255, 255];
    assert forall|i: int| 0 <= i < 8 implies segment(o, i) == g[i] by {
        lemma_be2(o.subrange(2 * i, 2 * i + 2));
    }
    assert(segments(o) =~= g);
    if o.take(12) == first {
        assert forall|i: int| 0 <= i < 10 implies o[i] == 0 by {
            assert(o.take(12)[i] == first[i]);
        }
        assert(o.take(12)[10] == first[10] && o.take(12)[11] == first[11]);
        let v = o.subrange(12, 16);
        assert(v[0] == o[12] && v[1] == o[13] && v[2] == o[14] && v[3] == o[15]);
        assert("::ffff:"@ + ipv4_text(v) =~= "::ffff:"@ + dec(o[12] as nat) + "."@ + dec(
            o[13] as nat,
        ) + "."@ + dec(o[14] as nat) + "."@ + dec(o[15] as nat));
    } else {
        assert(!is_v4_mapped(o)) by {
            if is_v4_mapped(o) {
                assert(o.take(12) =~= first);
            }
        }
        let found = lemma_longest_run(g, 8);
        assert(starts_longest_run(g, found));
        let s = choose|s: int| starts_longest_run(g, s);
        let n = zeros_from(g, s) as int;
        lemma_run(g, s, 0);
        lemma_groups_text(g);
        if n > 1 {
            lemma_groups_text(g.take(s));
            lemma_groups_text(g.skip(s + n));
            assert forall|t: int, m: int| #[trigger] is_run(g, t, m) implies m < n || (m == n && s
                <= t) by {
                lemma_run(g, t, m);
                if t < 8 {
                    assert(zeros_from(g, t) <= zeros_from(g, s));
                    if t < s {
                        assert(zeros_from(g, t) < zeros_from(g, s));
                    }
                }
            }
            assert(is_run(g, s, n));
        } else {
            assert forall|i: int| !#[trigger] is_run(g, i, 2) by {
                if is_run(g, i, 2) {
                    lemma_run(g, i, 2);
                    assert(zeros_from(g, i) <= zeros_from(g, s));
                }
            }
        }
    }
}

/// The octets of an IPv4 cell are those of the address that it stands for.
pub proof fn lemma_ipv4_cell_octets(v: InetVal, address: u32)
    requires
        v@ == host4(address),
    ensures
        v.host_octets() == w32(address),
{
    let s = v.address_le@;
    let o = w32(address);
    lemma_w32(address);
    let zeros = Seq::new(12, |i: int| 0u8);
    let full = zeros + o;
    let want = full.reverse();
    assert(want.take(4) =~= o.reverse());
    lemma_v4_hugeint(o, want);
    lemma_le_reverse(full);
    assert(s.reverse().reverse() =~= s);
    lemma_le_reverse(s.reverse());
    assert(be(s.reverse()) == be(full)) by {
        lemma_le_bound(s);
        lemma_le_bound(want);
        lemma_top_weight();
        reveal(pow);
        assert(pow(256, 16) == 256 * pow(256, 15));
    }
    lemma_be_injective(s.reverse(), full);
    assert(s =~= want) by {
        assert(s =~= s.reverse().reverse());
    }
    assert(v.host_octets() =~= o);
}

/// The octets of an IPv6 cell are those of the address that it stands for.
pub proof fn lemma_ipv6_cell_octets(v: InetVal, address: Seq<u8>)
    requires
        address.len() == 16,
        v@ == host6(address),
    ensures
        v.host_octets() == address,
{
    let s = v.address_le@;
    let x = v.host_octets();
    assert(x[0] == s[15] ^ 0x80);
    lemma_flip_top(s[15]);
    lemma_flip_top(x[0]);
    assert(s =~= x.reverse().update(15, x[0] ^ 0x80));
    lemma_flipped_hugeint(x, s);
    lemma_number(address);
    lemma_be_injective(x, address);
}

/// The cell of an address: its family, the number that its octets stand for (shifted down
/// by 2^127 for IPv6, so that it fits a signed one) and the prefix length that is given.
pub proof fn lemma_address_cell(ip: IpAddr, mask: u16)
    ensures
        match ip {
            IpAddr::V4(o) => {
                &&& inet_cell(ip, mask).ip_type == 1
                &&& inet_cell(ip, mask).address == number(o@)
            },
            IpAddr::V6(o) => {
                &&& inet_cell(ip, mask).ip_type == 2
                &&& inet_cell(ip, mask).address == number(o@)
                    - 170_141_183_460_469_231_731_687_303_715_884_105_728
            },
        },
        inet_cell(ip, mask).mask == mask,
{
    match ip {
        IpAddr::V4(o) => {
            lemma_number(o@);
        },
        IpAddr::V6(o) => {
            lemma_number(o@);
        },
    }
}

} // verus!
