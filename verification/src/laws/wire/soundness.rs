//! Which datagrams are sound: those whose lengths add up.

use vstd::prelude::*;

use crate::buf::{at16, at32, lemma_be2, lemma_be4};
use crate::decode::header::{format_of, Format};
use crate::decode::sets::SetView;
use crate::laws::wire::layouts::{lemma_front_set, sets_bytes, sets_writable};
use crate::laws::wire::{lemma_at16, lemma_number, number, w16};
use crate::wellformed::{sets_verdict, verdict, VerdictView};

verus! {

/// The number in the two bytes from a place on.
pub open spec fn half_at(data: Seq<u8>, i: int) -> nat {
    number(data.subrange(i, i + 2))
}

/// A text that is sets, one after another, and nothing else.
pub open spec fn is_sets(region: Seq<u8>) -> bool {
    exists|sets: Seq<SetView>| sets_writable(sets) && #[trigger] sets_bytes(sets) == region
}

/// Two bytes, weighed.
pub proof fn lemma_half_at(data: Seq<u8>, i: int)
    requires
        0 <= i,
        i + 2 <= data.len(),
    ensures
        half_at(data, i) == at16(data, i),
        half_at(data, i) == data[i] * 256 + data[i + 1],
{
    let b = data.subrange(i, i + 2);
    lemma_number(b);
    lemma_be2(b);
}

/// The format shows in the first bytes: 5, 9 and 10 in the first two for NetFlow v5,
/// NetFlow v9 and IPFIX; 5 in the first four and the kind of the agent's address, 1 or
/// 2, in the next four for sFlow; nothing else is a format.
pub proof fn lemma_format_by_first_bytes(data: Seq<u8>)
    ensures
        format_of(data) == Some(Format::V5) <==> data.len() >= 2 && data[0] == 0 && data[1] == 5,
        format_of(data) == Some(Format::V9) <==> data.len() >= 2 && data[0] == 0 && data[1] == 9,
        format_of(data) == Some(Format::Ipfix) <==> data.len() >= 2 && data[0] == 0 && data[1]
            == 10,
        format_of(data) == Some(Format::Sflow) <==> data.len() >= 8 && data.take(7) == seq![
            0u8,
            0,
            0,
            5,
            0,
            0,
            0,
        ] && (data[7] == 1 || data[7] == 2),
{
    if data.len() >= 2 {
        lemma_half_at(data, 0);
    }
    if data.len() >= 8 {
        lemma_half_at(data, 2);
        lemma_be4(data.subrange(4, 8));
        let first = seq![0u8, 0, 0, 5, 0, 0, 0];
        if format_of(data) == Some(Format::Sflow) {
            assert(data.take(7) =~= first);
        }
        if data.take(7) == first {
            assert(data[0] == first[0] && data[1] == first[1] && data[2] == first[2]);
            assert(data[3] == first[3] && data[4] == first[4] && data[5] == first[5]);
            assert(data[6] == first[6]);
        }
    }
}

/// Whole sets are skipped, and what stands behind them decides. Nothing behind them is
/// sound; fewer than four bytes are a cut set; a set that says it is shorter than its
/// own header, or longer than what is left, is out of range.
#[verifier::rlimit(40)]
pub proof fn lemma_verdict_by_tail(
    sets: Seq<SetView>,
    tail: Seq<u8>,
    version: Seq<char>,
    kind: Seq<char>,
)
    requires
        sets_writable(sets),
    ensures
        ({
            let v = sets_verdict(sets_bytes(sets) + tail, version, kind);
            &&& v.version == Some(version)
            &&& tail.len() == 0 ==> v == (VerdictView {
                ok: true,
                version: Some(version),
                error: None,
                kind: None,
            })
            &&& 0 < tail.len() < 4 ==> v == (VerdictView {
                ok: false,
                version: Some(version),
                error: Some("trailing bytes shorter than a set header"@),
                kind: Some("truncated"@),
            })
            &&& tail.len() >= 4 && half_at(tail, 2) < 4 ==> v == (VerdictView {
                ok: false,
                version: Some(version),
                error: Some("set length below the 4-byte minimum"@),
                kind: Some(kind),
            })
            &&& tail.len() >= 4 && half_at(tail, 2) > tail.len() ==> v == (VerdictView {
                ok: false,
                version: Some(version),
                error: Some("set length exceeds remaining datagram"@),
                kind: Some(kind),
            })
        }),
    decreases sets.len() + tail.len(),
{
    let s = sets_bytes(sets) + tail;
    if sets.len() == 0 {
        assert(s =~= tail);
        if tail.len() >= 4 {
            lemma_half_at(tail, 2);
            let n = at16(tail, 2) as int;
            if 4 <= n <= tail.len() {
                let none = Seq::<SetView>::empty();
                lemma_verdict_by_tail(none, tail.skip(n), version, kind);
                assert(sets_bytes(none) + tail.skip(n) =~= tail.skip(n));
            }
        }
    } else {
        let more = sets.drop_first();
        let set = sets[0];
        let n = (set.body.len() + 4) as u16;
        assert(set.body.len() <= 65_531);
        assert forall|i: int| 0 <= i < more.len() implies (#[trigger] more[i]).body.len()
            <= 65_531 by {
            assert(more[i] == sets[i + 1]);
        }
        lemma_verdict_by_tail(more, tail, version, kind);
        lemma_whole_set(set, sets_bytes(more) + tail);
        assert(s =~= w16(set.id) + w16(n) + set.body + (sets_bytes(more) + tail));
    }
}

/// A whole set in front says how long it is.
proof fn lemma_whole_set(set: SetView, rest: Seq<u8>)
    requires
        set.body.len() <= 65_531,
    ensures
        ({
            let n = (set.body.len() + 4) as u16;
            let s = w16(set.id) + w16(n) + set.body + rest;
            &&& s.len() == n + rest.len()
            &&& at16(s, 2) == n
            &&& s.skip(n as int) == rest
        }),
{
    let n = (set.body.len() + 4) as u16;
    let s = w16(set.id) + w16(n) + set.body + rest;
    lemma_at16(s, 2, n);
    assert(s.skip(n as int) =~= rest);
}

/// A region is found sound exactly where it is sets and nothing else.
#[verifier::rlimit(40)]
pub proof fn lemma_sound_is_sets(region: Seq<u8>, version: Seq<char>, kind: Seq<char>)
    ensures
        sets_verdict(region, version, kind).ok <==> is_sets(region),
    decreases region.len(),
{
    if is_sets(region) {
        let sets = choose|sets: Seq<SetView>|
            sets_writable(sets) && #[trigger] sets_bytes(sets) == region;
        lemma_verdict_by_tail(sets, Seq::empty(), version, kind);
        assert(sets_bytes(sets) + Seq::<u8>::empty() =~= region);
    }
    if sets_verdict(region, version, kind).ok {
        if region.len() == 0 {
            let none = Seq::<SetView>::empty();
            assert(sets_bytes(none) =~= region);
            assert(sets_writable(none));
        } else {
            let n = at16(region, 2) as int;
            let rest = region.skip(n);
            lemma_sound_is_sets(rest, version, kind);
            let more = choose|sets: Seq<SetView>|
                sets_writable(sets) && #[trigger] sets_bytes(sets) == rest;
            let set = SetView { id: at16(region, 0), body: region.subrange(4, n) };
            lemma_front_set(region, more);
            assert(region.take(n) + rest =~= region);
            assert(sets_bytes(seq![set] + more) == region);
        }
    }
}

/// An IPFIX datagram is sound exactly where the length that its header declares is at
/// least that of the header and no more than is there, and what stands between the
/// header and that length is sets and nothing else. A declared length outside that
/// range is refused as such.
pub proof fn lemma_ipfix_sound(data: Seq<u8>)
    requires
        format_of(data) == Some(Format::Ipfix),
    ensures
        verdict(data).version == Some("10"@),
        verdict(data).ok <==> data.len() >= 16 && 16 <= half_at(data, 2) <= data.len() && is_sets(
            data.subrange(16, half_at(data, 2) as int),
        ),
        data.len() < 16 ==> verdict(data) == (VerdictView {
            ok: false,
            version: Some("10"@),
            error: Some("datagram shorter than IPFIX header"@),
            kind: Some("truncated"@),
        }),
        data.len() >= 16 && !(16 <= half_at(data, 2) <= data.len()) ==> verdict(data) == (
        VerdictView {
            ok: false,
            version: Some("10"@),
            error: Some("IPFIX header length out of range"@),
            kind: Some("bad-ipfix-set"@),
        }),
        data.len() >= 16 && 16 <= half_at(data, 2) <= data.len() ==> verdict(data) == sets_verdict(
            data.subrange(16, half_at(data, 2) as int),
            "10"@,
            "bad-ipfix-set"@,
        ),
{
    if data.len() >= 16 {
        lemma_half_at(data, 2);
        let n = half_at(data, 2) as int;
        if 16 <= n <= data.len() {
            let region = data.subrange(16, n);
            lemma_sound_is_sets(region, "10"@, "bad-ipfix-set"@);
            lemma_verdict_shape(region, "10"@, "bad-ipfix-set"@);
        }
    }
}

/// Every verdict on sets names the version.
proof fn lemma_verdict_shape(region: Seq<u8>, version: Seq<char>, kind: Seq<char>)
    ensures
        sets_verdict(region, version, kind).version == Some(version),
{
    let none = Seq::<SetView>::empty();
    lemma_verdict_by_tail(none, region, version, kind);
    assert(sets_bytes(none) + region =~= region);
}

/// An IPFIX datagram that is as long as it declares is sound in no shorter form: every
/// proper prefix of it is refused.
pub proof fn lemma_cut_ipfix_is_unsound(data: Seq<u8>, n: int)
    requires
        format_of(data) == Some(Format::Ipfix),
        data.len() >= 4,
        half_at(data, 2) == data.len(),
        0 <= n < data.len(),
    ensures
        !verdict(data.take(n)).ok,
{
    let cut = data.take(n);
    lemma_format_by_first_bytes(data);
    lemma_format_by_first_bytes(cut);
    if n >= 2 {
        assert(cut[0] == data[0] && cut[1] == data[1]);
        lemma_ipfix_sound(cut);
        if n >= 16 {
            assert(cut.subrange(2, 4) =~= data.subrange(2, 4));
        }
    }
}

/// What follows the length that an IPFIX header declares does not matter.
pub proof fn lemma_ipfix_sound_ignores_rest(data: Seq<u8>, rest: Seq<u8>)
    requires
        format_of(data) == Some(Format::Ipfix),
        data.len() >= 16,
        half_at(data, 2) <= data.len(),
    ensures
        verdict(data + rest).ok <==> verdict(data).ok,
{
    let more = data + rest;
    lemma_format_by_first_bytes(data);
    lemma_format_by_first_bytes(more);
    assert(more.subrange(2, 4) =~= data.subrange(2, 4));
    lemma_ipfix_sound(data);
    lemma_ipfix_sound(more);
    let n = half_at(data, 2) as int;
    if 16 <= n {
        assert(more.subrange(16, n) =~= data.subrange(16, n));
    }
}

/// A NetFlow v9 datagram is sound exactly where the header of twenty bytes is followed
/// by sets and nothing else.
pub proof fn lemma_v9_sound(data: Seq<u8>)
    requires
        format_of(data) == Some(Format::V9),
    ensures
        verdict(data).version == Some("9"@),
        verdict(data).ok <==> data.len() >= 20 && is_sets(data.skip(20)),
        data.len() < 20 ==> verdict(data) == (VerdictView {
            ok: false,
            version: Some("9"@),
            error: Some("datagram shorter than v9 header"@),
            kind: Some("truncated"@),
        }),
        data.len() >= 20 ==> verdict(data) == sets_verdict(
            data.skip(20),
            "9"@,
            "set-length-overrun"@,
        ),
{
    if data.len() >= 20 {
        lemma_sound_is_sets(data.skip(20), "9"@, "set-length-overrun"@);
        lemma_verdict_shape(data.skip(20), "9"@, "set-length-overrun"@);
    }
}

/// A NetFlow v5 datagram is sound exactly where the header of 24 bytes and the declared
/// number of records, 48 bytes each, are there.
pub proof fn lemma_v5_sound(data: Seq<u8>)
    requires
        format_of(data) == Some(Format::V5),
    ensures
        verdict(data) == if data.len() < 24 {
            VerdictView {
                ok: false,
                version: Some("5"@),
                error: Some("datagram shorter than v5 header"@),
                kind: Some("truncated"@),
            }
        } else if data.len() < 24 + 48 * half_at(data, 2) {
            VerdictView {
                ok: false,
                version: Some("5"@),
                error: Some("declared record count exceeds datagram length"@),
                kind: Some("short-record"@),
            }
        } else {
            VerdictView { ok: true, version: Some("5"@), error: None, kind: None }
        },
{
    if data.len() >= 24 {
        lemma_half_at(data, 2);
    }
}

/// A NetFlow v5 datagram with nothing behind its records is sound in no shorter form.
pub proof fn lemma_cut_v5_is_unsound(data: Seq<u8>, n: int)
    requires
        format_of(data) == Some(Format::V5),
        data.len() >= 24,
        data.len() == 24 + 48 * half_at(data, 2),
        0 <= n < data.len(),
    ensures
        !verdict(data.take(n)).ok,
{
    let cut = data.take(n);
    lemma_format_by_first_bytes(data);
    lemma_format_by_first_bytes(cut);
    if n >= 2 {
        assert(cut[0] == data[0] && cut[1] == data[1]);
        lemma_v5_sound(cut);
        if n >= 24 {
            assert(cut.subrange(2, 4) =~= data.subrange(2, 4));
        }
    }
}

/// An sFlow datagram is sound exactly where its header is whole: 28 bytes with an IPv4
/// agent, 40 with an IPv6 agent.
pub proof fn lemma_sflow_sound(data: Seq<u8>)
    requires
        format_of(data) == Some(Format::Sflow),
    ensures
        verdict(data) == if (data[7] == 1 && data.len() >= 28) || (data[7] == 2 && data.len()
            >= 40) {
            VerdictView { ok: true, version: Some("sflow5"@), error: None, kind: None }
        } else {
            VerdictView {
                ok: false,
                version: Some("sflow5"@),
                error: Some("sFlow header truncated"@),
                kind: Some("truncated"@),
            }
        },
{
    lemma_format_by_first_bytes(data);
    lemma_be4(data.subrange(4, 8));
    let first = seq![0u8, 0, 0, 5, 0, 0, 0];
    assert(data.take(7)[4] == first[4] && data.take(7)[5] == first[5] && data.take(7)[6]
        == first[6]);
    assert(at32(data, 4) == data[7]);
}

/// Bytes that no format begins with are no flow datagram.
pub proof fn lemma_unknown_unsound(data: Seq<u8>)
    requires
        format_of(data) is None,
    ensures
        verdict(data) == (VerdictView {
            ok: false,
            version: None,
            error: Some("leading bytes match no known flow header"@),
            kind: Some("not-a-flow-datagram"@),
        }),
{
}

} // verus!
