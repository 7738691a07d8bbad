//! What is answered to datagrams that cannot be read.

use vstd::prelude::*;

use crate::buf::lemma_be4;
use crate::cache::{CacheView, KeyView, PendingView};
use crate::decode::header::{format_of, Format};
use crate::decode::sets::{sets_of, SetView};
use crate::decode::{datagram_outcome, Mode, OptionsView, Restrict};
use crate::laws::wire::layouts::{lemma_set_at_front, sets_bytes, sets_writable};
use crate::laws::wire::messages::{
    ipfix_header_bytes, ipfix_message_ctx, lemma_ipfix_header_reads_back, lemma_nothing_to_retry,
    lemma_v9_header_reads_back, v9_header_bytes, v9_message_ctx, IpfixHeader, V9Header,
};
use crate::laws::wire::soundness::{half_at, lemma_format_by_first_bytes, lemma_half_at};
use crate::laws::wire::{bare_row, w16};
use crate::normalize::FlowView;

verus! {

/// The answer to a datagram that cannot be read: one row that names the reason, and a
/// cache as it was.
pub open spec fn only_row(
    exporter: Seq<char>,
    version: Seq<char>,
    reason: Seq<char>,
    cache: CacheView,
) -> (Seq<FlowView>, CacheView) {
    (seq![bare_row(exporter, version, 0, None, None, Some(reason))], cache)
}

/// Bytes of no known format are answered with one row that says so.
pub proof fn lemma_no_format(
    data: Seq<u8>,
    opts: OptionsView,
    cache: CacheView,
    restrict: Restrict,
)
    requires
        format_of(data) is None,
    ensures
        datagram_outcome(data, opts, cache, restrict) == only_row(
            opts.exporter,
            ""@,
            "decode-error:not-a-flow-datagram"@,
            cache,
        ),
{
}

/// A datagram of a format that is not asked for is answered with one row that names the
/// format: where NetFlow is asked for, IPFIX and sFlow are refused; where IPFIX is, all
/// others; where sFlow is, all others; where anything is, nothing.
pub proof fn lemma_format_not_accepted(
    data: Seq<u8>,
    opts: OptionsView,
    cache: CacheView,
    restrict: Restrict,
)
    requires
        cache.pending == Map::<KeyView, Seq<PendingView>>::empty(),
    ensures
        format_of(data) == Some(Format::V5) && (restrict == Restrict::IpfixOnly || restrict
            == Restrict::SflowOnly) ==> datagram_outcome(data, opts, cache, restrict) == only_row(
            opts.exporter,
            "5"@,
            "decode-error:format-"@ + "5"@ + "-not-accepted-here"@,
            cache,
        ),
        format_of(data) == Some(Format::V9) && (restrict == Restrict::IpfixOnly || restrict
            == Restrict::SflowOnly) ==> datagram_outcome(data, opts, cache, restrict) == only_row(
            opts.exporter,
            "9"@,
            "decode-error:format-"@ + "9"@ + "-not-accepted-here"@,
            cache,
        ),
        format_of(data) == Some(Format::Ipfix) && (restrict == Restrict::NetflowOnly || restrict
            == Restrict::SflowOnly) ==> datagram_outcome(data, opts, cache, restrict) == only_row(
            opts.exporter,
            "10"@,
            "decode-error:format-"@ + "10"@ + "-not-accepted-here"@,
            cache,
        ),
        format_of(data) == Some(Format::Sflow) && (restrict == Restrict::NetflowOnly || restrict
            == Restrict::IpfixOnly) ==> datagram_outcome(data, opts, cache, restrict) == only_row(
            opts.exporter,
            "sflow5"@,
            "decode-error:format-"@ + "sflow5"@ + "-not-accepted-here"@,
            cache,
        ),
{
    lemma_nothing_to_retry(cache, opts.now_micros, opts.mode == Mode::FlowsOnly);
    assert(forall|x: Seq<FlowView>| #[trigger] (x + Seq::<FlowView>::empty()) =~= x);
}

/// A datagram that ends inside its header is answered with one row that says which
/// header: 22 bytes are read of v5, 20 of v9, 16 of IPFIX, and 28 or 40 of sFlow.
pub proof fn lemma_header_cut(data: Seq<u8>, opts: OptionsView, cache: CacheView)
    requires
        cache.pending == Map::<KeyView, Seq<PendingView>>::empty(),
    ensures
        format_of(data) == Some(Format::V5) && data.len() < 22 ==> datagram_outcome(
            data,
            opts,
            cache,
            Restrict::Any,
        ) == only_row(opts.exporter, "5"@, "decode-error:bad-v5-header"@, cache),
        format_of(data) == Some(Format::V9) && data.len() < 20 ==> datagram_outcome(
            data,
            opts,
            cache,
            Restrict::Any,
        ) == only_row(opts.exporter, "9"@, "decode-error:bad-v9-header"@, cache),
        format_of(data) == Some(Format::Ipfix) && data.len() < 16 ==> datagram_outcome(
            data,
            opts,
            cache,
            Restrict::Any,
        ) == only_row(opts.exporter, "10"@, "decode-error:bad-ipfix-header"@, cache),
        format_of(data) == Some(Format::Sflow) && (data.len() < 28 || (data[7] == 2 && data.len()
            < 40)) ==> datagram_outcome(data, opts, cache, Restrict::Any) == only_row(
            opts.exporter,
            "sflow5"@,
            "decode-error:bad-sflow-header"@,
            cache,
        ),
{
    lemma_nothing_to_retry(cache, opts.now_micros, opts.mode == Mode::FlowsOnly);
    assert(forall|x: Seq<FlowView>| #[trigger] (x + Seq::<FlowView>::empty()) =~= x);
    if format_of(data) == Some(Format::Sflow) {
        lemma_format_by_first_bytes(data);
        lemma_be4(data.subrange(4, 8));
        assert(data.take(7)[4] == 0 && data.take(7)[5] == 0 && data.take(7)[6] == 0);
    }
}

/// Sets in front of one whose length cannot be are not read.
proof fn lemma_bad_tail(sets: Seq<SetView>, tail: Seq<u8>)
    requires
        sets_writable(sets),
        tail.len() >= 4,
        half_at(tail, 2) < 4 || half_at(tail, 2) > tail.len(),
    ensures
        sets_of(sets_bytes(sets) + tail) is None,
    decreases sets.len(),
{
    let s = sets_bytes(sets) + tail;
    lemma_half_at(tail, 2);
    if sets.len() == 0 {
        assert(s =~= tail);
    } else {
        let more = sets.drop_first();
        let n = (sets[0].body.len() + 4) as u16;
        assert(sets[0].body.len() <= 65_531);
        assert forall|i: int| 0 <= i < more.len() implies (#[trigger] more[i]).body.len()
            <= 65_531 by {
            assert(more[i] == sets[i + 1]);
        }
        lemma_bad_tail(more, tail);
        lemma_set_at_front(sets[0], sets_bytes(more) + tail);
        assert(s =~= w16(sets[0].id) + w16(n) + sets[0].body + (sets_bytes(more) + tail));
    }
}

/// A NetFlow v9 message with a set whose length cannot be is refused whole, whatever
/// stands before that set: one row says so, with the time and the sequence number of the
/// header, and no template of the message is learned.
pub proof fn lemma_v9_overrun(
    h: V9Header,
    sets: Seq<SetView>,
    tail: Seq<u8>,
    opts: OptionsView,
    cache: CacheView,
)
    requires
        cache.pending == Map::<KeyView, Seq<PendingView>>::empty(),
        sets_writable(sets),
        tail.len() >= 4,
        half_at(tail, 2) < 4 || half_at(tail, 2) > tail.len(),
    ensures
        datagram_outcome(
            v9_header_bytes(h) + (sets_bytes(sets) + tail),
            opts,
            cache,
            Restrict::Any,
        ) == (
            seq![
                bare_row(
                    opts.exporter,
                    "9"@,
                    v9_message_ctx(h, opts).obs_domain,
                    Some((h.secs * 1_000_000) as i64),
                    Some(h.sequence as u64),
                    Some("set-length-overrun"@),
                ),
            ],
            cache,
        ),
{
    lemma_bad_tail(sets, tail);
    lemma_v9_header_reads_back(h, sets_bytes(sets) + tail);
    lemma_nothing_to_retry(cache, opts.now_micros, opts.mode == Mode::FlowsOnly);
    assert(forall|x: Seq<FlowView>| #[trigger] (x + Seq::<FlowView>::empty()) =~= x);
}

/// An IPFIX message with a set whose length cannot be is refused whole, whatever stands
/// before that set: one row says so, with the time and the sequence number of the header,
/// and no template of the message is learned.
pub proof fn lemma_ipfix_overrun(
    h: IpfixHeader,
    sets: Seq<SetView>,
    tail: Seq<u8>,
    opts: OptionsView,
    cache: CacheView,
)
    requires
        cache.pending == Map::<KeyView, Seq<PendingView>>::empty(),
        sets_writable(sets),
        tail.len() >= 4,
        half_at(tail, 2) < 4 || half_at(tail, 2) > tail.len(),
    ensures
        datagram_outcome(
            ipfix_header_bytes(h) + (sets_bytes(sets) + tail),
            opts,
            cache,
            Restrict::Any,
        ) == (
            seq![
                bare_row(
                    opts.exporter,
                    "10"@,
                    ipfix_message_ctx(h, opts).obs_domain,
                    Some((h.secs * 1_000_000) as i64),
                    Some(h.sequence as u64),
                    Some("bad-ipfix-set"@),
                ),
            ],
            cache,
        ),
{
    lemma_bad_tail(sets, tail);
    lemma_ipfix_header_reads_back(h, sets_bytes(sets) + tail);
    lemma_nothing_to_retry(cache, opts.now_micros, opts.mode == Mode::FlowsOnly);
    assert(forall|x: Seq<FlowView>| #[trigger] (x + Seq::<FlowView>::empty()) =~= x);
}

} // verus!
