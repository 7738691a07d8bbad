//! What the formats promise: which datagrams need state, which decoder takes which
//! format, what `flows-only` leaves out, and that the probes, the validator and the
//! decoders agree.

use vstd::prelude::*;

use crate::buf::{after, at16, at32};
use crate::cache::{CacheView, EntryView, TemplateKind};
use crate::decode::header::{format_of, header_of, Format};
use crate::decode::ipfix::ipfix_outcome;
use crate::decode::record::{data_set_rows, CtxView};
use crate::decode::sets::{after_header, sets_of};
use crate::decode::sflow::{
    after_record, counter_sample_row, flow_sample_row, record_body, sample_rows, samples_rows,
    sflow_outcome, whole_record, with_counter_records, with_flow_record, with_flow_records,
};
use crate::decode::v5::{v5_outcome, v5_rows, v5_truncated};
use crate::decode::v9::v9_outcome;
use crate::decode::{datagram_outcome, OptionsView, Restrict};
use crate::normalize::{diagnostic_row, FlowView};
use crate::wellformed::{sets_verdict, verdict};

verus! {

broadcast use crate::buf::group_offsets;

/// NetFlow v5 and sFlow are self-contained: a datagram gives the same rows whatever
/// the cache holds, and leaves it as it is, so such datagrams may be decoded in any
/// order.
pub proof fn lemma_stateless(
    data: Seq<u8>,
    opts: OptionsView,
    a: CacheView,
    b: CacheView,
    restrict: Restrict,
)
    requires
        format_of(data) == Some(Format::V5) || format_of(data) == Some(Format::Sflow),
    ensures
        datagram_outcome(data, opts, a, restrict).0 == datagram_outcome(data, opts, b, restrict).0,
        datagram_outcome(data, opts, a, restrict).1 == a,
{
}

/// Every format is accepted by exactly one of the restricted decoders, and there it
/// decodes as it does where all formats are accepted.
pub proof fn lemma_one_decoder_per_format(
    data: Seq<u8>,
    opts: OptionsView,
    cache: CacheView,
    f: Format,
)
    requires
        format_of(data) == Some(f),
    ensures
        ({
            let r = match f {
                Format::V5 | Format::V9 => Restrict::NetflowOnly,
                Format::Ipfix => Restrict::IpfixOnly,
                Format::Sflow => Restrict::SflowOnly,
            };
            &&& forall|x: Restrict| #[trigger] x.admits(f) <==> x == r || x == Restrict::Any
            &&& datagram_outcome(data, opts, cache, r) == datagram_outcome(
                data,
                opts,
                cache,
                Restrict::Any,
            )
        }),
{
}

/// Where only flows are wanted, options records are left out and nothing else of a
/// Data Set.
pub proof fn lemma_flows_only_data_set(tpl: EntryView, payload: Seq<u8>, ctx: CtxView)
    ensures
        data_set_rows(tpl, payload, ctx, true) == if tpl.kind == TemplateKind::Options {
            Seq::empty()
        } else {
            data_set_rows(tpl, payload, ctx, false)
        },
{
}

/// A row of an sFlow counter sample.
pub open spec fn is_counter_row(row: FlowView) -> bool {
    row.diagnostics == Some("counter-sample"@)
}

/// Counter records do not change what a row is.
proof fn lemma_counter_records(rest: Seq<u8>, n: nat, row: FlowView)
    ensures
        with_counter_records(rest, n, row).diagnostics == row.diagnostics,
    decreases n,
{
    if n > 0 && whole_record(rest) {
        lemma_counter_records(
            after_record(rest),
            (n - 1) as nat,
            FlowView {
                raw_fields: row.raw_fields.push(
                    (crate::decode::sflow::counter_name(at32(rest, 0)), record_body(rest)),
                ),
                ..row
            },
        );
    }
}

/// Flow records leave no diagnostics.
proof fn lemma_flow_records(rest: Seq<u8>, n: nat, row: FlowView, rate: u32)
    ensures
        with_flow_records(rest, n, row, rate).diagnostics == row.diagnostics,
    decreases n,
{
    if n > 0 && whole_record(rest) {
        lemma_flow_records(
            after_record(rest),
            (n - 1) as nat,
            with_flow_record(at32(rest, 0), record_body(rest), row, rate),
            rate,
        );
    }
}

/// The rows of one sample, without counter rows where only flows are wanted.
proof fn lemma_sample_rows(
    kind: u32,
    body: Seq<u8>,
    exporter: Seq<char>,
    obs_domain: u32,
    sequence: u64,
)
    ensures
        sample_rows(kind, body, exporter, obs_domain, sequence, true) == sample_rows(
            kind,
            body,
            exporter,
            obs_domain,
            sequence,
            false,
        ).filter(|r: FlowView| !is_counter_row(r)),
{
    reveal(Seq::filter);
    let keep = |r: FlowView| !is_counter_row(r);
    let all = sample_rows(kind, body, exporter, obs_domain, sequence, false);
    if all.len() == 1 {
        assert(all.drop_last() =~= Seq::empty());
        if kind % 0x1000 == 1 || kind % 0x1000 == 3 {
            let row = flow_sample_row(body, exporter, obs_domain, sequence, kind % 0x1000 == 3);
            assert(row.diagnostics is None) by {
                lemma_flow_sample_clean(body, exporter, obs_domain, sequence, kind % 0x1000 == 3);
            }
            assert(keep(all[0]));
            assert(all.filter(keep) =~= all) by {
                reveal_with_fuel(Seq::filter, 2);
            }
        } else {
            let row = counter_sample_row(body, exporter, obs_domain, sequence, kind % 0x1000 == 4);
            assert(is_counter_row(row)) by {
                lemma_counter_sample_marked(
                    body,
                    exporter,
                    obs_domain,
                    sequence,
                    kind % 0x1000 == 4,
                );
            }
            assert(!keep(all[0]));
            assert(all.filter(keep) =~= Seq::empty()) by {
                reveal_with_fuel(Seq::filter, 2);
            }
        }
    } else {
        assert(all =~= Seq::empty());
        assert(all.filter(keep) =~= Seq::empty());
    }
}

/// A flow sample's row carries no diagnostics.
pub proof fn lemma_flow_sample_clean(
    body: Seq<u8>,
    exporter: Seq<char>,
    obs_domain: u32,
    sequence: u64,
    expanded: bool,
)
    ensures
        flow_sample_row(body, exporter, obs_domain, sequence, expanded).diagnostics is None,
{
    broadcast use lemma_flow_records_keep;

}

/// Flow records leave no diagnostics, whatever row they are added to.
broadcast proof fn lemma_flow_records_keep(rest: Seq<u8>, n: nat, row: FlowView, rate: u32)
    ensures
        (#[trigger] with_flow_records(rest, n, row, rate)).diagnostics == row.diagnostics,
{
    lemma_flow_records(rest, n, row, rate);
}

/// A counter sample's row is marked as one.
pub proof fn lemma_counter_sample_marked(
    body: Seq<u8>,
    exporter: Seq<char>,
    obs_domain: u32,
    sequence: u64,
    expanded: bool,
)
    ensures
        is_counter_row(counter_sample_row(body, exporter, obs_domain, sequence, expanded)),
{
    broadcast use lemma_counter_records_keep;

}

/// Counter records do not change what a row is, whatever row they are added to.
broadcast proof fn lemma_counter_records_keep(rest: Seq<u8>, n: nat, row: FlowView)
    ensures
        (#[trigger] with_counter_records(rest, n, row)).diagnostics == row.diagnostics,
{
    lemma_counter_records(rest, n, row);
}

/// Where only flows are wanted, samples give the rows that they give otherwise but
/// for those of counter samples.
pub proof fn lemma_flows_only_samples(
    rest: Seq<u8>,
    n: nat,
    exporter: Seq<char>,
    obs_domain: u32,
    sequence: u64,
)
    ensures
        samples_rows(rest, n, exporter, obs_domain, sequence, true) == samples_rows(
            rest,
            n,
            exporter,
            obs_domain,
            sequence,
            false,
        ).filter(|r: FlowView| !is_counter_row(r)),
    decreases n,
{
    let keep = |r: FlowView| !is_counter_row(r);
    let all = samples_rows(rest, n, exporter, obs_domain, sequence, false);
    if n == 0 {
        reveal(Seq::filter);
        assert(all.filter(keep) =~= Seq::empty());
    } else if !whole_record(rest) {
        reveal_strlit("truncated");
        reveal_strlit("counter-sample");
        assert("truncated"@.len() != "counter-sample"@.len());
        assert(keep(all[0]));
        assert(all.drop_last() =~= Seq::empty());
        assert(all.filter(keep) =~= all) by {
            reveal_with_fuel(Seq::filter, 2);
        }
    } else {
        let first = sample_rows(
            at32(rest, 0),
            record_body(rest),
            exporter,
            obs_domain,
            sequence,
            false,
        );
        lemma_sample_rows(at32(rest, 0), record_body(rest), exporter, obs_domain, sequence);
        lemma_flows_only_samples(
            after_record(rest),
            (n - 1) as nat,
            exporter,
            obs_domain,
            sequence,
        );
        let more = samples_rows(
            after_record(rest),
            (n - 1) as nat,
            exporter,
            obs_domain,
            sequence,
            false,
        );
        Seq::filter_distributes_over_add(first, more, keep);
    }
}

/// Where only flows are wanted, an sFlow datagram gives the rows that it gives
/// otherwise but for those of counter samples.
pub proof fn lemma_flows_only_sflow(data: Seq<u8>, exporter: Seq<char>)
    ensures
        sflow_outcome(data, exporter, true) == sflow_outcome(data, exporter, false).filter(
            |r: FlowView| !is_counter_row(r),
        ),
{
    broadcast use lemma_flows_only_samples_keep;

    let keep = |r: FlowView| !is_counter_row(r);
    let all = sflow_outcome(data, exporter, false);
    let n = crate::decode::header::agent_len(data);
    if data.len() < 8 || at32(data, 0) != 5 || (at32(data, 4) != 1 && at32(data, 4) != 2)
        || data.len() < 8 + n + 16 {
        reveal_strlit("decode-error:bad-sflow-header");
        reveal_strlit("counter-sample");
        assert("decode-error:bad-sflow-header"@.len() != "counter-sample"@.len());
        assert(keep(all[0]));
        assert(all.drop_last() =~= Seq::empty());
        assert(all.filter(keep) =~= all) by {
            reveal_with_fuel(Seq::filter, 2);
        }
    }
}

/// As `lemma_flows_only_samples`, for any samples.
broadcast proof fn lemma_flows_only_samples_keep(
    rest: Seq<u8>,
    n: nat,
    exporter: Seq<char>,
    obs_domain: u32,
    sequence: u64,
)
    ensures
        (#[trigger] samples_rows(rest, n, exporter, obs_domain, sequence, true)) == samples_rows(
            rest,
            n,
            exporter,
            obs_domain,
            sequence,
            false,
        ).filter(|r: FlowView| !is_counter_row(r)),
{
    lemma_flows_only_samples(rest, n, exporter, obs_domain, sequence);
}

/// The probe, the header and the validator agree: a header is found only in a
/// datagram whose format the probe names, with that format's version number; the
/// validator names the same format, and what it finds sound has a header.
pub proof fn lemma_probes_agree(data: Seq<u8>)
    ensures
        header_of(data) matches Some(h) ==> match format_of(data) {
            Some(Format::V5) => h.version == 5,
            Some(Format::V9) => h.version == 9,
            Some(Format::Ipfix) => h.version == 10,
            Some(Format::Sflow) => h.version == 5,
            None => false,
        },
        verdict(data).version == match format_of(data) {
            Some(f) => Some(f.text()),
            None => None,
        },
        verdict(data).ok ==> header_of(data) is Some,
        verdict(data).ok <==> verdict(data).error is None,
        verdict(data).ok <==> verdict(data).kind is None,
{
    broadcast use lemma_sets_verdict_shape;

}

/// The verdict on sets names the version that it was given, and says why it is not
/// sound exactly where it is not.
broadcast proof fn lemma_sets_verdict_shape(
    region: Seq<u8>,
    version: Seq<char>,
    overrun_kind: Seq<char>,
)
    ensures
        ({
            let v = #[trigger] sets_verdict(region, version, overrun_kind);
            &&& v.version == Some(version)
            &&& v.ok <==> v.error is None
            &&& v.ok <==> v.kind is None
        }),
    decreases region.len(),
{
    if region.len() >= 4 {
        let length = at16(region, 2) as int;
        if 4 <= length <= region.len() {
            lemma_sets_verdict_shape(region.skip(length), version, overrun_kind);
        }
    }
}

/// A region of sets that is sound splits into sets.
proof fn lemma_sound_sets(region: Seq<u8>, version: Seq<char>, overrun_kind: Seq<char>)
    requires
        sets_verdict(region, version, overrun_kind).ok,
    ensures
        sets_of(region) is Some,
    decreases region.len(),
{
    if region.len() >= 4 {
        let length = at16(region, 2) as int;
        lemma_sound_sets(region.skip(length), version, overrun_kind);
    }
}

/// As many whole v5 records as there are give as many rows, none of them with
/// diagnostics.
proof fn lemma_v5_rows(
    rest: Seq<u8>,
    n: nat,
    exporter: Seq<char>,
    obs_domain: u32,
    hdr: crate::decode::header::ExportHeader,
)
    requires
        rest.len() >= 48 * n,
    ensures
        v5_rows(rest, n, exporter, obs_domain, hdr).len() == n,
        forall|i: int|
            0 <= i < n ==> (#[trigger] v5_rows(
                rest,
                n,
                exporter,
                obs_domain,
                hdr,
            )[i]).diagnostics is None,
    decreases n,
{
    if n > 0 {
        lemma_v5_rows(rest.skip(48), (n - 1) as nat, exporter, obs_domain, hdr);
    }
}

/// What the validator finds sound decodes: a v5 datagram gives a clean row for each
/// record that it declares; a v9 datagram splits into sets, and so does an IPFIX
/// datagram that is as long as it declares.
pub proof fn lemma_sound_datagrams_decode(data: Seq<u8>, exporter: Seq<char>)
    requires
        verdict(data).ok,
    ensures
        format_of(data) == Some(Format::V5) ==> {
            &&& v5_outcome(data, exporter).len() == at16(data, 2)
            &&& forall|i: int|
                0 <= i < v5_outcome(data, exporter).len() ==> (#[trigger] v5_outcome(
                    data,
                    exporter,
                )[i]).diagnostics is None
        },
        format_of(data) == Some(Format::V9) ==> sets_of(after_header(data, 20)) is Some,
        format_of(data) == Some(Format::Ipfix) && at16(data, 2) == data.len() ==> sets_of(
            after_header(data, 16),
        ) is Some,
{
    match format_of(data) {
        Some(Format::V5) => {
            let hdr = header_of(data)->0;
            lemma_v5_rows(
                data.skip(24),
                at16(data, 2) as nat,
                exporter,
                hdr.obs_domain->0,
                hdr,
            );
        },
        Some(Format::V9) => {
            lemma_sound_sets(data.skip(20), "9"@, "set-length-overrun"@);
        },
        Some(Format::Ipfix) => {
            lemma_sound_sets(data.subrange(16, at16(data, 2) as int), "10"@, "bad-ipfix-set"@);
            if at16(data, 2) == data.len() {
                assert(data.subrange(16, data.len() as int) =~= data.skip(16));
            }
        },
        _ => {},
    }
}

/// Where v5 records are missing, the whole ones give clean rows, and one row that
/// says `truncated` follows them.
proof fn lemma_v5_rows_short(
    rest: Seq<u8>,
    n: nat,
    exporter: Seq<char>,
    obs_domain: u32,
    hdr: crate::decode::header::ExportHeader,
)
    requires
        rest.len() < 48 * n,
    ensures
        ({
            let rows = v5_rows(rest, n, exporter, obs_domain, hdr);
            &&& rows.len() == rest.len() / 48 + 1
            &&& forall|i: int|
                0 <= i < rows.len() - 1 ==> (#[trigger] rows[i]).diagnostics is None
            &&& rows.last() == v5_truncated(exporter, obs_domain, hdr)
        }),
    decreases n,
{
    if rest.len() >= 48 {
        lemma_v5_rows_short(rest.skip(48), (n - 1) as nat, exporter, obs_domain, hdr);
        let rows = v5_rows(rest, n, exporter, obs_domain, hdr);
        let later = v5_rows(rest.skip(48), (n - 1) as nat, exporter, obs_domain, hdr);
        assert(rows.drop_first() =~= later);
        assert forall|i: int| 0 <= i < rows.len() - 1 implies (#[trigger] rows[i]).diagnostics
            is None by {
            if i > 0 {
                assert(rows[i] == later[i - 1]);
            }
        }
    }
}

/// Sets do not split exactly where the verdict on them is an overrun; a tail too
/// short for a set header is all that is wrong with others.
proof fn lemma_unsound_sets(region: Seq<u8>, version: Seq<char>, overrun_kind: Seq<char>)
    requires
        overrun_kind != "truncated"@,
    ensures
        sets_of(region) is None <==> sets_verdict(region, version, overrun_kind).kind == Some(
            overrun_kind,
        ),
        sets_of(region) is Some <==> sets_verdict(region, version, overrun_kind).ok
            || sets_verdict(region, version, overrun_kind).kind == Some("truncated"@),
    decreases region.len(),
{
    if region.len() >= 4 {
        let length = at16(region, 2) as int;
        if 4 <= length <= region.len() {
            lemma_unsound_sets(region.skip(length), version, overrun_kind);
        }
    }
}

/// What the validator finds unsound is told apart in decoding too. A v5 datagram
/// without a header gives one row that says so, and one that ends too early gives its
/// whole records and a row `truncated`. A v9 datagram without a whole header, or whose
/// set lengths overrun, gives one row that says so and teaches the cache nothing;
/// one that ends in a scrap of a set splits into the sets before it. So does an
/// IPFIX datagram that is as long as it declares.
pub proof fn lemma_unsound_datagrams_decode(
    data: Seq<u8>,
    exporter: Seq<char>,
    over: Option<u32>,
    cache: CacheView,
    now: i64,
    flows_only: bool,
)
    requires
        !verdict(data).ok,
    ensures
        format_of(data) == Some(Format::V5) ==> {
            let rows = v5_outcome(data, exporter);
            let whole = if data.len() < 24 {
                0
            } else {
                (data.len() - 24) / 48
            };
            if data.len() < 22 {
                rows == seq![
                    diagnostic_row(exporter, "5"@, 0, None, None, "decode-error:bad-v5-header"@),
                ]
            } else {
                &&& rows.len() == whole + 1
                &&& forall|i: int| 0 <= i < whole ==> (#[trigger] rows[i]).diagnostics is None
                &&& rows.last().diagnostics == Some("truncated"@)
            }
        },
        format_of(data) == Some(Format::V9) ==> {
            let (rows, after) = v9_outcome(data, exporter, over, cache, now, flows_only);
            if data.len() < 20 {
                &&& rows == seq![
                    diagnostic_row(exporter, "9"@, 0, None, None, "decode-error:bad-v9-header"@),
                ]
                &&& after == cache
            } else if verdict(data).kind == Some("truncated"@) {
                sets_of(after_header(data, 20)) is Some
            } else {
                &&& rows.len() == 1
                &&& rows[0].diagnostics == Some("set-length-overrun"@)
                &&& verdict(data).kind == Some("set-length-overrun"@)
                &&& after == cache
            }
        },
        format_of(data) == Some(Format::Ipfix) && (data.len() < 16 || at16(data, 2) == data.len())
            ==> {
            let (rows, after) = ipfix_outcome(data, exporter, over, cache, now, flows_only);
            if data.len() < 16 {
                &&& rows == seq![
                    diagnostic_row(
                        exporter,
                        "10"@,
                        0,
                        None,
                        None,
                        "decode-error:bad-ipfix-header"@,
                    ),
                ]
                &&& after == cache
            } else if verdict(data).kind == Some("truncated"@) {
                sets_of(after_header(data, 16)) is Some
            } else {
                &&& rows.len() == 1
                &&& rows[0].diagnostics == Some("bad-ipfix-set"@)
                &&& verdict(data).kind == Some("bad-ipfix-set"@)
                &&& after == cache
            }
        },
{
    reveal_strlit("truncated");
    reveal_strlit("set-length-overrun");
    reveal_strlit("bad-ipfix-set");
    assert("set-length-overrun"@.len() != "truncated"@.len());
    assert("bad-ipfix-set"@.len() != "truncated"@.len());
    match format_of(data) {
        Some(Format::V5) => {
            if data.len() >= 24 {
                let hdr = header_of(data)->0;
                let n = at16(data, 2) as nat;
                lemma_v5_rows_short(data.skip(24), n, exporter, hdr.obs_domain->0, hdr);
            }
        },
        Some(Format::V9) => {
            if data.len() >= 20 {
                lemma_unsound_sets(data.skip(20), "9"@, "set-length-overrun"@);
            }
        },
        Some(Format::Ipfix) => {
            if data.len() >= 16 && at16(data, 2) == data.len() {
                lemma_unsound_sets(data.skip(16), "10"@, "bad-ipfix-set"@);
                assert(data.subrange(16, data.len() as int) =~= data.skip(16));
            }
        },
        _ => {},
    }
}

} // verus!
