//! sFlow v5 (sflow.org / InMon): XDR-encoded packet-sampling datagrams.
//! Stateless (self-describing, no templates). Flow samples carry sampled packet
//! headers / parsed L3-L4; counter samples carry interface counters. Both are
//! normalized into the flow schema; sampled byte/packet counts are scaled by the
//! sampling rate (unscaled values preserved in `raw_fields`).

use vstd::prelude::*;
use vstd::slice::{slice_subrange, slice_to_vec};

use crate::buf::{after, at32, enc32, front16, front32, put32, read32, Cursor};
use crate::decode::header::agent_len;
use crate::decode::sets::one_row;
use crate::inet::{inet4, inet4_of, inet6, inet6_of, ipv4_text, ipv6_text, InetVal, InetView};
use crate::normalize::{blank_row, diagnostic_row, ipv4, ipv6, FlowRecord, FlowView};
use crate::num::{low16, low8};
use crate::text::{dec, opt_view, push_dec, views};

verus! {

broadcast use {crate::text::lemma_views_push, crate::text::lemma_views_add};

/// The 32-bit word at the front, or `dflt` where it is not there.
pub open spec fn word_or(s: Seq<u8>, dflt: u32) -> u32 {
    if s.len() >= 4 {
        front32(s)
    } else {
        dflt
    }
}

/// The 16-bit number at the front, or 0 where it is not there.
pub open spec fn half_or0(s: Seq<u8>) -> u16 {
    if s.len() >= 2 {
        front16(s)
    } else {
        0
    }
}

/// The byte at the front, or 0 where it is not there.
pub open spec fn byte_or0(s: Seq<u8>) -> u8 {
    if s.len() >= 1 {
        s[0]
    } else {
        0
    }
}

/// The IPv4 cell at the front, where four bytes are there.
pub open spec fn cell4(s: Seq<u8>) -> Option<InetView> {
    if s.len() >= 4 {
        inet4_of(s.take(4))
    } else {
        None
    }
}

/// The IPv6 cell at the front, where sixteen bytes are there.
pub open spec fn cell6(s: Seq<u8>) -> Option<InetView> {
    if s.len() >= 16 {
        inet6_of(s.take(16))
    } else {
        None
    }
}

/// The `i`th 32-bit word, where it is there.
pub open spec fn word_at(s: Seq<u8>, i: int) -> Option<u32> {
    if s.len() >= 4 * i + 4 {
        Some(at32(s, 4 * i))
    } else {
        None
    }
}

/// A row with byte and packet counts of one sampled frame, scaled by the sampling
/// rate, and the unscaled values among its raw fields.
pub open spec fn scaled(row: FlowView, frame_length: u32, rate: u32) -> FlowView {
    FlowView {
        bytes: Some((frame_length * rate) as u64),
        packets: Some(rate as u64),
        raw_fields: row.raw_fields.push(("sflow.frame_length"@, enc32(frame_length))).push(
            ("sflow.sampling_rate"@, enc32(rate)),
        ),
        ..row
    }
}

/// The row with the ports and flags of a transport header.
pub open spec fn with_l4(s: Seq<u8>, proto: u8, row: FlowView) -> FlowView {
    let s1 = after(s, 2);
    let s2 = after(s1, 2);
    if proto == 6 {
        FlowView {
            src_port: Some(half_or0(s)),
            dst_port: Some(half_or0(s1)),
            tcp_flags: Some(byte_or0(after(after(s2, 8), 1))),
            ..row
        }
    } else if proto == 17 {
        FlowView { src_port: Some(half_or0(s)), dst_port: Some(half_or0(s1)), ..row }
    } else {
        row
    }
}

/// The row with the addresses of an IPv4 header, and what follows it.
pub open spec fn with_ipv4(s: Seq<u8>, row: FlowView) -> FlowView {
    if s.len() < 2 {
        row
    } else {
        let ihl = (s[0] % 16) * 4;
        let tos = s[1];
        // Total length, id, flags and fragment offset, time to live.
        let p = after(after(after(after(s.skip(1).skip(1), 2), 2), 2), 1);
        let proto = byte_or0(p);
        // Checksum.
        let a = after(after(p, 1), 2);
        let d = after(a, 4);
        let end = after(d, 4);
        let l4 = if ihl > 20 {
            after(end, ihl - 20)
        } else {
            end
        };
        with_l4(
            l4,
            proto,
            FlowView {
                src_addr: cell4(a),
                dst_addr: cell4(d),
                protocol: Some(proto),
                tos: Some(tos),
                ..row
            },
        )
    }
}

/// The row with the addresses of an IPv6 header, and what follows it.
pub open spec fn with_ipv6(s: Seq<u8>, row: FlowView) -> FlowView {
    if s.len() < 4 {
        row
    } else {
        // Payload length.
        let p = after(s.skip(4), 2);
        let next_header = byte_or0(p);
        // Hop limit.
        let a = after(after(p, 1), 1);
        let d = after(a, 16);
        with_l4(
            after(d, 16),
            next_header,
            FlowView {
                src_addr: cell6(a),
                dst_addr: cell6(d),
                protocol: Some(next_header),
                ..row
            },
        )
    }
}

/// The row with what an Ethernet frame shows: destination, source and type, with
/// an optional 802.1Q tag, then IPv4 or IPv6.
pub open spec fn with_frame(h: Seq<u8>, row: FlowView) -> FlowView {
    if h.len() < 12 {
        row
    } else {
        let s = h.skip(12);
        let tagged = half_or0(s) == 0x8100;
        let t = if tagged {
            after(after(s, 2), 2)
        } else {
            s
        };
        let body = after(t, 2);
        if half_or0(t) == 0x0800 {
            with_ipv4(body, row)
        } else if half_or0(t) == 0x86dd {
            with_ipv6(body, row)
        } else {
            row
        }
    }
}

/// The row with a raw sampled packet header: protocol, frame length, stripped
/// bytes, header size, header.
pub open spec fn with_raw_header(b: Seq<u8>, row: FlowView, rate: u32) -> FlowView {
    let s1 = after(b, 4);
    let s3 = after(after(s1, 4), 4);
    let rest = after(s3, 4);
    let size = word_or(s3, 0) as int;
    let header = if size <= rest.len() {
        rest.take(size)
    } else {
        Seq::empty()
    };
    with_frame(header, scaled(row, word_or(s1, 0), rate))
}

/// The row with an already-parsed IPv4 5-tuple: length, protocol, source,
/// destination, ports, TCP flags, type of service.
pub open spec fn with_sampled_ipv4(b: Seq<u8>, row: FlowView, rate: u32) -> FlowView {
    let s1 = after(b, 4);
    let s2 = after(s1, 4);
    let s3 = after(s2, 4);
    let s4 = after(s3, 4);
    let s5 = after(s4, 4);
    let s6 = after(s5, 4);
    let s7 = after(s6, 4);
    scaled(
        FlowView {
            src_addr: cell4(s2),
            dst_addr: cell4(s3),
            protocol: Some((word_or(s1, 0) % 0x100) as u8),
            src_port: Some((word_or(s4, 0) % 0x1_0000) as u16),
            dst_port: Some((word_or(s5, 0) % 0x1_0000) as u16),
            tcp_flags: Some((word_or(s6, 0) % 0x100) as u8),
            tos: Some((word_or(s7, 0) % 0x100) as u8),
            ..row
        },
        word_or(b, 0),
        rate,
    )
}

/// The row with an already-parsed IPv6 5-tuple: length, protocol, source,
/// destination, ports, TCP flags, priority.
pub open spec fn with_sampled_ipv6(b: Seq<u8>, row: FlowView, rate: u32) -> FlowView {
    let s1 = after(b, 4);
    let s2 = after(s1, 4);
    let s3 = after(s2, 16);
    let s4 = after(s3, 16);
    let s5 = after(s4, 4);
    let s6 = after(s5, 4);
    scaled(
        FlowView {
            src_addr: cell6(s2),
            dst_addr: cell6(s3),
            protocol: Some((word_or(s1, 0) % 0x100) as u8),
            src_port: Some((word_or(s4, 0) % 0x1_0000) as u16),
            dst_port: Some((word_or(s5, 0) % 0x1_0000) as u16),
            tcp_flags: Some((word_or(s6, 0) % 0x100) as u8),
            ..row
        },
        word_or(b, 0),
        rate,
    )
}

/// The row with one flow record: the low 12 bits of its type are the format.
pub open spec fn with_flow_record(kind: u32, b: Seq<u8>, row: FlowView, rate: u32) -> FlowView {
    match kind % 0x1000 {
        1 => with_raw_header(b, row, rate),
        3 => with_sampled_ipv4(b, row, rate),
        4 => with_sampled_ipv6(b, row, rate),
        _ => row,
    }
}

/// Whether a record, type and length and as many bytes, is whole.
pub open spec fn whole_record(rest: Seq<u8>) -> bool {
    rest.len() >= 8 && at32(rest, 4) <= rest.len() - 8
}

/// The body of the record at the front.
pub open spec fn record_body(rest: Seq<u8>) -> Seq<u8> {
    rest.subrange(8, 8 + at32(rest, 4))
}

/// What follows the record at the front.
pub open spec fn after_record(rest: Seq<u8>) -> Seq<u8> {
    rest.skip(8 + at32(rest, 4))
}

/// The row with up to `n` flow records, as far as they are whole.
pub open spec fn with_flow_records(rest: Seq<u8>, n: nat, row: FlowView, rate: u32) -> FlowView
    decreases n,
{
    if n == 0 || !whole_record(rest) {
        row
    } else {
        with_flow_records(
            after_record(rest),
            (n - 1) as nat,
            with_flow_record(at32(rest, 0), record_body(rest), row, rate),
            rate,
        )
    }
}

/// The least of a count that may be missing and a cap.
pub open spec fn capped(n: Option<u32>, cap: u32) -> nat {
    match n {
        Some(v) => if v < cap {
            v as nat
        } else {
            cap as nat
        },
        None => 0,
    }
}

/// The row of a flow sample. The words before its records are the sample's
/// sequence number, the source id (two words if expanded), the sampling rate, the
/// sample pool, the drops, the input and the output (each after a format word if
/// expanded), and the number of records.
pub open spec fn flow_sample_row(
    body: Seq<u8>,
    exporter: Seq<char>,
    obs_domain: u32,
    sequence: u64,
    expanded: bool,
) -> FlowView {
    let (r, i, o, n) = if expanded {
        (3int, 7int, 9int, 10int)
    } else {
        (2int, 5int, 6int, 7int)
    };
    let rate = match word_at(body, r) {
        Some(v) => if v < 1 {
            1
        } else {
            v
        },
        None => 1u32,
    };
    let base = FlowView {
        exporter,
        flow_version: "sflow5"@,
        obs_domain,
        sequence: Some(sequence),
        sampling_rate: Some(rate),
        input_snmp: word_at(body, i),
        output_snmp: word_at(body, o),
        ..blank_row()
    };
    with_flow_records(
        after(body, 4 * n + 4),
        capped(word_at(body, n), 4096),
        base,
        rate,
    )
}

/// The name of a counter record's raw field.
pub open spec fn counter_name(kind: u32) -> Seq<char> {
    "sflow.counter_format_"@ + dec((kind % 0x1000) as nat)
}

/// The row with up to `n` counter records among its raw fields, as far as they
/// are whole.
pub open spec fn with_counter_records(rest: Seq<u8>, n: nat, row: FlowView) -> FlowView
    decreases n,
{
    if n == 0 || !whole_record(rest) {
        row
    } else {
        with_counter_records(
            after_record(rest),
            (n - 1) as nat,
            FlowView {
                raw_fields: row.raw_fields.push(
                    (counter_name(at32(rest, 0)), record_body(rest)),
                ),
                ..row
            },
        )
    }
}

/// The row of a counter sample. The words before its records are the sample's
/// sequence number, the source id (two words if expanded), and the number of
/// records.
pub open spec fn counter_sample_row(
    body: Seq<u8>,
    exporter: Seq<char>,
    obs_domain: u32,
    sequence: u64,
    expanded: bool,
) -> FlowView {
    let n = if expanded {
        3int
    } else {
        2int
    };
    let base = FlowView {
        exporter,
        flow_version: "sflow5"@,
        obs_domain,
        sequence: Some(sequence),
        diagnostics: Some("counter-sample"@),
        ..blank_row()
    };
    with_counter_records(after(body, 4 * n + 4), capped(word_at(body, n), 4096), base)
}

/// The rows of one sample: the low 12 bits of its type are the format.
pub open spec fn sample_rows(
    kind: u32,
    body: Seq<u8>,
    exporter: Seq<char>,
    obs_domain: u32,
    sequence: u64,
    flows_only: bool,
) -> Seq<FlowView> {
    match kind % 0x1000 {
        1 => seq![flow_sample_row(body, exporter, obs_domain, sequence, false)],
        3 => seq![flow_sample_row(body, exporter, obs_domain, sequence, true)],
        2 => if flows_only {
            Seq::empty()
        } else {
            seq![counter_sample_row(body, exporter, obs_domain, sequence, false)]
        },
        4 => if flows_only {
            Seq::empty()
        } else {
            seq![counter_sample_row(body, exporter, obs_domain, sequence, true)]
        },
        _ => Seq::empty(),
    }
}

/// The rows of `n` samples; one that is not there or not whole ends them with a
/// `truncated` row.
pub open spec fn samples_rows(
    rest: Seq<u8>,
    n: nat,
    exporter: Seq<char>,
    obs_domain: u32,
    sequence: u64,
    flows_only: bool,
) -> Seq<FlowView>
    decreases n,
{
    if n == 0 {
        Seq::empty()
    } else if !whole_record(rest) {
        seq![
            diagnostic_row(exporter, "sflow5"@, obs_domain, None, Some(sequence), "truncated"@),
        ]
    } else {
        sample_rows(
            at32(rest, 0),
            record_body(rest),
            exporter,
            obs_domain,
            sequence,
            flows_only,
        ) + samples_rows(
            after_record(rest),
            (n - 1) as nat,
            exporter,
            obs_domain,
            sequence,
            flows_only,
        )
    }
}

/// The text of the agent address in an sFlow header.
pub open spec fn agent_text(data: Seq<u8>) -> Seq<char> {
    if at32(data, 4) == 1 {
        ipv4_text(data.subrange(8, 12))
    } else {
        ipv6_text(data.subrange(8, 24))
    }
}

/// The rows of an sFlow datagram. The agent address stands in for an exporter
/// that was not given.
pub open spec fn sflow_outcome(data: Seq<u8>, exporter: Seq<char>, flows_only: bool) -> Seq<
    FlowView,
> {
    let n = agent_len(data);
    if data.len() < 8 || at32(data, 0) != 5 || (at32(data, 4) != 1 && at32(data, 4) != 2)
        || data.len() < 8 + n + 16 {
        seq![
            diagnostic_row(exporter, "sflow5"@, 0, None, None, "decode-error:bad-sflow-header"@),
        ]
    } else {
        let id = if exporter.len() == 0 {
            agent_text(data)
        } else {
            exporter
        };
        samples_rows(
            data.skip(8 + n + 16),
            capped(Some(at32(data, 8 + n + 12)), 65_536),
            id,
            at32(data, 8 + n),
            at32(data, 8 + n + 4) as u64,
            flows_only,
        )
    }
}

/// The low 12 bits, in which sFlow keeps a format.
fn format_bits(kind: u32) -> (r: u32)
    ensures
        r == kind % 0x1000,
{
    assert(kind & 0x0fff == kind % 0x1000) by (bit_vector);
    kind & 0x0fff
}

/// The next word, or `dflt` where it is not there.
fn next_word(c: &mut Cursor, dflt: u32) -> (r: u32)
    requires
        old(c).wf(),
    ensures
        final(c).wf(),
        final(c)@ == after(old(c)@, 4),
        r == word_or(old(c)@, dflt),
{
    match c.u32() {
        Some(v) => v,
        None => dflt,
    }
}

/// The next 16-bit number, or 0 where it is not there.
fn next_half(c: &mut Cursor) -> (r: u16)
    requires
        old(c).wf(),
    ensures
        final(c).wf(),
        final(c)@ == after(old(c)@, 2),
        r == half_or0(old(c)@),
{
    match c.u16() {
        Some(v) => v,
        None => 0,
    }
}

/// The next byte, or 0 where it is not there.
fn next_byte(c: &mut Cursor) -> (r: u8)
    requires
        old(c).wf(),
    ensures
        final(c).wf(),
        final(c)@ == after(old(c)@, 1),
        r == byte_or0(old(c)@),
{
    match c.u8() {
        Some(v) => v,
        None => 0,
    }
}

/// The next four bytes as an IPv4 cell, where they are there.
fn next_cell4(c: &mut Cursor) -> (r: Option<InetVal>)
    requires
        old(c).wf(),
    ensures
        final(c).wf(),
        final(c)@ == after(old(c)@, 4),
        opt_view(r) == cell4(old(c)@),
{
    match c.take(4) {
        Some(b) => inet4(b),
        None => None,
    }
}

/// The next sixteen bytes as an IPv6 cell, where they are there.
fn next_cell6(c: &mut Cursor) -> (r: Option<InetVal>)
    requires
        old(c).wf(),
    ensures
        final(c).wf(),
        final(c)@ == after(old(c)@, 16),
        opt_view(r) == cell6(old(c)@),
{
    match c.take(16) {
        Some(b) => inet6(b),
        None => None,
    }
}

/// The `i`th 32-bit word, where it is there.
fn read_word(b: &[u8], i: usize) -> (r: Option<u32>)
    requires
        i <= 16,
    ensures
        r == word_at(b@, i as int),
{
    if b.len() >= 4 * i + 4 {
        Some(read32(b, 4 * i))
    } else {
        None
    }
}

/// The least of a count that may be missing and a cap.
fn cap_count(n: Option<u32>, cap: u32) -> (r: u32)
    ensures
        r == capped(n, cap),
{
    match n {
        Some(v) => if v < cap {
            v
        } else {
            cap
        },
        None => 0,
    }
}

/// What follows `n` bytes, or the whole where there are not so many.
fn drop_bytes<'a>(b: &'a [u8], n: usize) -> (r: &'a [u8])
    ensures
        r@ == after(b@, n as int),
{
    if n <= b.len() {
        let r = slice_subrange(b, n, b.len());
        assert(r@ =~= b@.skip(n as int));
        r
    } else {
        b
    }
}

/// The record at the front, its type, its body and what follows it, where it is
/// whole.
fn split_record<'a>(rest: &'a [u8]) -> (r: Option<(u32, &'a [u8], &'a [u8])>)
    ensures
        r is Some <==> whole_record(rest@),
        r matches Some((kind, body, tail)) ==> {
            &&& kind == at32(rest@, 0)
            &&& body@ == record_body(rest@)
            &&& tail@ == after_record(rest@)
        },
{
    if rest.len() < 8 {
        return None;
    }
    let kind: u32 = read32(rest, 0);
    let len: usize = read32(rest, 4) as usize;
    if len > rest.len() - 8 {
        return None;
    }
    let body = slice_subrange(rest, 8, 8 + len);
    let tail = slice_subrange(rest, 8 + len, rest.len());
    assert(tail@ =~= after_record(rest@));
    Some((kind, body, tail))
}

/// Decode an sFlow v5 datagram into normalized rows. `mode_flows_only` drops
/// counter samples (which have no 5-tuple). Never panics.
pub fn decode(data: &[u8], exporter: &str, mode_flows_only: bool) -> (r: Vec<FlowRecord>)
    ensures
        views(r@) == sflow_outcome(data@, exporter@, mode_flows_only),
{
    if data.len() < 8 || read32(data, 0) != 5 {
        return bad_header(exporter);
    }
    let addr_type: u32 = read32(data, 4);
    let n: usize = if addr_type == 1 {
        4
    } else if addr_type == 2 {
        16
    } else {
        return bad_header(exporter);
    };
    if data.len() < 8 + n + 16 {
        return bad_header(exporter);
    }
    let agent_bytes = slice_subrange(data, 8, 8 + n);
    let agent = if addr_type == 1 {
        ipv4(agent_bytes)
    } else {
        ipv6(agent_bytes)
    };
    let exporter_id = if exporter.is_empty() {
        match agent {
            Some(a) => a,
            None => String::new(),
        }
    } else {
        exporter.to_string()
    };
    proof {
        lemma_empty_text(exporter@);
    }
    let sub_agent_id: u32 = read32(data, 8 + n);
    let sequence: u64 = read32(data, 8 + n + 4) as u64;
    let num_samples: u32 = read32(data, 8 + n + 12);
    let count: u32 = cap_count(Some(num_samples), 65_536);
    let rest = slice_subrange(data, 8 + n + 16, data.len());
    assert(rest@ =~= data@.skip(8 + n + 16));
    decode_samples(rest, count, exporter_id.as_str(), sub_agent_id, sequence, mode_flows_only)
}

/// Decode `count` samples.
fn decode_samples(
    samples: &[u8],
    count: u32,
    exporter: &str,
    obs_domain: u32,
    sequence: u64,
    mode_flows_only: bool,
) -> (r: Vec<FlowRecord>)
    ensures
        views(r@) == samples_rows(
            samples@,
            count as nat,
            exporter@,
            obs_domain,
            sequence,
            mode_flows_only,
        ),
{
    let ghost want = samples_rows(
        samples@,
        count as nat,
        exporter@,
        obs_domain,
        sequence,
        mode_flows_only,
    );
    let mut rest = samples;
    let mut out: Vec<FlowRecord> = Vec::new();
    let mut i: u32 = 0;
    assert(views(out@) + want =~= want);
    while i < count
        invariant
            i <= count,
            want == samples_rows(
                samples@,
                count as nat,
                exporter@,
                obs_domain,
                sequence,
                mode_flows_only,
            ),
            views(out@) + samples_rows(
                rest@,
                (count - i) as nat,
                exporter@,
                obs_domain,
                sequence,
                mode_flows_only,
            ) == want,
        decreases count - i,
    {
        let ghost before = views(out@);
        let (kind, body, tail) = match split_record(rest) {
            Some(t) => t,
            None => {
                out.push(
                    FlowRecord::diagnostic(
                        exporter,
                        "sflow5",
                        obs_domain,
                        None,
                        Some(sequence),
                        "truncated".to_string(),
                    ),
                );
                assert(views(out@) =~= want);
                return out;
            },
        };
        let mut rows = decode_sample(
            kind,
            body,
            exporter,
            obs_domain,
            sequence,
            mode_flows_only,
        );
        let ghost now = views(rows@);
        out.append(&mut rows);
        rest = tail;
        i = i + 1;
        proof {
            let later = samples_rows(
                rest@,
                (count - i) as nat,
                exporter@,
                obs_domain,
                sequence,
                mode_flows_only,
            );
            assert(before + now + later =~= before + (now + later));
        }
    }
    assert(views(out@) + Seq::<FlowView>::empty() =~= views(out@));
    out
}

/// Decode one sample.
fn decode_sample(
    kind: u32,
    body: &[u8],
    exporter: &str,
    obs_domain: u32,
    sequence: u64,
    mode_flows_only: bool,
) -> (r: Vec<FlowRecord>)
    ensures
        views(r@) == sample_rows(kind, body@, exporter@, obs_domain, sequence, mode_flows_only),
{
    let format: u32 = format_bits(kind);
    if format == 1 || format == 3 {
        one_row(decode_flow_sample(body, exporter, obs_domain, sequence, format == 3))
    } else if (format == 2 || format == 4) && !mode_flows_only {
        one_row(decode_counter_sample(body, exporter, obs_domain, sequence, format == 4))
    } else {
        let none: Vec<FlowRecord> = Vec::new();
        assert(views(none@) =~= Seq::<FlowView>::empty());
        none
    }
}

/// A string is empty when it has no bytes.
proof fn lemma_empty_text(s: Seq<char>)
    ensures
        vstd::utf8::encode_utf8(s).len() == 0 <==> s.len() == 0,
{
    if s.len() > 0 && vstd::utf8::encode_utf8(s).len() == 0 {
        assert(vstd::utf8::encode_utf8(s) =~= vstd::utf8::encode_utf8(Seq::<char>::empty()));
        crate::text::lemma_utf8_injective(s, Seq::<char>::empty());
    }
}

fn bad_header(exporter: &str) -> (r: Vec<FlowRecord>)
    ensures
        views(r@) == seq![
            diagnostic_row(exporter@, "sflow5"@, 0, None, None, "decode-error:bad-sflow-header"@),
        ],
{
    one_row(
        FlowRecord::diagnostic(
            exporter,
            "sflow5",
            0,
            None,
            None,
            "decode-error:bad-sflow-header".to_string(),
        ),
    )
}

fn decode_flow_sample(
    body: &[u8],
    exporter: &str,
    obs_domain: u32,
    sequence: u64,
    expanded: bool,
) -> (r: FlowRecord)
    ensures
        r@ == flow_sample_row(body@, exporter@, obs_domain, sequence, expanded),
{
    let (ri, ii, oi, ni): (usize, usize, usize, usize) = if expanded {
        (3, 7, 9, 10)
    } else {
        (2, 5, 6, 7)
    };
    let rate: u32 = match read_word(body, ri) {
        Some(v) => if v < 1 {
            1
        } else {
            v
        },
        None => 1,
    };
    let num_records: u32 = cap_count(read_word(body, ni), 4096);
    let mut base = FlowRecord::blank();
    base.exporter = exporter.to_string();
    base.flow_version = "sflow5".to_string();
    base.obs_domain = obs_domain;
    base.sequence = Some(sequence);
    base.sampling_rate = Some(rate);
    base.input_snmp = read_word(body, ii);
    base.output_snmp = read_word(body, oi);
    let mut rest = drop_bytes(body, 4 * ni + 4);
    let ghost want = with_flow_records(rest@, num_records as nat, base@, rate);
    let mut i: u32 = 0;
    while i < num_records
        invariant
            i <= num_records,
            want == flow_sample_row(body@, exporter@, obs_domain, sequence, expanded),
            with_flow_records(rest@, (num_records - i) as nat, base@, rate) == want,
        decreases num_records - i,
    {
        let (kind, rbody, tail) = match split_record(rest) {
            Some(t) => t,
            None => {
                return base;
            },
        };
        let format: u32 = format_bits(kind);
        if format == 1 {
            parse_raw_header(rbody, &mut base, rate);
        } else if format == 3 {
            parse_sampled_ipv4(rbody, &mut base, rate);
        } else if format == 4 {
            parse_sampled_ipv6(rbody, &mut base, rate);
        }
        rest = tail;
        i = i + 1;
    }
    base
}

/// sFlow `sampled_ipv4` (format 3): an already-parsed IPv4 5-tuple.
fn parse_sampled_ipv4(b: &[u8], rec: &mut FlowRecord, rate: u32)
    ensures
        final(rec)@ == with_sampled_ipv4(b@, old(rec)@, rate),
{
    let mut c = Cursor::new(b);
    let length: u32 = next_word(&mut c, 0);
    let protocol: u32 = next_word(&mut c, 0);
    let src = next_cell4(&mut c);
    let dst = next_cell4(&mut c);
    let src_port: u32 = next_word(&mut c, 0);
    let dst_port: u32 = next_word(&mut c, 0);
    let tcp_flags: u32 = next_word(&mut c, 0);
    let tos: u32 = next_word(&mut c, 0);
    rec.src_addr = src;
    rec.dst_addr = dst;
    rec.protocol = Some(low8(protocol as u64));
    rec.src_port = Some(low16(src_port as u64));
    rec.dst_port = Some(low16(dst_port as u64));
    rec.tcp_flags = Some(low8(tcp_flags as u64));
    rec.tos = Some(low8(tos as u64));
    scale_counts(rec, length, rate);
}

/// sFlow `sampled_ipv6` (format 4).
fn parse_sampled_ipv6(b: &[u8], rec: &mut FlowRecord, rate: u32)
    ensures
        final(rec)@ == with_sampled_ipv6(b@, old(rec)@, rate),
{
    let mut c = Cursor::new(b);
    let length: u32 = next_word(&mut c, 0);
    let protocol: u32 = next_word(&mut c, 0);
    let src = next_cell6(&mut c);
    let dst = next_cell6(&mut c);
    let src_port: u32 = next_word(&mut c, 0);
    let dst_port: u32 = next_word(&mut c, 0);
    let tcp_flags: u32 = next_word(&mut c, 0);
    rec.src_addr = src;
    rec.dst_addr = dst;
    rec.protocol = Some(low8(protocol as u64));
    rec.src_port = Some(low16(src_port as u64));
    rec.dst_port = Some(low16(dst_port as u64));
    rec.tcp_flags = Some(low8(tcp_flags as u64));
    scale_counts(rec, length, rate);
}

/// sFlow `sampled_header` (format 1): a raw sampled packet header. The Ethernet,
/// IPv4/IPv6, TCP/UDP chain is parsed best-effort for the 5-tuple.
fn parse_raw_header(b: &[u8], rec: &mut FlowRecord, rate: u32)
    ensures
        final(rec)@ == with_raw_header(b@, old(rec)@, rate),
{
    let mut c = Cursor::new(b);
    let _protocol: u32 = next_word(&mut c, 0);
    let frame_length: u32 = next_word(&mut c, 0);
    let _stripped: u32 = next_word(&mut c, 0);
    let header_size: usize = next_word(&mut c, 0) as usize;
    scale_counts(rec, frame_length, rate);
    match c.take(header_size) {
        Some(header) => {
            parse_l2(header, rec);
        },
        None => {},
    }
}

/// Minimal Ethernet/IPv4/IPv6/TCP/UDP parse over a sampled header.
fn parse_l2(h: &[u8], rec: &mut FlowRecord)
    ensures
        final(rec)@ == with_frame(h@, old(rec)@),
{
    let mut c = Cursor::new(h);
    // Ethernet II: dst(6) src(6) ethertype(2), with optional 802.1Q tag.
    if c.skip(12) {
        let mut ethertype: u16 = next_half(&mut c);
        if ethertype == 0x8100 {
            c.skip(2);
            ethertype = next_half(&mut c);
        }
        if ethertype == 0x0800 {
            parse_ipv4(&mut c, rec);
        } else if ethertype == 0x86dd {
            parse_ipv6(&mut c, rec);
        }
    }
}

fn parse_ipv4(c: &mut Cursor, rec: &mut FlowRecord)
    requires
        old(c).wf(),
    ensures
        final(c).wf(),
        final(rec)@ == with_ipv4(old(c)@, old(rec)@),
{
    let vihl: u8 = match c.u8() {
        Some(v) => v,
        None => {
            return;
        },
    };
    assert(vihl & 0x0f == vihl % 16) by (bit_vector);
    let ihl: usize = (vihl & 0x0f) as usize * 4;
    let tos: u8 = match c.u8() {
        Some(v) => v,
        None => {
            return;
        },
    };
    c.skip(2);
    c.skip(2);
    c.skip(2);
    c.skip(1);
    let proto: u8 = next_byte(c);
    c.skip(2);
    rec.src_addr = next_cell4(c);
    rec.dst_addr = next_cell4(c);
    rec.protocol = Some(proto);
    rec.tos = Some(tos);
    // Skip any IPv4 options to reach L4 (header is `ihl` bytes from its start).
    if ihl > 20 {
        c.skip(ihl - 20);
    }
    parse_l4(c, proto, rec);
}

fn parse_ipv6(c: &mut Cursor, rec: &mut FlowRecord)
    requires
        old(c).wf(),
    ensures
        final(c).wf(),
        final(rec)@ == with_ipv6(old(c)@, old(rec)@),
{
    // Version, traffic class and flow label.
    if c.u32().is_none() {
        return;
    }
    c.skip(2);
    let next_header: u8 = next_byte(c);
    c.skip(1);
    rec.src_addr = next_cell6(c);
    rec.dst_addr = next_cell6(c);
    rec.protocol = Some(next_header);
    parse_l4(c, next_header, rec);
}

fn parse_l4(c: &mut Cursor, proto: u8, rec: &mut FlowRecord)
    requires
        old(c).wf(),
    ensures
        final(c).wf(),
        final(rec)@ == with_l4(old(c)@, proto, old(rec)@),
{
    if proto == 6 {
        // TCP: src_port(2) dst_port(2) seq(4) ack(4) offset/flags
        let sp: u16 = next_half(c);
        let dp: u16 = next_half(c);
        c.skip(8);
        let _data_off: u8 = next_byte(c);
        let flags: u8 = next_byte(c);
        rec.src_port = Some(sp);
        rec.dst_port = Some(dp);
        rec.tcp_flags = Some(flags);
    } else if proto == 17 {
        let sp: u16 = next_half(c);
        let dp: u16 = next_half(c);
        rec.src_port = Some(sp);
        rec.dst_port = Some(dp);
    }
}

/// Four bytes that denote a number, most significant first.
fn to_be_bytes(v: u32) -> (r: Vec<u8>)
    ensures
        r@ == enc32(v),
{
    let mut r: Vec<u8> = Vec::new();
    put32(&mut r, v);
    assert(r@ =~= enc32(v));
    r
}

/// Scale a sampled frame length by the sampling rate, preserving the unscaled
/// value in `raw_fields`.
fn scale_counts(rec: &mut FlowRecord, frame_length: u32, rate: u32)
    ensures
        final(rec)@ == scaled(old(rec)@, frame_length, rate),
{
    assert(frame_length * rate <= u64::MAX) by (nonlinear_arith);
    rec.bytes = Some(frame_length as u64 * rate as u64);
    rec.packets = Some(rate as u64);
    rec.put_raw("sflow.frame_length".to_string(), to_be_bytes(frame_length));
    rec.put_raw("sflow.sampling_rate".to_string(), to_be_bytes(rate));
}

fn decode_counter_sample(
    body: &[u8],
    exporter: &str,
    obs_domain: u32,
    sequence: u64,
    expanded: bool,
) -> (r: FlowRecord)
    ensures
        r@ == counter_sample_row(body@, exporter@, obs_domain, sequence, expanded),
{
    let ni: usize = if expanded {
        3
    } else {
        2
    };
    let num_records: u32 = cap_count(read_word(body, ni), 4096);
    let mut rec = FlowRecord::blank();
    rec.exporter = exporter.to_string();
    rec.flow_version = "sflow5".to_string();
    rec.obs_domain = obs_domain;
    rec.sequence = Some(sequence);
    rec.note("counter-sample");
    let mut rest = drop_bytes(body, 4 * ni + 4);
    let ghost want = with_counter_records(rest@, num_records as nat, rec@);
    let mut i: u32 = 0;
    while i < num_records
        invariant
            i <= num_records,
            want == counter_sample_row(body@, exporter@, obs_domain, sequence, expanded),
            with_counter_records(rest@, (num_records - i) as nat, rec@) == want,
        decreases num_records - i,
    {
        let (kind, rbody, tail) = match split_record(rest) {
            Some(t) => t,
            None => {
                return rec;
            },
        };
        let mut name = "sflow.counter_format_".to_string();
        push_dec(&mut name, format_bits(kind) as u64);
        rec.put_raw(name, slice_to_vec(rbody));
        rest = tail;
        i = i + 1;
    }
    rec
}

} // verus!
