//! NetFlow v5 on the wire.

use vstd::prelude::*;

use crate::buf::{at16, at32};
use crate::cache::CacheView;
use crate::decode::header::{format_of, header_of, ExportHeader, Format};
use crate::decode::v5::{v5_outcome, v5_row, v5_rows};
use crate::decode::{datagram_outcome, OptionsView, Restrict};
use crate::laws::wire::{
    bare_row, host4, lemma_at16, lemma_at32, lemma_host4, lemma_inside, w16, w32,
};
use crate::normalize::FlowView;

verus! {

/// What a v5 header says.
pub struct V5Header {
    /// Milliseconds since the device booted.
    pub sys_uptime: u32,
    /// Seconds since 1970.
    pub unix_secs: u32,
    /// Nanoseconds beyond them.
    pub unix_nsecs: u32,
    pub sequence: u32,
    pub engine_type: u8,
    pub engine_id: u8,
    pub sampling: u16,
}

/// What a v5 record says of a flow.
pub struct V5Flow {
    pub src: u32,
    pub dst: u32,
    pub next_hop: u32,
    pub input: u16,
    pub output: u16,
    pub packets: u32,
    pub octets: u32,
    /// Milliseconds from the boot to the first packet.
    pub first: u32,
    /// Milliseconds from the boot to the last packet.
    pub last: u32,
    pub src_port: u16,
    pub dst_port: u16,
    pub pad1: u8,
    pub tcp_flags: u8,
    pub protocol: u8,
    pub tos: u8,
    pub src_as: u16,
    pub dst_as: u16,
    pub src_mask: u8,
    pub dst_mask: u8,
    pub pad2: u16,
}

/// The 24 bytes of a v5 header over `count` records.
pub open spec fn v5_header_bytes(h: V5Header, count: u16) -> Seq<u8> {
    w16(5) + w16(count) + w32(h.sys_uptime) + w32(h.unix_secs) + w32(h.unix_nsecs) + w32(h.sequence)
        + seq![h.engine_type, h.engine_id] + w16(h.sampling)
}

/// Where a v5 flow goes: source, destination and next hop, and the interfaces.
spec fn v5_path_bytes(f: V5Flow) -> Seq<u8> {
    w32(f.src) + w32(f.dst) + w32(f.next_hop) + w16(f.input) + w16(f.output)
}

/// How much a v5 flow is: packets, octets, and the first and last stamp.
spec fn v5_count_bytes(f: V5Flow) -> Seq<u8> {
    w32(f.packets) + w32(f.octets) + w32(f.first) + w32(f.last)
}

/// What a v5 flow is: ports, flags, protocol, service, systems and masks.
spec fn v5_kind_bytes(f: V5Flow) -> Seq<u8> {
    w16(f.src_port) + w16(f.dst_port) + seq![f.pad1, f.tcp_flags, f.protocol, f.tos] + w16(f.src_as)
        + w16(f.dst_as) + seq![f.src_mask, f.dst_mask] + w16(f.pad2)
}

/// The 48 bytes of a v5 record.
pub open spec fn v5_flow_bytes(f: V5Flow) -> Seq<u8> {
    w32(f.src) + w32(f.dst) + w32(f.next_hop) + w16(f.input) + w16(f.output) + (w32(f.packets)
        + w32(f.octets) + w32(f.first) + w32(f.last)) + (w16(f.src_port) + w16(f.dst_port) + seq![
        f.pad1,
        f.tcp_flags,
        f.protocol,
        f.tos,
    ] + w16(f.src_as) + w16(f.dst_as) + seq![f.src_mask, f.dst_mask] + w16(f.pad2))
}

/// The bytes of v5 records, one after another.
pub open spec fn v5_flows_bytes(flows: Seq<V5Flow>) -> Seq<u8>
    decreases flows.len(),
{
    if flows.len() == 0 {
        Seq::empty()
    } else {
        v5_flow_bytes(flows[0]) + v5_flows_bytes(flows.drop_first())
    }
}

/// The export time of a v5 header in microseconds: nanoseconds are cut off.
pub open spec fn v5_export_time(h: V5Header) -> int {
    h.unix_secs * 1_000_000 + h.unix_nsecs as int / 1_000
}

/// The row that tells of a v5 flow: every value in its column, the two stamps counted
/// from the boot, which was `sys_uptime` milliseconds before the export.
pub open spec fn v5_flow_row(exporter: Seq<char>, h: V5Header, f: V5Flow) -> FlowView {
    FlowView {
        exporter,
        flow_version: "5"@,
        obs_domain: h.engine_id as u32,
        template_id: None,
        export_time: Some(v5_export_time(h) as i64),
        sequence: Some(h.sequence as u64),
        src_addr: Some(host4(f.src)),
        dst_addr: Some(host4(f.dst)),
        src_port: Some(f.src_port),
        dst_port: Some(f.dst_port),
        protocol: Some(f.protocol),
        tcp_flags: Some(f.tcp_flags),
        bytes: Some(f.octets as u64),
        packets: Some(f.packets as u64),
        flow_start: Some((v5_export_time(h) - h.sys_uptime * 1_000 + f.first * 1_000) as i64),
        flow_end: Some((v5_export_time(h) - h.sys_uptime * 1_000 + f.last * 1_000) as i64),
        src_as: Some(f.src_as as u32),
        dst_as: Some(f.dst_as as u32),
        input_snmp: Some(f.input as u32),
        output_snmp: Some(f.output as u32),
        next_hop: Some(host4(f.next_hop)),
        tos: Some(f.tos),
        src_mask: Some(f.src_mask),
        dst_mask: Some(f.dst_mask),
        sampling_rate: None,
        direction: None,
        raw_fields: Seq::empty(),
        diagnostics: None,
    }
}

/// A v5 header reads back, whatever follows it.
pub proof fn lemma_v5_header_reads_back(h: V5Header, count: u16, rest: Seq<u8>)
    ensures
        format_of(v5_header_bytes(h, count) + rest) == Some(Format::V5),
        header_of(v5_header_bytes(h, count) + rest) == Some(
            ExportHeader {
                version: 5,
                count: Some(count),
                sys_uptime: Some(h.sys_uptime),
                export_time: Some(v5_export_time(h) as i64),
                sequence: Some(h.sequence as u64),
                obs_domain: Some(h.engine_id as u32),
            },
        ),
        (v5_header_bytes(h, count) + rest).skip(24) == rest,
{
    let s = v5_header_bytes(h, count) + rest;
    lemma_at16(s, 0, 5);
    lemma_at16(s, 2, count);
    lemma_at32(s, 4, h.sys_uptime);
    lemma_at32(s, 8, h.unix_secs);
    lemma_at32(s, 12, h.unix_nsecs);
    lemma_at32(s, 16, h.sequence);
    assert(s[21] == h.engine_id);
    assert(s.skip(24) =~= rest);
}

/// Where a v5 flow goes reads back.
proof fn lemma_v5_path(f: V5Flow)
    ensures
        ({
            let b = v5_path_bytes(f);
            &&& b.len() == 16
            &&& b.subrange(0, 4) == w32(f.src)
            &&& b.subrange(4, 8) == w32(f.dst)
            &&& b.subrange(8, 12) == w32(f.next_hop)
            &&& at16(b, 12) == f.input
            &&& at16(b, 14) == f.output
        }),
{
    let b = v5_path_bytes(f);
    lemma_at32(b, 0, f.src);
    lemma_at32(b, 4, f.dst);
    lemma_at32(b, 8, f.next_hop);
    lemma_at16(b, 12, f.input);
    lemma_at16(b, 14, f.output);
}

/// How much a v5 flow is reads back.
proof fn lemma_v5_counts(f: V5Flow)
    ensures
        ({
            let b = v5_count_bytes(f);
            &&& b.len() == 16
            &&& at32(b, 0) == f.packets
            &&& at32(b, 4) == f.octets
            &&& at32(b, 8) == f.first
            &&& at32(b, 12) == f.last
        }),
{
    let b = v5_count_bytes(f);
    lemma_at32(b, 0, f.packets);
    lemma_at32(b, 4, f.octets);
    lemma_at32(b, 8, f.first);
    lemma_at32(b, 12, f.last);
}

/// What a v5 flow is reads back.
proof fn lemma_v5_kind(f: V5Flow)
    ensures
        ({
            let b = v5_kind_bytes(f);
            &&& b.len() == 16
            &&& at16(b, 0) == f.src_port
            &&& at16(b, 2) == f.dst_port
            &&& b[5] == f.tcp_flags
            &&& b[6] == f.protocol
            &&& b[7] == f.tos
            &&& at16(b, 8) == f.src_as
            &&& at16(b, 10) == f.dst_as
            &&& b[12] == f.src_mask
            &&& b[13] == f.dst_mask
        }),
{
    let b = v5_kind_bytes(f);
    lemma_at16(b, 0, f.src_port);
    lemma_at16(b, 2, f.dst_port);
    lemma_at16(b, 8, f.src_as);
    lemma_at16(b, 10, f.dst_as);
}

/// The row of a record's bytes holds the values that were written.
#[verifier::rlimit(40)]
proof fn lemma_v5_row(f: V5Flow, exporter: Seq<char>, h: V5Header, hdr: ExportHeader)
    requires
        hdr.sys_uptime == Some(h.sys_uptime),
        hdr.export_time == Some(v5_export_time(h) as i64),
        hdr.sequence == Some(h.sequence as u64),
    ensures
        v5_flow_bytes(f).len() == 48,
        v5_row(v5_flow_bytes(f), exporter, h.engine_id as u32, hdr) == v5_flow_row(exporter, h, f),
{
    let b = v5_flow_bytes(f);
    let (p, c, k) = (v5_path_bytes(f), v5_count_bytes(f), v5_kind_bytes(f));
    lemma_v5_path(f);
    lemma_v5_counts(f);
    lemma_v5_kind(f);
    assert(b == p + c + k);
    assert(b.subrange(0, 16) =~= p);
    assert(b.subrange(16, 32) =~= c);
    assert(b.subrange(32, 48) =~= k);
    lemma_inside(b, 0, p, 0);
    lemma_inside(b, 0, p, 4);
    lemma_inside(b, 0, p, 8);
    lemma_inside(b, 0, p, 12);
    lemma_inside(b, 0, p, 14);
    lemma_inside(b, 16, c, 0);
    lemma_inside(b, 16, c, 4);
    lemma_inside(b, 16, c, 8);
    lemma_inside(b, 16, c, 12);
    lemma_inside(b, 32, k, 0);
    lemma_inside(b, 32, k, 2);
    lemma_inside(b, 32, k, 5);
    lemma_inside(b, 32, k, 6);
    lemma_inside(b, 32, k, 7);
    lemma_inside(b, 32, k, 8);
    lemma_inside(b, 32, k, 10);
    lemma_inside(b, 32, k, 12);
    lemma_inside(b, 32, k, 13);
    lemma_host4(f.src);
    lemma_host4(f.dst);
    lemma_host4(f.next_hop);
    assert(v5_row(b, exporter, h.engine_id as u32, hdr) =~= v5_flow_row(exporter, h, f));
}

/// What stands where a flow was declared and is not there.
pub open spec fn v5_missing(missing: bool, exporter: Seq<char>, h: V5Header) -> Seq<FlowView> {
    if missing {
        seq![
            bare_row(
                exporter,
                "5"@,
                h.engine_id as u32,
                Some(v5_export_time(h) as i64),
                Some(h.sequence as u64),
                Some("truncated"@),
            ),
        ]
    } else {
        Seq::empty()
    }
}

/// One flow, then the others.
proof fn lemma_v5_step(
    s: Seq<u8>,
    f: V5Flow,
    more: Seq<u8>,
    count: nat,
    exporter: Seq<char>,
    h: V5Header,
    hdr: ExportHeader,
)
    requires
        count > 0,
        s == v5_flow_bytes(f) + more,
        hdr.sys_uptime == Some(h.sys_uptime),
        hdr.export_time == Some(v5_export_time(h) as i64),
        hdr.sequence == Some(h.sequence as u64),
    ensures
        v5_rows(s, count, exporter, h.engine_id as u32, hdr) == seq![v5_flow_row(exporter, h, f)]
            + v5_rows(more, (count - 1) as nat, exporter, h.engine_id as u32, hdr),
{
    let first = v5_flow_bytes(f);
    let domain = h.engine_id as u32;
    assert(v5_row(first, exporter, domain, hdr) == v5_flow_row(exporter, h, f) && first.len()
        == 48) by {
        lemma_v5_row(f, exporter, h, hdr);
    }
    assert(s.take(48) =~= first);
    assert(s.skip(48) =~= more);
}

/// The flows of a datagram read back, one after another.
#[verifier::rlimit(40)]
proof fn lemma_v5_flows(
    flows: Seq<V5Flow>,
    rest: Seq<u8>,
    count: nat,
    exporter: Seq<char>,
    h: V5Header,
    hdr: ExportHeader,
)
    requires
        flows.len() <= count,
        flows.len() < count ==> rest.len() < 48,
        hdr.sys_uptime == Some(h.sys_uptime),
        hdr.export_time == Some(v5_export_time(h) as i64),
        hdr.sequence == Some(h.sequence as u64),
    ensures
        v5_rows(
            v5_flows_bytes(flows) + rest,
            count,
            exporter,
            h.engine_id as u32,
            hdr,
        ) == Seq::new(flows.len(), |i: int| v5_flow_row(exporter, h, flows[i])) + v5_missing(
            flows.len() < count,
            exporter,
            h,
        ),
    decreases flows.len(),
{
    let want = Seq::new(flows.len(), |i: int| v5_flow_row(exporter, h, flows[i]));
    let last = v5_missing(flows.len() < count, exporter, h);
    let s = v5_flows_bytes(flows) + rest;
    if flows.len() == 0 {
        assert(s =~= rest);
        assert(want + last =~= last);
    } else {
        let tail = flows.drop_first();
        let others = Seq::new(tail.len(), |i: int| v5_flow_row(exporter, h, tail[i]));
        let one = seq![v5_flow_row(exporter, h, flows[0])];
        let more = v5_flows_bytes(tail) + rest;
        let domain = h.engine_id as u32;
        assert(v5_rows(s, count, exporter, domain, hdr) == one + v5_rows(
            more,
            (count - 1) as nat,
            exporter,
            domain,
            hdr,
        )) by {
            assert(s =~= v5_flow_bytes(flows[0]) + more);
            lemma_v5_step(s, flows[0], more, count, exporter, h, hdr);
        }
        lemma_v5_flows(tail, rest, (count - 1) as nat, exporter, h, hdr);
        assert(one + others =~= want);
        assert(one + (others + last) =~= (one + others) + last);
    }
}

/// A whole v5 datagram reads back: one row per flow, in order, each value in its column.
/// Where more flows are declared than are there, one row at the end says so. Nothing is
/// learned from it.
#[verifier::rlimit(40)]
pub proof fn lemma_v5_reads_back(
    h: V5Header,
    flows: Seq<V5Flow>,
    count: u16,
    rest: Seq<u8>,
    opts: OptionsView,
    cache: CacheView,
    restrict: Restrict,
)
    requires
        flows.len() <= count,
        flows.len() < count ==> rest.len() < 48,
        restrict == Restrict::Any || restrict == Restrict::NetflowOnly,
    ensures
        datagram_outcome(
            v5_header_bytes(h, count) + v5_flows_bytes(flows) + rest,
            opts,
            cache,
            restrict,
        ) == (
            Seq::new(flows.len(), |i: int| v5_flow_row(opts.exporter, h, flows[i])) + v5_missing(
                flows.len() < count,
                opts.exporter,
                h,
            ),
            cache,
        ),
{
    let body = v5_flows_bytes(flows) + rest;
    let s = v5_header_bytes(h, count) + v5_flows_bytes(flows) + rest;
    assert(s =~= v5_header_bytes(h, count) + body);
    lemma_v5_header_reads_back(h, count, body);
    let hdr = header_of(s)->0;
    lemma_v5_flows(flows, rest, count as nat, opts.exporter, h, hdr);
    assert(v5_outcome(s, opts.exporter) == Seq::new(
        flows.len(),
        |i: int| v5_flow_row(opts.exporter, h, flows[i]),
    ) + v5_missing(flows.len() < count, opts.exporter, h));
}

/// A v5 header that lacks no more than its last two bytes is read, and the datagram is
/// said to be cut.
pub proof fn lemma_v5_header_cut(
    h: V5Header,
    count: u16,
    n: int,
    opts: OptionsView,
    cache: CacheView,
)
    requires
        22 <= n < 24,
    ensures
        datagram_outcome(v5_header_bytes(h, count).take(n), opts, cache, Restrict::Any) == (
            v5_missing(true, opts.exporter, h),
            cache,
        ),
{
    let full = v5_header_bytes(h, count);
    let s = full.take(n);
    lemma_at16(s, 0, 5);
    lemma_at16(s, 2, count);
    lemma_at32(s, 4, h.sys_uptime);
    lemma_at32(s, 8, h.unix_secs);
    lemma_at32(s, 12, h.unix_nsecs);
    lemma_at32(s, 16, h.sequence);
    assert(s[21] == h.engine_id);
}

/// A flow that does not end before it starts is not shown to: the order of the stamps
/// is the order of the times, and they are as far apart.
pub proof fn lemma_v5_times_in_order(exporter: Seq<char>, h: V5Header, f: V5Flow)
    ensures
        f.first <= f.last <==> v5_flow_row(exporter, h, f).flow_start->0 <= v5_flow_row(
            exporter,
            h,
            f,
        ).flow_end->0,
        v5_flow_row(exporter, h, f).flow_end->0 - v5_flow_row(exporter, h, f).flow_start->0 == (
        f.last - f.first) * 1_000,
{
}

} // verus!
