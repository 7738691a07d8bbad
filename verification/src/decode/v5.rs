//! NetFlow v5: fixed 24-byte header + up to 30 × 48-byte records. Stateless.

use vstd::prelude::*;
use vstd::slice::slice_subrange;

use crate::buf::{at16, at32, read16, read32, Cursor};
use crate::decode::header::{header_of, parse_header, ExportHeader};
use crate::decode::sets::one_row;
use crate::inet::{inet4, inet4_of};
use crate::normalize::{diagnostic_row, FlowRecord, FlowView};
use crate::text::views;

verus! {

broadcast use {crate::text::lemma_views_push, crate::buf::group_offsets};

const V5_RECORD_LEN: usize = 48;

/// The boot time in microseconds: the export time less the header's sysUptime.
pub open spec fn boot_of(hdr: ExportHeader) -> Option<i64> {
    match (hdr.export_time, hdr.sys_uptime) {
        (Some(e), Some(u)) => Some((e - u * 1_000) as i64),
        _ => None,
    }
}

/// A sysUptime stamp in absolute microseconds.
pub open spec fn since_boot(boot: Option<i64>, stamp: u32) -> Option<i64> {
    match boot {
        Some(b) => Some((b + stamp * 1_000) as i64),
        None => None,
    }
}

/// The row of a 48-byte record.
pub open spec fn v5_row(
    b: Seq<u8>,
    exporter: Seq<char>,
    obs_domain: u32,
    hdr: ExportHeader,
) -> FlowView {
    FlowView {
        exporter,
        flow_version: "5"@,
        obs_domain,
        template_id: None,
        export_time: hdr.export_time,
        sequence: hdr.sequence,
        src_addr: inet4_of(b.subrange(0, 4)),
        dst_addr: inet4_of(b.subrange(4, 8)),
        next_hop: inet4_of(b.subrange(8, 12)),
        input_snmp: Some(at16(b, 12) as u32),
        output_snmp: Some(at16(b, 14) as u32),
        packets: Some(at32(b, 16) as u64),
        bytes: Some(at32(b, 20) as u64),
        flow_start: since_boot(boot_of(hdr), at32(b, 24)),
        flow_end: since_boot(boot_of(hdr), at32(b, 28)),
        src_port: Some(at16(b, 32)),
        dst_port: Some(at16(b, 34)),
        tcp_flags: Some(b[37]),
        protocol: Some(b[38]),
        tos: Some(b[39]),
        src_as: Some(at16(b, 40) as u32),
        dst_as: Some(at16(b, 42) as u32),
        src_mask: Some(b[44]),
        dst_mask: Some(b[45]),
        sampling_rate: None,
        direction: None,
        raw_fields: Seq::empty(),
        diagnostics: None,
    }
}

/// The row of a datagram that ends too early.
pub open spec fn v5_truncated(
    exporter: Seq<char>,
    obs_domain: u32,
    hdr: ExportHeader,
) -> FlowView {
    diagnostic_row(exporter, "5"@, obs_domain, hdr.export_time, hdr.sequence, "truncated"@)
}

/// The row of a datagram that ends too early.
fn truncated(exporter: &str, obs_domain: u32, hdr: &ExportHeader) -> (r: FlowRecord)
    ensures
        r@ == v5_truncated(exporter@, obs_domain, *hdr),
{
    FlowRecord::diagnostic(
        exporter,
        "5",
        obs_domain,
        hdr.export_time,
        hdr.sequence,
        "truncated".to_string(),
    )
}

/// The rows of the next `n` records; a `truncated` row where they are not all
/// there.
pub open spec fn v5_rows(
    rest: Seq<u8>,
    n: nat,
    exporter: Seq<char>,
    obs_domain: u32,
    hdr: ExportHeader,
) -> Seq<FlowView>
    decreases n,
{
    if n == 0 {
        Seq::empty()
    } else if rest.len() < 48 {
        seq![v5_truncated(exporter, obs_domain, hdr)]
    } else {
        seq![v5_row(rest.take(48), exporter, obs_domain, hdr)] + v5_rows(
            rest.skip(48),
            (n - 1) as nat,
            exporter,
            obs_domain,
            hdr,
        )
    }
}

/// The rows of a v5 datagram; where not all of its header is there, one
/// `truncated` row.
pub open spec fn v5_outcome(data: Seq<u8>, exporter: Seq<char>) -> Seq<FlowView> {
    match header_of(data) {
        None => seq![
            diagnostic_row(exporter, "5"@, 0, None, None, "decode-error:bad-v5-header"@),
        ],
        Some(hdr) => {
            let n = match hdr.count {
                Some(c) => c as nat,
                None => 0,
            };
            let obs_domain = match hdr.obs_domain {
                Some(d) => d,
                None => 0,
            };
            if data.len() < 24 {
                seq![v5_truncated(exporter, obs_domain, hdr)]
            } else {
                v5_rows(data.skip(24), n, exporter, obs_domain, hdr)
            }
        },
    }
}

/// Decode a NetFlow v5 datagram into normalized rows. Never panics: a truncated
/// record stops the scan after emitting a `truncated` diagnostic.
pub fn decode(data: &[u8], exporter: &str) -> (r: Vec<FlowRecord>)
    ensures
        views(r@) == v5_outcome(data@, exporter@),
{
    let hdr = match parse_header(data) {
        Some(h) => h,
        None => {
            return one_row(
                FlowRecord::diagnostic(
                    exporter,
                    "5",
                    0,
                    None,
                    None,
                    "decode-error:bad-v5-header".to_string(),
                ),
            );
        },
    };
    let count: u16 = match hdr.count {
        Some(c) => c,
        None => 0,
    };
    let obs_domain: u32 = match hdr.obs_domain {
        Some(d) => d,
        None => 0,
    };
    if data.len() < 24 {
        return one_row(truncated(exporter, obs_domain, &hdr));
    }
    let boot_micros: Option<i64> = match (hdr.export_time, hdr.sys_uptime) {
        (Some(e), Some(u)) => Some(e - u as i64 * 1_000),
        _ => None,
    };
    let mut out: Vec<FlowRecord> = Vec::new();
    let mut cur = Cursor::new(data);
    cur.skip(24);
    let ghost want = v5_outcome(data@, exporter@);
    let mut i: u16 = 0;
    assert(views(out@) + v5_rows(cur@, count as nat, exporter@, obs_domain, hdr) =~= want);
    while i < count
        invariant
            cur.wf(),
            i <= count,
            want == v5_outcome(data@, exporter@),
            header_of(data@) == Some(hdr),
            boot_micros == boot_of(hdr),
            views(out@) + v5_rows(cur@, (count - i) as nat, exporter@, obs_domain, hdr) == want,
        decreases count - i,
    {
        let ghost rest = cur@;
        let ghost before = views(out@);
        let slice = match cur.take(V5_RECORD_LEN) {
            Some(s) => s,
            None => {
                out.push(truncated(exporter, obs_domain, &hdr));
                assert(views(out@) =~= want);
                return out;
            },
        };
        out.push(decode_record(slice, exporter, obs_domain, &hdr, boot_micros));
        i = i + 1;
        assert(views(out@) + v5_rows(cur@, (count - i) as nat, exporter@, obs_domain, hdr)
            =~= before + v5_rows(rest, (count - i + 1) as nat, exporter@, obs_domain, hdr));
    }
    assert(views(out@) + Seq::<FlowView>::empty() =~= views(out@));
    out
}

fn decode_record(
    b: &[u8],
    exporter: &str,
    obs_domain: u32,
    hdr: &ExportHeader,
    boot_micros: Option<i64>,
) -> (r: FlowRecord)
    requires
        b@.len() == 48,
        boot_micros == boot_of(*hdr),
        boot_micros matches Some(t) ==> -0x4000_0000_0000_0000 <= t <= 0x4000_0000_0000_0000,
    ensures
        r@ == v5_row(b@, exporter@, obs_domain, *hdr),
{
    let first: u32 = read32(b, 24);
    let last: u32 = read32(b, 28);
    let (flow_start, flow_end) = match boot_micros {
        Some(boot) => (Some(boot + first as i64 * 1_000), Some(boot + last as i64 * 1_000)),
        None => (None, None),
    };
    FlowRecord {
        exporter: exporter.to_string(),
        flow_version: "5".to_string(),
        obs_domain,
        template_id: None,
        export_time: hdr.export_time,
        sequence: hdr.sequence,
        src_addr: inet4(slice_subrange(b, 0, 4)),
        dst_addr: inet4(slice_subrange(b, 4, 8)),
        src_port: Some(read16(b, 32)),
        dst_port: Some(read16(b, 34)),
        protocol: Some(b[38]),
        tcp_flags: Some(b[37]),
        bytes: Some(read32(b, 20) as u64),
        packets: Some(read32(b, 16) as u64),
        flow_start,
        flow_end,
        src_as: Some(read16(b, 40) as u32),
        dst_as: Some(read16(b, 42) as u32),
        input_snmp: Some(read16(b, 12) as u32),
        output_snmp: Some(read16(b, 14) as u32),
        next_hop: inet4(slice_subrange(b, 8, 12)),
        tos: Some(b[39]),
        src_mask: Some(b[44]),
        dst_mask: Some(b[45]),
        sampling_rate: None,
        direction: None,
        raw_fields: Vec::new(),
        diagnostics: None,
    }
}

} // verus!
