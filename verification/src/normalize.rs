//! The normalized cross-version flow record.
//!
//! NetFlow v5 / v9, IPFIX and sFlow all decode into this one wide row so a
//! single query spans every exporter and version. What the normalized columns
//! cannot hold lands in `raw_fields`, keyed by Information Element name (or
//! `e<PEN>id<n>` for unmapped enterprise elements).

use vstd::prelude::*;

use crate::buf::be;
use crate::inet::{ipv4_string, ipv4_text, ipv6_string, ipv6_text, InetVal, InetView};
use crate::text::{chars_of, opt_view};

verus! {

/// One normalized flow row. Optional columns are `None` when the source format
/// did not carry that field. Address columns are DuckDB-`INET` triples.
#[derive(Clone, Debug, PartialEq)]
pub struct FlowRecord {
    pub exporter: String,
    /// `"5"`, `"9"`, `"10"` (IPFIX), or `"sflow5"`.
    pub flow_version: String,
    pub obs_domain: u32,
    pub template_id: Option<u16>,
    /// Datagram export time, microseconds since the Unix epoch (UTC).
    pub export_time: Option<i64>,
    pub sequence: Option<u64>,
    pub src_addr: Option<InetVal>,
    pub dst_addr: Option<InetVal>,
    pub src_port: Option<u16>,
    pub dst_port: Option<u16>,
    pub protocol: Option<u8>,
    pub tcp_flags: Option<u8>,
    pub bytes: Option<u64>,
    pub packets: Option<u64>,
    /// Flow start, microseconds since the Unix epoch (UTC).
    pub flow_start: Option<i64>,
    pub flow_end: Option<i64>,
    pub src_as: Option<u32>,
    pub dst_as: Option<u32>,
    pub input_snmp: Option<u32>,
    pub output_snmp: Option<u32>,
    pub next_hop: Option<InetVal>,
    pub tos: Option<u8>,
    pub src_mask: Option<u8>,
    pub dst_mask: Option<u8>,
    pub sampling_rate: Option<u32>,
    pub direction: Option<u8>,
    /// Every element not mapped to a normalized column, keyed by name; the value
    /// is the raw on-wire bytes. Insertion order is preserved.
    pub raw_fields: Vec<(String, Vec<u8>)>,
    /// `None` on a clean decode; else `missing-template:<dom>/<id>`, `truncated`,
    /// `enterprise-unmapped`, `counter-sample` or `decode-error:<detail>`.
    pub diagnostics: Option<String>,
}

/// What a flow row holds.
#[verifier::ext_equal]
pub struct FlowView {
    pub exporter: Seq<char>,
    pub flow_version: Seq<char>,
    pub obs_domain: u32,
    pub template_id: Option<u16>,
    pub export_time: Option<i64>,
    pub sequence: Option<u64>,
    pub src_addr: Option<InetView>,
    pub dst_addr: Option<InetView>,
    pub src_port: Option<u16>,
    pub dst_port: Option<u16>,
    pub protocol: Option<u8>,
    pub tcp_flags: Option<u8>,
    pub bytes: Option<u64>,
    pub packets: Option<u64>,
    pub flow_start: Option<i64>,
    pub flow_end: Option<i64>,
    pub src_as: Option<u32>,
    pub dst_as: Option<u32>,
    pub input_snmp: Option<u32>,
    pub output_snmp: Option<u32>,
    pub next_hop: Option<InetView>,
    pub tos: Option<u8>,
    pub src_mask: Option<u8>,
    pub dst_mask: Option<u8>,
    pub sampling_rate: Option<u32>,
    pub direction: Option<u8>,
    pub raw_fields: Seq<(Seq<char>, Seq<u8>)>,
    pub diagnostics: Option<Seq<char>>,
}

/// What a list of raw fields holds.
pub open spec fn raw_view(raw: Seq<(String, Vec<u8>)>) -> Seq<(Seq<char>, Seq<u8>)> {
    Seq::new(raw.len(), |i: int| (raw[i].0@, raw[i].1@))
}

impl View for FlowRecord {
    type V = FlowView;

    open spec fn view(&self) -> FlowView {
        FlowView {
            exporter: self.exporter@,
            flow_version: self.flow_version@,
            obs_domain: self.obs_domain,
            template_id: self.template_id,
            export_time: self.export_time,
            sequence: self.sequence,
            src_addr: opt_view(self.src_addr),
            dst_addr: opt_view(self.dst_addr),
            src_port: self.src_port,
            dst_port: self.dst_port,
            protocol: self.protocol,
            tcp_flags: self.tcp_flags,
            bytes: self.bytes,
            packets: self.packets,
            flow_start: self.flow_start,
            flow_end: self.flow_end,
            src_as: self.src_as,
            dst_as: self.dst_as,
            input_snmp: self.input_snmp,
            output_snmp: self.output_snmp,
            next_hop: opt_view(self.next_hop),
            tos: self.tos,
            src_mask: self.src_mask,
            dst_mask: self.dst_mask,
            sampling_rate: self.sampling_rate,
            direction: self.direction,
            raw_fields: raw_view(self.raw_fields@),
            diagnostics: opt_view(self.diagnostics),
        }
    }
}

/// The row that carries nothing.
pub open spec fn blank_row() -> FlowView {
    FlowView {
        exporter: Seq::empty(),
        flow_version: Seq::empty(),
        obs_domain: 0,
        template_id: None,
        export_time: None,
        sequence: None,
        src_addr: None,
        dst_addr: None,
        src_port: None,
        dst_port: None,
        protocol: None,
        tcp_flags: None,
        bytes: None,
        packets: None,
        flow_start: None,
        flow_end: None,
        src_as: None,
        dst_as: None,
        input_snmp: None,
        output_snmp: None,
        next_hop: None,
        tos: None,
        src_mask: None,
        dst_mask: None,
        sampling_rate: None,
        direction: None,
        raw_fields: Seq::empty(),
        diagnostics: None,
    }
}

/// The header-only row of a diagnostic.
pub open spec fn diagnostic_row(
    exporter: Seq<char>,
    version: Seq<char>,
    obs_domain: u32,
    export_time: Option<i64>,
    sequence: Option<u64>,
    diag: Seq<char>,
) -> FlowView {
    FlowView {
        exporter,
        flow_version: version,
        obs_domain,
        export_time,
        sequence,
        diagnostics: Some(diag),
        ..blank_row()
    }
}

/// `d[i..j]` is one of the parts of `d` between semicolons.
pub open spec fn is_part(d: Seq<char>, i: int, j: int) -> bool {
    &&& 0 <= i <= j <= d.len()
    &&& i == 0 || d[i - 1] == ';'
    &&& j == d.len() || d[j] == ';'
    &&& forall|k: int| i <= k < j ==> d[k] != ';'
}

/// One of the parts of `d` between semicolons is `msg`.
pub open spec fn has_note(d: Seq<char>, msg: Seq<char>) -> bool {
    exists|i: int, j: int| #[trigger] is_part(d, i, j) && d.subrange(i, j) == msg
}

/// Diagnostics with `msg` among their parts.
pub open spec fn noted(d: Option<Seq<char>>, msg: Seq<char>) -> Option<Seq<char>> {
    match d {
        None => Some(msg),
        Some(d) => if has_note(d, msg) {
            Some(d)
        } else {
            Some(d + ";"@ + msg)
        },
    }
}

/// Whether `d[from..to]` is `msg`.
fn part_is(d: &Vec<char>, from: usize, to: usize, msg: &Vec<char>) -> (r: bool)
    requires
        from <= to <= d@.len(),
    ensures
        r == (d@.subrange(from as int, to as int) == msg@),
{
    let ghost part = d@.subrange(from as int, to as int);
    if to - from != msg.len() {
        return false;
    }
    let mut k: usize = 0;
    while k < msg.len() && d[from + k] == msg[k]
        invariant
            k <= msg.len(),
            from + msg.len() == to,
            to <= d.len(),
            part == d@.subrange(from as int, to as int),
            forall|x: int| 0 <= x < k ==> part[x] == msg@[x],
        decreases msg.len() - k,
    {
        k = k + 1;
    }
    if k == msg.len() {
        assert(part =~= msg@);
        true
    } else {
        assert(part[k as int] != msg@[k as int]);
        false
    }
}

/// Whether one of the parts of `d` between semicolons is `msg`.
fn contains_note(d: &str, msg: &str) -> (r: bool)
    ensures
        r == has_note(d@, msg@),
{
    let ds = chars_of(d);
    let ms = chars_of(msg);
    let mut start: usize = 0;
    let mut i: usize = 0;
    while i < ds.len()
        invariant
            ds@ == d@,
            ms@ == msg@,
            start <= i <= ds.len(),
            start == 0 || ds@[start - 1] == ';',
            forall|k: int| start <= k < i ==> ds@[k] != ';',
            forall|s: int, e: int|
                e < start && #[trigger] is_part(ds@, s, e) ==> ds@.subrange(s, e) != ms@,
        decreases ds.len() - i,
    {
        if ds[i] == ';' {
            assert(is_part(ds@, start as int, i as int));
            if part_is(&ds, start, i, &ms) {
                return true;
            }
            proof {
                lemma_only_part(ds@, ms@, start as int, i as int);
            }
            start = i + 1;
        }
        i = i + 1;
    }
    assert(is_part(ds@, start as int, i as int));
    proof {
        if ds@.subrange(start as int, i as int) != ms@ {
            lemma_only_part(ds@, ms@, start as int, i as int);
        }
    }
    part_is(&ds, start, ds.len(), &ms)
}

/// The part that starts at `start` is the only one that ends from there to `end`.
proof fn lemma_only_part(d: Seq<char>, msg: Seq<char>, start: int, end: int)
    requires
        is_part(d, start, end),
        d.subrange(start, end) != msg,
        forall|s: int, e: int|
            e < start && #[trigger] is_part(d, s, e) ==> d.subrange(s, e) != msg,
    ensures
        forall|s: int, e: int|
            e <= end && #[trigger] is_part(d, s, e) ==> d.subrange(s, e) != msg,
{
    assert forall|s: int, e: int| e <= end && #[trigger] is_part(d, s, e) implies d.subrange(s, e)
        != msg by {
        if e >= start {
            assert(e == end);
            if s < start {
                assert(d[start - 1] == ';');
            } else if s > start {
                assert(d[s - 1] == ';');
            }
        }
    }
}

impl FlowRecord {
    /// A row that carries nothing.
    pub fn blank() -> (r: Self)
        ensures
            r@ == blank_row(),
    {
        let r = FlowRecord {
            exporter: String::new(),
            flow_version: String::new(),
            obs_domain: 0,
            template_id: None,
            export_time: None,
            sequence: None,
            src_addr: None,
            dst_addr: None,
            src_port: None,
            dst_port: None,
            protocol: None,
            tcp_flags: None,
            bytes: None,
            packets: None,
            flow_start: None,
            flow_end: None,
            src_as: None,
            dst_as: None,
            input_snmp: None,
            output_snmp: None,
            next_hop: None,
            tos: None,
            src_mask: None,
            dst_mask: None,
            sampling_rate: None,
            direction: None,
            raw_fields: Vec::new(),
            diagnostics: None,
        };
        assert(r@ =~= blank_row());
        r
    }

    /// A header-only record carrying just the exporter/version/domain context,
    /// used for `missing-template` and decode-error diagnostics.
    pub fn diagnostic(
        exporter: &str,
        version: &str,
        obs_domain: u32,
        export_time: Option<i64>,
        sequence: Option<u64>,
        diag: String,
    ) -> (r: Self)
        ensures
            r@ == diagnostic_row(
                exporter@,
                version@,
                obs_domain,
                export_time,
                sequence,
                diag@,
            ),
    {
        let mut r = FlowRecord::blank();
        r.exporter = exporter.to_string();
        r.flow_version = version.to_string();
        r.obs_domain = obs_domain;
        r.export_time = export_time;
        r.sequence = sequence;
        r.diagnostics = Some(diag);
        r
    }

    /// Append a raw field, keeping insertion order.
    pub fn put_raw(&mut self, name: String, bytes: Vec<u8>)
        ensures
            final(self)@ == (FlowView {
                raw_fields: old(self)@.raw_fields.push((name@, bytes@)),
                ..old(self)@
            }),
    {
        self.raw_fields.push((name, bytes));
        assert(self@.raw_fields =~= old(self)@.raw_fields.push((name@, bytes@)));
    }

    /// Merge a diagnostic note (joining with `;` if one already exists, unless
    /// it is there already).
    pub fn note(&mut self, msg: &str)
        ensures
            final(self)@ == (FlowView {
                diagnostics: noted(old(self)@.diagnostics, msg@),
                ..old(self)@
            }),
    {
        let mut d = match &self.diagnostics {
            Some(d) => {
                if contains_note(d.as_str(), msg) {
                    return;
                }
                let mut d = d.clone();
                d.append(";");
                d
            },
            None => String::new(),
        };
        d.append(msg);
        proof {
            assert(Seq::<char>::empty() + msg@ =~= msg@);
        }
        self.diagnostics = Some(d);
    }
}

impl Default for FlowRecord {
    fn default() -> (r: Self)
        ensures
            r@ == blank_row(),
    {
        FlowRecord::blank()
    }
}

/// Render 4 bytes as a dotted IPv4 string.
pub fn ipv4(b: &[u8]) -> (r: Option<String>)
    ensures
        opt_view(r) == (if b@.len() == 4 {
            Some(ipv4_text(b@))
        } else {
            None
        }),
{
    if b.len() == 4 {
        Some(ipv4_string(b))
    } else {
        None
    }
}

/// Render 16 bytes as a canonical IPv6 string.
pub fn ipv6(b: &[u8]) -> (r: Option<String>)
    ensures
        opt_view(r) == (if b@.len() == 16 {
            Some(ipv6_text(b@))
        } else {
            None
        }),
{
    if b.len() == 16 {
        Some(ipv6_string(b))
    } else {
        None
    }
}

/// The number in the first eight bytes of `b`, or in all of it if it is shorter.
pub open spec fn uint_of(b: Seq<u8>) -> nat {
    be(b.take(if b.len() < 8 {
        b.len() as int
    } else {
        8
    }))
}

/// Up to eight bytes denote a number below 2^64.
proof fn lemma_be_fits(s: Seq<u8>)
    requires
        s.len() <= 8,
    ensures
        be(s) <= u64::MAX,
        s.len() <= 7 ==> be(s) * 256 + 255 <= u64::MAX,
{
    reveal_with_fuel(be, 9);
}

/// Big-endian unsigned read of up to 8 bytes (IPFIX reduced-size encoding).
pub fn be_uint(b: &[u8]) -> (r: u64)
    ensures
        r == uint_of(b@),
{
    let n: usize = if b.len() < 8 {
        b.len()
    } else {
        8
    };
    let mut v: u64 = 0;
    let mut i: usize = 0;
    assert(b@.take(0) =~= Seq::<u8>::empty());
    while i < n
        invariant
            i <= n <= 8,
            n <= b@.len(),
            v == be(b@.take(i as int)),
        decreases n - i,
    {
        proof {
            lemma_be_fits(b@.take(i as int));
            assert(b@.take(i + 1).drop_last() =~= b@.take(i as int));
        }
        v = v * 256 + b[i] as u64;
        i = i + 1;
    }
    v
}

} // verus!
