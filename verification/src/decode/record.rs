//! Shared v9/IPFIX data-record slicing and element-to-column mapping.
//!
//! A Data Set is `field_length`-sized slices in template order, meaningless
//! without the cached layout. This module takes a resolved [`TemplateEntry`] plus
//! the raw Data Set payload and produces normalized [`FlowRecord`]s, honoring
//! IPFIX variable-length encoding. All slicing is bounds-checked; a short record
//! degrades to a `truncated` diagnostic row.

use vstd::prelude::*;
use vstd::slice::slice_to_vec;

use crate::buf::{be, be_u32, front16, Cursor};
use crate::cache::{EntryView, FieldSpec, FieldView, TemplateEntry, TemplateKind};
use crate::inet::{inet4, inet4_of, inet6, inet6_of, InetVal, InetView};
use crate::normalize::{be_uint, blank_row, diagnostic_row, noted, uint_of, FlowRecord, FlowView};
use crate::num::{low16, low32, low8, wrap_i64, wrapped_product, wrapped_shift};
use crate::registry::{element, resolve, IeType};
use crate::text::{chars_of, dec, opt_view, push_dec, same_text, views};

verus! {

broadcast use {crate::text::lemma_views_push, crate::text::lemma_views_add};

/// Per-datagram header context threaded into each emitted record.
pub struct Ctx {
    pub exporter: String,
    pub obs_domain: u32,
    /// `"9"` or `"10"`.
    pub version: &'static str,
    pub export_time: Option<i64>,
    pub sequence: Option<u64>,
    /// v9 header sysUptime in milliseconds (None for IPFIX).
    pub sys_uptime_ms: Option<u64>,
    pub template_id: u16,
}

/// What a header context holds.
#[verifier::ext_equal]
pub struct CtxView {
    pub exporter: Seq<char>,
    pub obs_domain: u32,
    pub version: Seq<char>,
    pub export_time: Option<i64>,
    pub sequence: Option<u64>,
    pub sys_uptime_ms: Option<u64>,
    pub template_id: u16,
}

impl View for Ctx {
    type V = CtxView;

    open spec fn view(&self) -> CtxView {
        CtxView {
            exporter: self.exporter@,
            obs_domain: self.obs_domain,
            version: self.version@,
            export_time: self.export_time,
            sequence: self.sequence,
            sys_uptime_ms: self.sys_uptime_ms,
            template_id: self.template_id,
        }
    }
}

impl Clone for Ctx {
    fn clone(&self) -> (r: Self)
        ensures
            r@ == self@,
    {
        Ctx {
            exporter: self.exporter.clone(),
            obs_domain: self.obs_domain,
            version: self.version,
            export_time: self.export_time,
            sequence: self.sequence,
            sys_uptime_ms: self.sys_uptime_ms,
            template_id: self.template_id,
        }
    }
}

/// The label of an abstract data type.
pub open spec fn type_label(t: IeType) -> Seq<char> {
    match t {
        IeType::Unsigned8 => "unsigned8"@,
        IeType::Unsigned16 => "unsigned16"@,
        IeType::Unsigned32 => "unsigned32"@,
        IeType::Unsigned64 => "unsigned64"@,
        IeType::Signed32 => "signed32"@,
        IeType::Signed64 => "signed64"@,
        IeType::Float64 => "float64"@,
        IeType::Boolean => "boolean"@,
        IeType::MacAddress => "macAddress"@,
        IeType::Ipv4Address => "ipv4Address"@,
        IeType::Ipv6Address => "ipv6Address"@,
        IeType::DateTimeSeconds => "dateTimeSeconds"@,
        IeType::DateTimeMilliseconds => "dateTimeMilliseconds"@,
        IeType::DateTimeMicroseconds => "dateTimeMicroseconds"@,
        IeType::DateTimeNanoseconds => "dateTimeNanoseconds"@,
        IeType::String => "string"@,
        IeType::OctetArray => "octetArray"@,
    }
}

/// The name of an element that the registries do not know.
pub open spec fn unknown_name(enterprise_number: u32, ie_id: u16) -> Seq<char> {
    if enterprise_number == 0 {
        "id"@ + dec(ie_id as nat)
    } else {
        "e"@ + dec(enterprise_number as nat) + "id"@ + dec(ie_id as nat)
    }
}

/// A field specifier with its resolved name and type.
pub open spec fn field_of(enterprise_number: u32, ie_id: u16, length: u16) -> FieldView {
    match element(enterprise_number, ie_id) {
        Some(def) => FieldView {
            ie_id,
            enterprise_number,
            length,
            name: def.name@,
            ie_type: type_label(def.ty),
        },
        None => FieldView {
            ie_id,
            enterprise_number,
            length,
            name: unknown_name(enterprise_number, ie_id),
            ie_type: "octetArray"@,
        },
    }
}

/// Resolve a field specifier to a [`FieldSpec`] at template-parse time.
pub fn field_spec(enterprise_number: u32, ie_id: u16, length: u16) -> (r: FieldSpec)
    ensures
        r@ == field_of(enterprise_number, ie_id, length),
{
    match resolve(enterprise_number, ie_id) {
        Some(def) => FieldSpec {
            ie_id,
            enterprise_number,
            length,
            name: def.name.to_string(),
            ie_type: ie_type_name(def.ty).to_string(),
        },
        None => {
            let mut name = String::new();
            if enterprise_number != 0 {
                name.append("e");
                push_dec(&mut name, enterprise_number as u64);
            }
            name.append("id");
            push_dec(&mut name, ie_id as u64);
            assert(name@ =~= unknown_name(enterprise_number, ie_id));
            FieldSpec {
                ie_id,
                enterprise_number,
                length,
                name,
                ie_type: "octetArray".to_string(),
            }
        },
    }
}

fn ie_type_name(t: IeType) -> (r: &'static str)
    ensures
        r@ == type_label(t),
{
    match t {
        IeType::Unsigned8 => "unsigned8",
        IeType::Unsigned16 => "unsigned16",
        IeType::Unsigned32 => "unsigned32",
        IeType::Unsigned64 => "unsigned64",
        IeType::Signed32 => "signed32",
        IeType::Signed64 => "signed64",
        IeType::Float64 => "float64",
        IeType::Boolean => "boolean",
        IeType::MacAddress => "macAddress",
        IeType::Ipv4Address => "ipv4Address",
        IeType::Ipv6Address => "ipv6Address",
        IeType::DateTimeSeconds => "dateTimeSeconds",
        IeType::DateTimeMilliseconds => "dateTimeMilliseconds",
        IeType::DateTimeMicroseconds => "dateTimeMicroseconds",
        IeType::DateTimeNanoseconds => "dateTimeNanoseconds",
        IeType::String => "string",
        IeType::OctetArray => "octetArray",
    }
}

/// An IPFIX variable-length prefix (RFC 7011 §7) and what follows it: a single
/// length byte, or `0xFF` followed by a 2-byte length.
pub open spec fn varlen(rest: Seq<u8>) -> Option<(nat, Seq<u8>)> {
    if rest.len() < 1 {
        None
    } else if rest[0] < 255 {
        Some((rest[0] as nat, rest.skip(1)))
    } else if rest.len() < 3 {
        None
    } else {
        Some((front16(rest.skip(1)) as nat, rest.skip(1).skip(2)))
    }
}

/// The bytes of a field and what follows them, where they are all there.
pub open spec fn field_bytes(f: FieldView, rest: Seq<u8>) -> Option<(Seq<u8>, Seq<u8>)> {
    let sized = if f.length == 0xFFFF {
        varlen(rest)
    } else {
        Some((f.length as nat, rest))
    };
    match sized {
        Some((n, body)) => if n <= body.len() {
            Some((body.take(n as int), body.skip(n as int)))
        } else {
            None
        },
        None => None,
    }
}

/// The bytes of the first `n` fields, and what follows them.
pub open spec fn record_bytes(fields: Seq<FieldView>, n: nat, rest: Seq<u8>) -> Option<
    (Seq<Seq<u8>>, Seq<u8>),
>
    decreases n,
{
    if n == 0 {
        Some((Seq::empty(), rest))
    } else {
        match record_bytes(fields, (n - 1) as nat, rest) {
            Some((vals, after)) => match field_bytes(fields[n - 1], after) {
                Some((val, last)) => Some((vals.push(val), last)),
                None => None,
            },
            None => None,
        }
    }
}

/// A row in the making, with the raw sysUptime stamps (v9) of its flow times.
#[verifier::ext_equal]
pub struct RowState {
    pub row: FlowView,
    pub start_sysup: Option<u32>,
    pub end_sysup: Option<u32>,
}

/// The first of two cells that is there.
pub open spec fn or_cell(a: Option<InetView>, b: Option<InetView>) -> Option<InetView> {
    match a {
        Some(_) => a,
        None => b,
    }
}

/// An 8-byte NTP timestamp (seconds since 1900 + 32-bit fraction) in
/// microseconds since the Unix epoch.
pub open spec fn ntp_of(b: Seq<u8>) -> Option<i64> {
    if b.len() != 8 {
        None
    } else {
        Some(
            ((be(b.take(4)) - 2_208_988_800) * 1_000_000 + (be(b.skip(4)) as int * 1_000_000)
                / 0x1_0000_0000) as i64,
        )
    }
}

/// The first of two stamps that is there.
pub open spec fn or_time(a: Option<i64>, b: Option<i64>) -> Option<i64> {
    match a {
        Some(_) => a,
        None => b,
    }
}

/// The column that an element's bytes go to. Enterprise elements, and standard
/// ones that no column holds, are kept raw under their name.
pub open spec fn with_field(st: RowState, f: FieldView, b: Seq<u8>) -> RowState {
    let row = st.row;
    let raw = FlowView { raw_fields: row.raw_fields.push((f.name, b)), ..row };
    let u = uint_of(b);
    let id = f.ie_id;
    if f.enterprise_number != 0 {
        let unmapped = f.name.len() > 0 && f.name[0] == 'e' && f.ie_type == "octetArray"@;
        RowState {
            row: FlowView {
                diagnostics: if unmapped {
                    noted(row.diagnostics, "enterprise-unmapped"@)
                } else {
                    row.diagnostics
                },
                ..raw
            },
            ..st
        }
    } else if id == 22 {
        RowState { start_sysup: Some((u % 0x1_0000_0000) as u32), ..st }
    } else if id == 21 {
        RowState { end_sysup: Some((u % 0x1_0000_0000) as u32), ..st }
    } else {
        RowState { row: with_element(row, id, u, b, raw), ..st }
    }
}

/// The row with a standard element's value in its column; `raw` where no column
/// holds it.
pub open spec fn with_element(
    row: FlowView,
    id: u16,
    u: nat,
    b: Seq<u8>,
    raw: FlowView,
) -> FlowView {
    match id {
        8 | 130 => FlowView { src_addr: or_cell(inet4_of(b), row.src_addr), ..row },
        27 | 131 => FlowView { src_addr: or_cell(inet6_of(b), row.src_addr), ..row },
        12 | 226 => FlowView { dst_addr: or_cell(inet4_of(b), row.dst_addr), ..row },
        28 => FlowView { dst_addr: or_cell(inet6_of(b), row.dst_addr), ..row },
        7 | 180 | 182 => FlowView { src_port: Some((u % 0x1_0000) as u16), ..row },
        11 | 181 | 183 => FlowView { dst_port: Some((u % 0x1_0000) as u16), ..row },
        4 => FlowView { protocol: Some((u % 0x100) as u8), ..row },
        5 | 195 => FlowView { tos: Some((u % 0x100) as u8), ..row },
        6 => FlowView { tcp_flags: Some((u % 0x100) as u8), ..row },
        1 => FlowView { bytes: Some(u as u64), ..row },
        23 | 85 | 351 | 352 => FlowView {
            bytes: if row.bytes is None {
                Some(u as u64)
            } else {
                row.bytes
            },
            ..row
        },
        2 => FlowView { packets: Some(u as u64), ..row },
        24 | 86 => FlowView {
            packets: if row.packets is None {
                Some(u as u64)
            } else {
                row.packets
            },
            ..row
        },
        10 => FlowView { input_snmp: Some((u % 0x1_0000_0000) as u32), ..row },
        14 => FlowView { output_snmp: Some((u % 0x1_0000_0000) as u32), ..row },
        16 => FlowView { src_as: Some((u % 0x1_0000_0000) as u32), ..row },
        17 => FlowView { dst_as: Some((u % 0x1_0000_0000) as u32), ..row },
        15 | 18 => FlowView { next_hop: or_cell(inet4_of(b), row.next_hop), ..row },
        62 | 63 => FlowView { next_hop: or_cell(inet6_of(b), row.next_hop), ..row },
        9 | 29 => FlowView { src_mask: Some((u % 0x100) as u8), ..row },
        13 | 30 => FlowView { dst_mask: Some((u % 0x100) as u8), ..row },
        34 | 305 => FlowView { sampling_rate: Some((u % 0x1_0000_0000) as u32), ..row },
        61 => FlowView { direction: Some((u % 0x100) as u8), ..row },
        150 => FlowView { flow_start: Some(wrap_i64(u as int * 1_000_000)), ..row },
        151 => FlowView { flow_end: Some(wrap_i64(u as int * 1_000_000)), ..row },
        152 => FlowView { flow_start: Some(wrap_i64(u as int * 1_000)), ..row },
        153 => FlowView { flow_end: Some(wrap_i64(u as int * 1_000)), ..row },
        154 | 156 => FlowView { flow_start: or_time(ntp_of(b), row.flow_start), ..row },
        155 | 157 => FlowView { flow_end: or_time(ntp_of(b), row.flow_end), ..row },
        _ => raw,
    }
}

/// The row in the making after the first `n` fields.
pub open spec fn with_fields(
    st: RowState,
    fields: Seq<FieldView>,
    vals: Seq<Seq<u8>>,
    n: nat,
) -> RowState
    decreases n,
{
    if n == 0 {
        st
    } else {
        with_field(with_fields(st, fields, vals, (n - 1) as nat), fields[n - 1], vals[n - 1])
    }
}

/// The row before any field.
pub open spec fn row_start(ctx: CtxView) -> RowState {
    RowState {
        row: FlowView {
            exporter: ctx.exporter,
            flow_version: ctx.version,
            obs_domain: ctx.obs_domain,
            template_id: Some(ctx.template_id),
            export_time: ctx.export_time,
            sequence: ctx.sequence,
            ..blank_row()
        },
        start_sysup: None,
        end_sysup: None,
    }
}

/// A sysUptime stamp in absolute microseconds: the export time less the header's
/// sysUptime is the boot time that it counts from.
pub open spec fn absolute(export: i64, uptime: u64, stamp: u32) -> i64 {
    wrap_i64(export - uptime * 1_000 + stamp * 1_000)
}

/// A flow time that was not given absolutely, from its sysUptime stamp where the
/// header allows it.
pub open spec fn resolved(time: Option<i64>, stamp: Option<u32>, ctx: CtxView) -> Option<i64> {
    match (time, stamp, ctx.export_time, ctx.sys_uptime_ms) {
        (None, Some(s), Some(export), Some(uptime)) => Some(absolute(export, uptime, s)),
        _ => time,
    }
}

/// The finished row.
pub open spec fn finished(st: RowState, ctx: CtxView) -> FlowView {
    FlowView {
        flow_start: resolved(st.row.flow_start, st.start_sysup, ctx),
        flow_end: resolved(st.row.flow_end, st.end_sysup, ctx),
        ..st.row
    }
}

/// The record at the front of a payload and what follows it, where all its
/// fields are there.
pub open spec fn record_of(fields: Seq<FieldView>, rest: Seq<u8>, ctx: CtxView) -> Option<
    (FlowView, Seq<u8>),
> {
    match record_bytes(fields, fields.len(), rest) {
        Some((vals, after)) => Some(
            (finished(with_fields(row_start(ctx), fields, vals, fields.len()), ctx), after),
        ),
        None => None,
    }
}

/// The fewest bytes that a record takes: a variable-length field takes its length
/// prefix at least.
pub open spec fn min_len(fields: Seq<FieldView>) -> nat
    decreases fields.len(),
{
    if fields.len() == 0 {
        0
    } else {
        let f = fields.last();
        min_len(fields.drop_last()) + if f.length == 0xFFFF {
            1
        } else {
            f.length as nat
        }
    }
}

/// The row of a record whose fields are not all there.
pub open spec fn truncated_row(ctx: CtxView) -> FlowView {
    diagnostic_row(
        ctx.exporter,
        ctx.version,
        ctx.obs_domain,
        ctx.export_time,
        ctx.sequence,
        "truncated"@,
    )
}

/// The records of a payload, one after another. What is too short for any record
/// is padding; a record whose fields are not all there ends the payload
/// with a `truncated` row; so does, without one, a record that takes no bytes.
pub open spec fn records_of(fields: Seq<FieldView>, rest: Seq<u8>, ctx: CtxView) -> Seq<FlowView>
    decreases rest.len(),
{
    if rest.len() == 0 || rest.len() < min_len(fields) {
        Seq::empty()
    } else {
        match record_of(fields, rest, ctx) {
            None => seq![truncated_row(ctx)],
            Some((row, after)) => if after.len() < rest.len() {
                seq![row] + records_of(fields, after, ctx)
            } else {
                seq![row]
            },
        }
    }
}

/// The rows of a Data Set. Options records are dropped where only flows are
/// wanted.
pub open spec fn data_set_rows(
    tpl: EntryView,
    payload: Seq<u8>,
    ctx: CtxView,
    flows_only: bool,
) -> Seq<FlowView> {
    if flows_only && tpl.kind == TemplateKind::Options {
        Seq::empty()
    } else {
        records_of(tpl.fields, payload, ctx)
    }
}

/// How many of some rows are decoded records: these carry the template that they
/// were decoded by, and a `truncated` row carries none.
pub open spec fn records_in(rows: Seq<FlowView>) -> nat
    decreases rows.len(),
{
    if rows.len() == 0 {
        0
    } else {
        records_in(rows.drop_last()) + if rows.last().template_id is Some {
            1nat
        } else {
            0
        }
    }
}

/// How many of some rows are decoded records.
pub fn count_records(rows: &Vec<FlowRecord>) -> (r: u64)
    ensures
        r == records_in(views(rows@)),
{
    let ghost all = views(rows@);
    let mut n: u64 = 0;
    let mut i: usize = 0;
    assert(all.take(0) =~= Seq::<FlowView>::empty());
    while i < rows.len()
        invariant
            all == views(rows@),
            i <= rows@.len(),
            n == records_in(all.take(i as int)),
            n <= i,
        decreases rows.len() - i,
    {
        assert(all.take(i + 1).drop_last() =~= all.take(i as int));
        assert(all[i as int] == rows@[i as int]@);
        if rows[i].template_id.is_some() {
            n = n + 1;
        }
        i = i + 1;
    }
    assert(all.take(i as int) =~= all);
    n
}

/// Nothing is read past fields that are not there.
proof fn lemma_record_bytes_stuck(fields: Seq<FieldView>, n: nat, m: nat, rest: Seq<u8>)
    requires
        n <= m,
        record_bytes(fields, n, rest) is None,
    ensures
        record_bytes(fields, m, rest) is None,
    decreases m,
{
    if n < m {
        lemma_record_bytes_stuck(fields, n, (m - 1) as nat, rest);
    }
}

/// Fields only take bytes off the front.
proof fn lemma_record_bytes_shrinks(fields: Seq<FieldView>, n: nat, rest: Seq<u8>)
    ensures
        record_bytes(fields, n, rest) matches Some((vals, after)) ==> after.len() <= rest.len()
            && vals.len() == n,
    decreases n,
{
    if n > 0 {
        lemma_record_bytes_shrinks(fields, (n - 1) as nat, rest);
    }
}

/// A later field does not change what the earlier ones give.
proof fn lemma_with_fields_prefix(
    st: RowState,
    fields: Seq<FieldView>,
    a: Seq<Seq<u8>>,
    b: Seq<Seq<u8>>,
    n: nat,
)
    requires
        n <= a.len(),
        n <= b.len(),
        forall|i: int| 0 <= i < n ==> a[i] == b[i],
    ensures
        with_fields(st, fields, a, n) == with_fields(st, fields, b, n),
    decreases n,
{
    if n > 0 {
        lemma_with_fields_prefix(st, fields, a, b, (n - 1) as nat);
    }
}

/// Of two field lists, the shorter takes no more bytes.
proof fn lemma_min_len_take(fields: Seq<FieldView>, n: int)
    requires
        0 <= n <= fields.len(),
    ensures
        min_len(fields.take(n)) <= min_len(fields),
    decreases fields.len(),
{
    if n == fields.len() {
        assert(fields.take(n) =~= fields);
    } else {
        assert(fields.drop_last().take(n) =~= fields.take(n));
        lemma_min_len_take(fields.drop_last(), n);
    }
}

/// Whether `rem` bytes are too few for any record.
fn too_short(fields: &Vec<FieldSpec>, rem: usize) -> (r: bool)
    ensures
        r == (rem < min_len(views(fields@))),
{
    let ghost all = views(fields@);
    let mut left: usize = rem;
    let mut i: usize = 0;
    assert(all.take(0) =~= Seq::<FieldView>::empty());
    while i < fields.len()
        invariant
            all == views(fields@),
            i <= fields@.len(),
            left + min_len(all.take(i as int)) == rem,
        decreases fields.len() - i,
    {
        proof {
            assert(all.take(i + 1).drop_last() =~= all.take(i as int));
            lemma_min_len_take(all, i + 1);
        }
        let len: usize = if fields[i].is_variable() {
            1
        } else {
            fields[i].length as usize
        };
        if len > left {
            return true;
        }
        left = left - len;
        i = i + 1;
    }
    assert(all.take(i as int) =~= all);
    false
}

/// Decode a whole Data Set payload into zero or more flow records.
///
/// Records are sliced in sequence until the remaining bytes can no longer hold a
/// full record (trailing padding is ignored). `mode_flows_only` drops Options
/// records entirely.
pub fn decode_data_set(
    tpl: &TemplateEntry,
    payload: &[u8],
    ctx: &Ctx,
    mode_flows_only: bool,
) -> (r: Vec<FlowRecord>)
    ensures
        views(r@) == data_set_rows(tpl@, payload@, ctx@, mode_flows_only),
{
    let mut out: Vec<FlowRecord> = Vec::new();
    assert(views(out@) =~= Seq::<FlowView>::empty());
    if mode_flows_only && tpl.kind == TemplateKind::Options {
        return out;
    }
    let ghost fields = tpl@.fields;
    let ghost all = records_of(fields, payload@, ctx@);
    let mut cur = Cursor::new(payload);
    assert(views(out@) + records_of(fields, cur@, ctx@) =~= all);
    loop
        invariant_except_break
            cur.wf(),
            fields == tpl@.fields,
            views(out@) + records_of(fields, cur@, ctx@) == all,
        ensures
            views(out@) == all,
        decreases cur@.len(),
    {
        let rem: usize = cur.remaining();
        if rem == 0 || too_short(&tpl.fields, rem) {
            assert(views(out@) + Seq::<FlowView>::empty() =~= views(out@));
            break;
        }
        let ghost rest = cur@;
        let ghost before = views(out@);
        proof {
            lemma_record_bytes_shrinks(fields, fields.len(), rest);
        }
        match decode_one_record(tpl, &mut cur, ctx) {
            Some(rec) => {
                out.push(rec);
            },
            None => {
                out.push(
                    FlowRecord::diagnostic(
                        ctx.exporter.as_str(),
                        ctx.version,
                        ctx.obs_domain,
                        ctx.export_time,
                        ctx.sequence,
                        "truncated".to_string(),
                    ),
                );
                assert(views(out@) =~= all);
                break;
            },
        }
        if cur.remaining() == rem {
            assert(views(out@) =~= all);
            break;
        }
        assert(views(out@) + records_of(fields, cur@, ctx@) =~= before + records_of(
            fields,
            rest,
            ctx@,
        ));
    }
    out
}

/// Decode a single record, advancing `cur`. Returns `None` on underrun.
fn decode_one_record(tpl: &TemplateEntry, cur: &mut Cursor, ctx: &Ctx) -> (r: Option<FlowRecord>)
    requires
        old(cur).wf(),
    ensures
        final(cur).wf(),
        match r {
            Some(rec) => record_of(tpl@.fields, old(cur)@, ctx@) == Some((rec@, final(cur)@)),
            None => record_of(tpl@.fields, old(cur)@, ctx@) is None,
        },
{
    let ghost fields = tpl@.fields;
    let mut rec = FlowRecord::blank();
    rec.exporter = ctx.exporter.clone();
    rec.flow_version = ctx.version.to_string();
    rec.obs_domain = ctx.obs_domain;
    rec.template_id = Some(ctx.template_id);
    rec.export_time = ctx.export_time;
    rec.sequence = ctx.sequence;
    let mut start_sysup: Option<u32> = None;
    let mut end_sysup: Option<u32> = None;
    let ghost mut vals: Seq<Seq<u8>> = Seq::empty();
    let ghost start = row_start(ctx@);
    let mut i: usize = 0;
    assert(rec@ =~= start.row);
    while i < tpl.fields.len()
        invariant
            cur.wf(),
            fields == tpl@.fields,
            fields.len() == tpl.fields@.len(),
            start == row_start(ctx@),
            i <= fields.len(),
            vals.len() == i,
            record_bytes(fields, i as nat, old(cur)@) == Some((vals, cur@)),
            (RowState { row: rec@, start_sysup, end_sysup }) == with_fields(
                start,
                fields,
                vals,
                i as nat,
            ),
        decreases tpl.fields.len() - i,
    {
        let f = &tpl.fields[i];
        let ghost rest = cur@;
        assert(f@ == fields[i as int]);
        match take_field(f, cur) {
            None => {
                proof {
                    lemma_record_bytes_stuck(fields, (i + 1) as nat, fields.len(), old(cur)@);
                }
                return None;
            },
            Some(bytes) => {
                map_field(&mut rec, f, bytes, &mut start_sysup, &mut end_sysup);
                proof {
                    let more = vals.push(bytes@);
                    lemma_with_fields_prefix(start, fields, vals, more, i as nat);
                    vals = more;
                }
            },
        }
        i = i + 1;
    }
    resolve_times(&mut rec, ctx, start_sysup, end_sysup);
    Some(rec)
}

/// Read the bytes of a field.
fn take_field<'a>(f: &FieldSpec, cur: &mut Cursor<'a>) -> (r: Option<&'a [u8]>)
    requires
        old(cur).wf(),
    ensures
        final(cur).wf(),
        match r {
            Some(b) => field_bytes(f@, old(cur)@) == Some((b@, final(cur)@)),
            None => field_bytes(f@, old(cur)@) is None,
        },
{
    let len: usize = if f.is_variable() {
        match read_varlen(cur) {
            Some(n) => n,
            None => {
                return None;
            },
        }
    } else {
        f.length as usize
    };
    cur.take(len)
}

/// Read an IPFIX variable-length prefix (RFC 7011 §7): a single length byte, or
/// `0xFF` followed by a 2-byte length.
fn read_varlen(cur: &mut Cursor) -> (r: Option<usize>)
    requires
        old(cur).wf(),
    ensures
        final(cur).wf(),
        match r {
            Some(n) => varlen(old(cur)@) == Some((n as nat, final(cur)@)),
            None => varlen(old(cur)@) is None,
        },
{
    let first: u8 = cur.u8()?;
    if first < 255 {
        Some(first as usize)
    } else {
        let n: u16 = cur.u16()?;
        Some(n as usize)
    }
}

/// The first of two cells that is there.
fn or_inet(a: Option<InetVal>, b: Option<InetVal>) -> (r: Option<InetVal>)
    ensures
        opt_view(r) == or_cell(opt_view(a), opt_view(b)),
{
    match a {
        Some(v) => Some(v),
        None => b,
    }
}

/// Whether a name starts with an `e`.
fn starts_with_e(name: &str) -> (r: bool)
    ensures
        r == (name@.len() > 0 && name@[0] == 'e'),
{
    let cs = chars_of(name);
    cs.len() > 0 && cs[0] == 'e'
}

/// Map one decoded field's bytes onto the normalized record (or raw_fields).
#[verifier::rlimit(40)]
fn map_field(
    rec: &mut FlowRecord,
    f: &FieldSpec,
    bytes: &[u8],
    start_sysup: &mut Option<u32>,
    end_sysup: &mut Option<u32>,
)
    ensures
        (RowState {
            row: final(rec)@,
            start_sysup: *final(start_sysup),
            end_sysup: *final(end_sysup),
        }) == with_field(
            RowState { row: old(rec)@, start_sysup: *old(start_sysup), end_sysup: *old(end_sysup) },
            f@,
            bytes@,
        ),
{
    // Enterprise fields never populate normalized columns; preserve them raw.
    if f.enterprise_number != 0 {
        if starts_with_e(f.name.as_str()) && same_text(f.ie_type.as_str(), "octetArray") {
            rec.note("enterprise-unmapped");
        }
        rec.put_raw(f.name.clone(), slice_to_vec(bytes));
        return;
    }
    let u: u64 = be_uint(bytes);
    match f.ie_id {
        22 => {
            *start_sysup = Some(low32(u));
        },
        21 => {
            *end_sysup = Some(low32(u));
        },
        _ => {
            map_element(rec, f, u, bytes);
        },
    }
}

/// Put a standard element's value in its column, or in `raw_fields`.
#[verifier::rlimit(60)]
fn map_element(rec: &mut FlowRecord, f: &FieldSpec, u: u64, bytes: &[u8])
    requires
        u == uint_of(bytes@),
    ensures
        final(rec)@ == with_element(
            old(rec)@,
            f@.ie_id,
            u as nat,
            bytes@,
            (FlowView {
                raw_fields: old(rec)@.raw_fields.push((f@.name, bytes@)),
                ..old(rec)@
            }),
        ),
{
    match f.ie_id {
        8 | 130 => {
            rec.src_addr = or_inet(inet4(bytes), rec.src_addr);
        },
        27 | 131 => {
            rec.src_addr = or_inet(inet6(bytes), rec.src_addr);
        },
        12 | 226 => {
            rec.dst_addr = or_inet(inet4(bytes), rec.dst_addr);
        },
        28 => {
            rec.dst_addr = or_inet(inet6(bytes), rec.dst_addr);
        },
        7 | 180 | 182 => {
            rec.src_port = Some(low16(u));
        },
        11 | 181 | 183 => {
            rec.dst_port = Some(low16(u));
        },
        4 => {
            rec.protocol = Some(low8(u));
        },
        5 | 195 => {
            rec.tos = Some(low8(u));
        },
        6 => {
            rec.tcp_flags = Some(low8(u));
        },
        1 => {
            rec.bytes = Some(u);
        },
        23 | 85 | 351 | 352 => {
            if rec.bytes.is_none() {
                rec.bytes = Some(u);
            }
        },
        2 => {
            rec.packets = Some(u);
        },
        24 | 86 => {
            if rec.packets.is_none() {
                rec.packets = Some(u);
            }
        },
        10 => {
            rec.input_snmp = Some(low32(u));
        },
        14 => {
            rec.output_snmp = Some(low32(u));
        },
        16 => {
            rec.src_as = Some(low32(u));
        },
        17 => {
            rec.dst_as = Some(low32(u));
        },
        15 | 18 => {
            rec.next_hop = or_inet(inet4(bytes), rec.next_hop);
        },
        62 | 63 => {
            rec.next_hop = or_inet(inet6(bytes), rec.next_hop);
        },
        9 | 29 => {
            rec.src_mask = Some(low8(u));
        },
        13 | 30 => {
            rec.dst_mask = Some(low8(u));
        },
        34 | 305 => {
            rec.sampling_rate = Some(low32(u));
        },
        61 => {
            rec.direction = Some(low8(u));
        },
        150 => {
            rec.flow_start = Some(wrapped_product(u, 1_000_000));
        },
        151 => {
            rec.flow_end = Some(wrapped_product(u, 1_000_000));
        },
        152 => {
            rec.flow_start = Some(wrapped_product(u, 1_000));
        },
        153 => {
            rec.flow_end = Some(wrapped_product(u, 1_000));
        },
        154 | 156 => {
            let t = ntp_micros(bytes);
            if t.is_some() {
                rec.flow_start = t;
            }
        },
        155 | 157 => {
            let t = ntp_micros(bytes);
            if t.is_some() {
                rec.flow_end = t;
            }
        },
        _ => {
            rec.put_raw(f.name.clone(), slice_to_vec(bytes));
        },
    }
}

/// Resolve v9 sysUptime-delta flow times to absolute microseconds using the
/// datagram header (`export_time` minus header `sysUptime` = boot wallclock).
fn resolve_times(
    rec: &mut FlowRecord,
    ctx: &Ctx,
    start_sysup: Option<u32>,
    end_sysup: Option<u32>,
)
    ensures
        final(rec)@ == finished(RowState { row: old(rec)@, start_sysup, end_sysup }, ctx@),
{
    match (ctx.export_time, ctx.sys_uptime_ms) {
        (Some(export), Some(uptime)) => {
            if rec.flow_start.is_none() {
                if let Some(s) = start_sysup {
                    rec.flow_start = Some(wrapped_shift(export, uptime, s));
                }
            }
            if rec.flow_end.is_none() {
                if let Some(e) = end_sysup {
                    rec.flow_end = Some(wrapped_shift(export, uptime, e));
                }
            }
        },
        _ => {},
    }
}

/// Decode an 8-byte NTP timestamp (seconds since 1900 + 32-bit fraction) to
/// microseconds since the Unix epoch.
fn ntp_micros(bytes: &[u8]) -> (r: Option<i64>)
    ensures
        r == ntp_of(bytes@),
{
    if bytes.len() != 8 {
        return None;
    }
    let secs1900: u32 = be_u32(bytes[0], bytes[1], bytes[2], bytes[3]);
    let frac: u32 = be_u32(bytes[4], bytes[5], bytes[6], bytes[7]);
    proof {
        assert(bytes@.take(4) =~= seq![bytes@[0], bytes@[1], bytes@[2], bytes@[3]]);
        assert(bytes@.skip(4) =~= seq![bytes@[4], bytes@[5], bytes@[6], bytes@[7]]);
    }
    // 1900 to 1970 offset.
    let epoch_secs: i64 = secs1900 as i64 - 2_208_988_800;
    let frac_micros: u64 = frac as u64 * 1_000_000 / 0x1_0000_0000;
    Some(epoch_secs * 1_000_000 + frac_micros as i64)
}

} // verus!
