//! Normalized [`FlowRecord`]s as Arrow columns: the wide flow schema.
//!
//! Column types are chosen so that DuckDB sees the intended logical types:
//! unsigned Arrow integers become `U*` integers, microsecond timestamps in UTC
//! `TIMESTAMPTZ`, the `raw_fields` map `MAP(VARCHAR, BLOB)`, and the address
//! columns DuckDB's physical `INET` struct: `STRUCT(ip_type UInt8, address
//! FixedSizeBinary(16) as HUGEINT, mask UInt16)`, whose `address` child carries
//! the `arrow.opaque` / `hugeint` extension metadata.

use std::sync::Arc;

use arrow_schema::{DataType, Field, Schema};
use vstd::prelude::*;

use crate::columns::{
    annotated, batch_columns, batch_fields, batch_ok, bytes_cells, cells_bytes, columns_of,
    field_desc, field_descs, fixed_cells, fixed_type, joined, leaf_type, lemma_cells_bytes_prefix,
    lemma_cells_bytes_push, lemma_joined_prefix, lemma_joined_slice, lemma_joined_step,
    lemma_starts_ascend, list_cells, map_type, max_offset, micros_cell, micros_cells, micros_type,
    new_batch, new_field, new_schema, no_columns, push_bytes, push_fixed, push_map, push_micros,
    push_struct, push_text, push_u16, push_u32, push_u64, push_u8, schema_fields, start_of,
    struct_cells, struct_type, text_cell, text_cells, text_map, texts_fit, type_desc, u16_cell,
    u16_cells, u32_cell, u32_cells, u64_cell, u64_cells, u8_cell, u8_cells, values_of, Batch, Cell,
    ColumnView, Columns, FieldDesc, Leaf, TypeView, MAX_OFFSET,
};
use crate::fault::Fault;
use crate::inet::InetVal;
use crate::normalize::FlowRecord;

verus! {

/// The time zone of every timestamp.
pub const UTC: &'static str = "UTC";

/// The metadata key under which a column carries its comment.
pub const COMMENT: &'static str = "comment";

/// The columns of a flow row.
#[derive(Clone, Copy, Debug, PartialEq, Eq, Structural)]
pub enum Column {
    Exporter,
    FlowVersion,
    ObsDomain,
    TemplateId,
    ExportTime,
    Sequence,
    SrcAddr,
    DstAddr,
    SrcPort,
    DstPort,
    Protocol,
    TcpFlags,
    Octets,
    Packets,
    FlowStart,
    FlowEnd,
    SrcAs,
    DstAs,
    InputSnmp,
    OutputSnmp,
    NextHop,
    Tos,
    SrcMask,
    DstMask,
    SamplingRate,
    Direction,
    RawFields,
    Diagnostics,
}

/// The flow columns in order: name, column, and the comment that
/// `duckdb_columns().comment` shows.
pub const FLOW_COLUMNS: [(&'static str, Column, &'static str); 28] = [
    (
        "exporter",
        Column::Exporter,
        "Cache key / source device (as supplied via exporter:= or derived).",
    ),
    ("flow_version", Column::FlowVersion, "Wire format: '5', '9', '10' (IPFIX), or 'sflow5'."),
    (
        "obs_domain",
        Column::ObsDomain,
        "v9 source-id / IPFIX observation domain (template-id namespace).",
    ),
    ("template_id", Column::TemplateId, "v9/IPFIX template id; NULL for v5 / sFlow."),
    ("export_time", Column::ExportTime, "Datagram export time from the header (TIMESTAMPTZ)."),
    ("sequence", Column::Sequence, "Export sequence number (gap-detection key)."),
    ("src_addr", Column::SrcAddr, "Source IP as INET (cast ::INET for <<= containment joins)."),
    (
        "dst_addr",
        Column::DstAddr,
        "Destination IP as INET (cast ::INET for <<= containment joins).",
    ),
    ("src_port", Column::SrcPort, "L4 source port."),
    ("dst_port", Column::DstPort, "L4 destination port."),
    ("protocol", Column::Protocol, "IP protocol number (6=TCP, 17=UDP, ...)."),
    ("tcp_flags", Column::TcpFlags, "Cumulative TCP control flags."),
    ("bytes", Column::Octets, "Octet count (sFlow scaled by sampling_rate)."),
    ("packets", Column::Packets, "Packet count (sFlow = sampling_rate)."),
    ("flow_start", Column::FlowStart, "Flow start, resolved to TIMESTAMPTZ."),
    ("flow_end", Column::FlowEnd, "Flow end, resolved to TIMESTAMPTZ."),
    ("src_as", Column::SrcAs, "Origin AS number (when exported)."),
    ("dst_as", Column::DstAs, "Peer AS number (when exported)."),
    ("input_snmp", Column::InputSnmp, "Ingress interface ifIndex."),
    ("output_snmp", Column::OutputSnmp, "Egress interface ifIndex."),
    ("next_hop", Column::NextHop, "BGP/IP next hop as INET."),
    ("tos", Column::Tos, "IP ToS / DSCP byte."),
    ("src_mask", Column::SrcMask, "Source prefix length (v5/v9)."),
    ("dst_mask", Column::DstMask, "Destination prefix length (v5/v9)."),
    (
        "sampling_rate",
        Column::SamplingRate,
        "sFlow sampling N / IPFIX samplingInterval; NULL if none.",
    ),
    ("direction", Column::Direction, "flowDirection (0=ingress, 1=egress) when present."),
    ("raw_fields", Column::RawFields, "Every IE not mapped above, keyed by IE name → raw bytes."),
    (
        "diagnostics",
        Column::Diagnostics,
        "NULL on a clean decode; else missing-template/truncated/decode-error/...",
    ),
];

/// A field without metadata.
pub open spec fn plain_field(name: Seq<char>, ty: TypeView, nullable: bool) -> FieldDesc {
    FieldDesc { name, ty, nullable, metadata: Map::empty() }
}

/// A nullable column with a comment.
pub open spec fn commented_field(name: Seq<char>, ty: TypeView, comment: Seq<char>) -> FieldDesc {
    FieldDesc { name, ty, nullable: true, metadata: Map::empty().insert(COMMENT@, comment) }
}

/// The metadata by which DuckDB reads sixteen bytes as a `HUGEINT`.
pub open spec fn hugeint_annotation() -> Map<Seq<char>, Seq<char>> {
    Map::empty().insert("ARROW:extension:name"@, "arrow.opaque"@).insert(
        "ARROW:extension:metadata"@,
        "{\"type_name\":\"hugeint\",\"vendor_name\":\"DuckDB\"}"@,
    )
}

/// The three child fields of an `INET` struct.
pub open spec fn inet_fields() -> Seq<FieldDesc> {
    seq![
        plain_field("ip_type"@, TypeView::U8, false),
        FieldDesc {
            name: "address"@,
            ty: TypeView::Fixed(16),
            nullable: false,
            metadata: hugeint_annotation(),
        },
        plain_field("mask"@, TypeView::U16, false),
    ]
}

/// The two child fields of a `raw_fields` entry.
pub open spec fn entry_fields() -> Seq<FieldDesc> {
    seq![
        plain_field("key"@, TypeView::Utf8, false),
        plain_field("value"@, TypeView::Binary, true),
    ]
}

/// The field of the `raw_fields` entries.
pub open spec fn entries_field() -> FieldDesc {
    plain_field("entries"@, TypeView::Struct(entry_fields()), false)
}

impl Column {
    /// The Arrow type of the column.
    pub open spec fn ty(self) -> TypeView {
        match self {
            Column::Exporter | Column::FlowVersion | Column::Diagnostics => TypeView::Utf8,
            Column::Protocol | Column::TcpFlags | Column::Tos | Column::SrcMask | Column::DstMask
            | Column::Direction => TypeView::U8,
            Column::TemplateId | Column::SrcPort | Column::DstPort => TypeView::U16,
            Column::ObsDomain | Column::SrcAs | Column::DstAs | Column::InputSnmp
            | Column::OutputSnmp | Column::SamplingRate => TypeView::U32,
            Column::Sequence | Column::Octets | Column::Packets => TypeView::U64,
            Column::ExportTime | Column::FlowStart | Column::FlowEnd => TypeView::Micros(UTC@),
            Column::SrcAddr | Column::DstAddr | Column::NextHop => TypeView::Struct(inet_fields()),
            Column::RawFields => TypeView::MapOf(Box::new(entries_field())),
        }
    }
}

/// The cell of an address: type, little-endian `HUGEINT` and prefix length.
pub open spec fn address_cell(a: Option<InetVal>) -> Cell {
    match a {
        Some(v) => Cell::Struct(
            seq![Cell::Num(v.ip_type as int), Cell::Bytes(v.address_le@), Cell::Num(v.mask as int)],
        ),
        None => Cell::Null,
    }
}

/// The cell of one raw field: its name and its bytes.
pub open spec fn entry_cell(e: (String, Vec<u8>)) -> Cell {
    Cell::Struct(seq![Cell::Text(e.0@), Cell::Bytes(e.1@)])
}

/// The cells of raw fields, in order.
pub open spec fn entry_cells(raw: Seq<(String, Vec<u8>)>) -> Seq<Cell> {
    Seq::new(raw.len(), |i: int| entry_cell(raw[i]))
}

/// What a flow row has in a column.
pub open spec fn cell_of(r: FlowRecord, c: Column) -> Cell {
    match c {
        Column::Exporter => Cell::Text(r.exporter@),
        Column::FlowVersion => Cell::Text(r.flow_version@),
        Column::ObsDomain => Cell::Num(r.obs_domain as int),
        Column::TemplateId => u16_cell(r.template_id),
        Column::ExportTime => micros_cell(r.export_time),
        Column::Sequence => u64_cell(r.sequence),
        Column::SrcAddr => address_cell(r.src_addr),
        Column::DstAddr => address_cell(r.dst_addr),
        Column::SrcPort => u16_cell(r.src_port),
        Column::DstPort => u16_cell(r.dst_port),
        Column::Protocol => u8_cell(r.protocol),
        Column::TcpFlags => u8_cell(r.tcp_flags),
        Column::Octets => u64_cell(r.bytes),
        Column::Packets => u64_cell(r.packets),
        Column::FlowStart => micros_cell(r.flow_start),
        Column::FlowEnd => micros_cell(r.flow_end),
        Column::SrcAs => u32_cell(r.src_as),
        Column::DstAs => u32_cell(r.dst_as),
        Column::InputSnmp => u32_cell(r.input_snmp),
        Column::OutputSnmp => u32_cell(r.output_snmp),
        Column::NextHop => address_cell(r.next_hop),
        Column::Tos => u8_cell(r.tos),
        Column::SrcMask => u8_cell(r.src_mask),
        Column::DstMask => u8_cell(r.dst_mask),
        Column::SamplingRate => u32_cell(r.sampling_rate),
        Column::Direction => u8_cell(r.direction),
        Column::RawFields => Cell::List(entry_cells(r.raw_fields@)),
        Column::Diagnostics => text_cell(r.diagnostics),
    }
}

/// What flow rows have in a column.
pub open spec fn column_cells(rows: Seq<FlowRecord>, c: Column) -> Seq<Cell> {
    Seq::new(rows.len(), |i: int| cell_of(rows[i], c))
}

/// The columns that flow rows fill.
pub open spec fn flow_columns(rows: Seq<FlowRecord>) -> Seq<ColumnView> {
    Seq::new(
        FLOW_COLUMNS@.len(),
        |i: int|
            ColumnView { ty: FLOW_COLUMNS@[i].1.ty(), cells: column_cells(rows, FLOW_COLUMNS@[i].1) },
    )
}

/// The fields of the flow schema.
pub open spec fn flow_fields() -> Seq<FieldDesc> {
    Seq::new(
        FLOW_COLUMNS@.len(),
        |i: int|
            commented_field(FLOW_COLUMNS@[i].0@, FLOW_COLUMNS@[i].1.ty(), FLOW_COLUMNS@[i].2@),
    )
}

/// The raw fields of each row.
pub open spec fn raw_parts(rows: Seq<FlowRecord>) -> Seq<Seq<(String, Vec<u8>)>> {
    Seq::new(rows.len(), |i: int| rows[i].raw_fields@)
}

/// The raw fields of all rows, one behind another.
pub open spec fn all_raw(rows: Seq<FlowRecord>) -> Seq<(String, Vec<u8>)> {
    joined(raw_parts(rows))
}

/// The names of raw fields.
pub open spec fn key_cells(raw: Seq<(String, Vec<u8>)>) -> Seq<Cell> {
    Seq::new(raw.len(), |i: int| Cell::Text(raw[i].0@))
}

/// The bytes of raw fields.
pub open spec fn value_cells(raw: Seq<(String, Vec<u8>)>) -> Seq<Cell> {
    Seq::new(raw.len(), |i: int| Cell::Bytes(raw[i].1@))
}

/// Flow rows whose strings, raw fields and bytes each fit the 32-bit offsets of
/// one Arrow array.
pub open spec fn fit_one_batch(rows: Seq<FlowRecord>) -> bool {
    &&& cells_bytes(column_cells(rows, Column::Exporter)) <= max_offset()
    &&& cells_bytes(column_cells(rows, Column::FlowVersion)) <= max_offset()
    &&& cells_bytes(column_cells(rows, Column::Diagnostics)) <= max_offset()
    &&& all_raw(rows).len() <= max_offset()
    &&& cells_bytes(key_cells(all_raw(rows))) <= max_offset()
    &&& cells_bytes(value_cells(all_raw(rows))) <= max_offset()
}

/// The metadata by which DuckDB reads sixteen bytes as a `HUGEINT`.
fn hugeint_metadata() -> (r: Vec<(String, String)>)
    ensures
        text_map(r@) == hugeint_annotation(),
{
    let mut r: Vec<(String, String)> = Vec::new();
    r.push(("ARROW:extension:name".to_string(), "arrow.opaque".to_string()));
    let ghost one = r@;
    r.push(
        (
            "ARROW:extension:metadata".to_string(),
            "{\"type_name\":\"hugeint\",\"vendor_name\":\"DuckDB\"}".to_string(),
        ),
    );
    proof {
        assert(r@.drop_last() =~= one);
        assert(one.drop_last() =~= Seq::empty());
        reveal_with_fuel(text_map, 3);
    }
    r
}

/// The three child fields of the `INET` struct.
fn inet_child_fields() -> (r: Vec<Field>)
    ensures
        field_descs(r@) == inet_fields(),
{
    let mut r: Vec<Field> = Vec::new();
    r.push(new_field("ip_type", leaf_type(Leaf::U8), false));
    r.push(annotated(new_field("address", fixed_type(16), false), hugeint_metadata()));
    r.push(new_field("mask", leaf_type(Leaf::U16), false));
    assert(field_descs(r@) =~= inet_fields());
    r
}

/// The two child fields of a `raw_fields` entry.
fn entry_child_fields() -> (r: Vec<Field>)
    ensures
        field_descs(r@) == entry_fields(),
{
    let mut r: Vec<Field> = Vec::new();
    r.push(new_field("key", leaf_type(Leaf::Utf8), false));
    r.push(new_field("value", leaf_type(Leaf::Binary), true));
    assert(field_descs(r@) =~= entry_fields());
    r
}

/// The `entries` struct field of the `raw_fields` map, shared by the schema and
/// the column so that their types match exactly.
fn map_entries_field() -> (r: Field)
    ensures
        field_desc(r) == entries_field(),
{
    new_field("entries", struct_type(entry_child_fields()), false)
}

/// The Arrow type of a column.
fn column_type(c: Column) -> (r: DataType)
    ensures
        type_desc(r) == c.ty(),
{
    match c {
        Column::Exporter | Column::FlowVersion | Column::Diagnostics => leaf_type(Leaf::Utf8),
        Column::Protocol | Column::TcpFlags | Column::Tos | Column::SrcMask | Column::DstMask
        | Column::Direction => leaf_type(Leaf::U8),
        Column::TemplateId | Column::SrcPort | Column::DstPort => leaf_type(Leaf::U16),
        Column::ObsDomain | Column::SrcAs | Column::DstAs | Column::InputSnmp | Column::OutputSnmp
        | Column::SamplingRate => leaf_type(Leaf::U32),
        Column::Sequence | Column::Octets | Column::Packets => leaf_type(Leaf::U64),
        Column::ExportTime | Column::FlowStart | Column::FlowEnd => micros_type(UTC),
        Column::SrcAddr | Column::DstAddr | Column::NextHop => struct_type(inet_child_fields()),
        Column::RawFields => map_type(map_entries_field()),
    }
}

/// A nullable column field that carries a comment.
pub(crate) fn col(name: &str, ty: DataType, comment: &str) -> (r: Field)
    ensures
        field_desc(r) == commented_field(name@, type_desc(ty), comment@),
{
    let mut metadata: Vec<(String, String)> = Vec::new();
    metadata.push((COMMENT.to_string(), comment.to_string()));
    proof {
        assert(metadata@.drop_last() =~= Seq::empty());
        reveal_with_fuel(text_map, 2);
    }
    annotated(new_field(name, ty, true), metadata)
}

/// The normalized flow output schema: what every decode function binds to and
/// builds its rows against.
pub fn flow_schema() -> (r: Arc<Schema>)
    ensures
        schema_fields(*r) == flow_fields(),
{
    let mut fields: Vec<Field> = Vec::new();
    let columns = FLOW_COLUMNS;
    let mut i: usize = 0;
    while i < columns.len()
        invariant
            columns == FLOW_COLUMNS,
            i <= columns@.len(),
            field_descs(fields@) == flow_fields().take(i as int),
        decreases columns.len() - i,
    {
        let (name, column, comment) = columns[i];
        let ghost before = fields@;
        let field = col(name, column_type(column), comment);
        fields.push(field);
        i = i + 1;
        assert(field_descs(fields@) =~= field_descs(before).push(field_desc(field)));
        assert(flow_fields().take(i as int) =~= flow_fields().take(i - 1).push(
            flow_fields()[i - 1],
        ));
    }
    assert(flow_fields().take(i as int) =~= flow_fields());
    new_schema(fields)
}

/// What a flow row has in one of the text columns.
fn text_of(r: &FlowRecord, c: Column) -> (v: Option<String>)
    requires
        c.ty() == TypeView::Utf8,
    ensures
        text_cell(v) == cell_of(*r, c),
{
    match c {
        Column::Exporter => Some(r.exporter.clone()),
        Column::FlowVersion => Some(r.flow_version.clone()),
        Column::Diagnostics => r.diagnostics.clone(),
        _ => None,
    }
}

/// What flow rows have in one of the text columns.
fn text_values(rows: &[FlowRecord], c: Column) -> (v: Vec<Option<String>>)
    requires
        c.ty() == TypeView::Utf8,
    ensures
        text_cells(v@) == column_cells(rows@, c),
{
    let pick = |r: &FlowRecord| -> (o: Option<String>)
        requires
            c.ty() == TypeView::Utf8,
        ensures
            text_cell(o) == cell_of(*r, c),
    {
        text_of(r, c)
    };
    let v = values_of(rows, pick);
    assert(text_cells(v@) =~= column_cells(rows@, c));
    v
}

/// What a flow row has in one of the 8-bit columns.
fn u8_of(r: &FlowRecord, c: Column) -> (v: Option<u8>)
    requires
        c.ty() == TypeView::U8,
    ensures
        u8_cell(v) == cell_of(*r, c),
{
    match c {
        Column::Protocol => r.protocol,
        Column::TcpFlags => r.tcp_flags,
        Column::Tos => r.tos,
        Column::SrcMask => r.src_mask,
        Column::DstMask => r.dst_mask,
        Column::Direction => r.direction,
        _ => None,
    }
}

/// What flow rows have in one of the 8-bit columns.
fn u8_values(rows: &[FlowRecord], c: Column) -> (v: Vec<Option<u8>>)
    requires
        c.ty() == TypeView::U8,
    ensures
        u8_cells(v@) == column_cells(rows@, c),
{
    let pick = |r: &FlowRecord| -> (o: Option<u8>)
        requires
            c.ty() == TypeView::U8,
        ensures
            u8_cell(o) == cell_of(*r, c),
    {
        u8_of(r, c)
    };
    let v = values_of(rows, pick);
    assert(u8_cells(v@) =~= column_cells(rows@, c));
    v
}

/// What a flow row has in one of the 16-bit columns.
fn u16_of(r: &FlowRecord, c: Column) -> (v: Option<u16>)
    requires
        c.ty() == TypeView::U16,
    ensures
        u16_cell(v) == cell_of(*r, c),
{
    match c {
        Column::TemplateId => r.template_id,
        Column::SrcPort => r.src_port,
        Column::DstPort => r.dst_port,
        _ => None,
    }
}

/// What flow rows have in one of the 16-bit columns.
fn u16_values(rows: &[FlowRecord], c: Column) -> (v: Vec<Option<u16>>)
    requires
        c.ty() == TypeView::U16,
    ensures
        u16_cells(v@) == column_cells(rows@, c),
{
    let pick = |r: &FlowRecord| -> (o: Option<u16>)
        requires
            c.ty() == TypeView::U16,
        ensures
            u16_cell(o) == cell_of(*r, c),
    {
        u16_of(r, c)
    };
    let v = values_of(rows, pick);
    assert(u16_cells(v@) =~= column_cells(rows@, c));
    v
}

/// What a flow row has in one of the 32-bit columns.
fn u32_of(r: &FlowRecord, c: Column) -> (v: Option<u32>)
    requires
        c.ty() == TypeView::U32,
    ensures
        u32_cell(v) == cell_of(*r, c),
{
    match c {
        Column::ObsDomain => Some(r.obs_domain),
        Column::SrcAs => r.src_as,
        Column::DstAs => r.dst_as,
        Column::InputSnmp => r.input_snmp,
        Column::OutputSnmp => r.output_snmp,
        Column::SamplingRate => r.sampling_rate,
        _ => None,
    }
}

/// What flow rows have in one of the 32-bit columns.
fn u32_values(rows: &[FlowRecord], c: Column) -> (v: Vec<Option<u32>>)
    requires
        c.ty() == TypeView::U32,
    ensures
        u32_cells(v@) == column_cells(rows@, c),
{
    let pick = |r: &FlowRecord| -> (o: Option<u32>)
        requires
            c.ty() == TypeView::U32,
        ensures
            u32_cell(o) == cell_of(*r, c),
    {
        u32_of(r, c)
    };
    let v = values_of(rows, pick);
    assert(u32_cells(v@) =~= column_cells(rows@, c));
    v
}

/// What a flow row has in one of the 64-bit columns.
fn u64_of(r: &FlowRecord, c: Column) -> (v: Option<u64>)
    requires
        c.ty() == TypeView::U64,
    ensures
        u64_cell(v) == cell_of(*r, c),
{
    match c {
        Column::Sequence => r.sequence,
        Column::Octets => r.bytes,
        Column::Packets => r.packets,
        _ => None,
    }
}

/// What flow rows have in one of the 64-bit columns.
fn u64_values(rows: &[FlowRecord], c: Column) -> (v: Vec<Option<u64>>)
    requires
        c.ty() == TypeView::U64,
    ensures
        u64_cells(v@) == column_cells(rows@, c),
{
    let pick = |r: &FlowRecord| -> (o: Option<u64>)
        requires
            c.ty() == TypeView::U64,
        ensures
            u64_cell(o) == cell_of(*r, c),
    {
        u64_of(r, c)
    };
    let v = values_of(rows, pick);
    assert(u64_cells(v@) =~= column_cells(rows@, c));
    v
}

/// What a flow row has in one of the timestamp columns.
fn micros_of(r: &FlowRecord, c: Column) -> (v: Option<i64>)
    requires
        c.ty() == TypeView::Micros(UTC@),
    ensures
        micros_cell(v) == cell_of(*r, c),
{
    match c {
        Column::ExportTime => r.export_time,
        Column::FlowStart => r.flow_start,
        Column::FlowEnd => r.flow_end,
        _ => None,
    }
}

/// What flow rows have in one of the timestamp columns.
fn micros_values(rows: &[FlowRecord], c: Column) -> (v: Vec<Option<i64>>)
    requires
        c.ty() == TypeView::Micros(UTC@),
    ensures
        micros_cells(v@) == column_cells(rows@, c),
{
    let pick = |r: &FlowRecord| -> (o: Option<i64>)
        requires
            c.ty() == TypeView::Micros(UTC@),
        ensures
            micros_cell(o) == cell_of(*r, c),
    {
        micros_of(r, c)
    };
    let v = values_of(rows, pick);
    assert(micros_cells(v@) =~= column_cells(rows@, c));
    v
}

/// What a flow row has in one of the address columns.
fn address_of(r: &FlowRecord, c: Column) -> (v: Option<InetVal>)
    requires
        c.ty() == TypeView::Struct(inet_fields()),
    ensures
        address_cell(v) == cell_of(*r, c),
{
    match c {
        Column::SrcAddr => r.src_addr,
        Column::DstAddr => r.dst_addr,
        Column::NextHop => r.next_hop,
        _ => None,
    }
}

/// The parts that an address cell is built of: what stands under a null cell
/// does not matter.
spec fn address_parts(
    cell: Cell,
    ip_type: Option<u8>,
    address: [u8; 16],
    mask: Option<u16>,
    valid: bool,
) -> bool {
    &&& ip_type is Some
    &&& mask is Some
    &&& if valid {
        cell == address_cell(
            Some(InetVal { ip_type: ip_type->0, address_le: address, mask: mask->0 }),
        )
    } else {
        cell == Cell::Null
    }
}

/// Appends the `INET` struct column of one of the address columns.
fn build_inet(out: &mut Columns, rows: &[FlowRecord], c: Column)
    requires
        c.ty() == TypeView::Struct(inet_fields()),
    ensures
        columns_of(*final(out)) == columns_of(*old(out)).push(
            ColumnView { ty: c.ty(), cells: column_cells(rows@, c) },
        ),
{
    let mut ip_type: Vec<Option<u8>> = Vec::new();
    let mut address: Vec<[u8; 16]> = Vec::new();
    let mut mask: Vec<Option<u16>> = Vec::new();
    let mut valid: Vec<bool> = Vec::new();
    let mut i: usize = 0;
    while i < rows.len()
        invariant
            c.ty() == TypeView::Struct(inet_fields()),
            i <= rows@.len(),
            ip_type@.len() == i,
            address@.len() == i,
            mask@.len() == i,
            valid@.len() == i,
            forall|k: int|
                0 <= k < i ==> address_parts(
                    cell_of(rows@[k], c),
                    #[trigger] ip_type@[k],
                    address@[k],
                    mask@[k],
                    valid@[k],
                ),
        decreases rows.len() - i,
    {
        match address_of(&rows[i], c) {
            Some(v) => {
                ip_type.push(Some(v.ip_type));
                address.push(v.address_le);
                mask.push(Some(v.mask));
                valid.push(true);
            },
            None => {
                ip_type.push(Some(0));
                address.push([0u8; 16]);
                mask.push(Some(0));
                valid.push(false);
            },
        }
        i = i + 1;
    }
    let ghost (t, a, m) = (ip_type@, address@, mask@);
    let mut children = no_columns();
    push_u8(&mut children, ip_type);
    push_fixed(&mut children, address);
    push_u16(&mut children, mask);
    let fields = inet_child_fields();
    proof {
        let ch = columns_of(children);
        assert(ch[0].cells =~= u8_cells(t));
        assert(ch[1].cells =~= fixed_cells(a));
        assert(ch[2].cells =~= u16_cells(m));
        assert forall|k: int| 0 <= k < t.len() implies #[trigger] u8_cells(t)[k] != Cell::Null by {
            assert(t[k] is Some);
        }
        assert forall|k: int| 0 <= k < m.len() implies #[trigger] u16_cells(m)[k]
            != Cell::Null by {
            assert(t[k] is Some);
        }
        assert forall|k: int| 0 <= k < valid@.len() implies #[trigger] struct_cells(ch, valid@)[k]
            == cell_of(rows@[k], c) by {
            assert(t[k] is Some);
            if valid@[k] {
                assert(Seq::new(ch.len(), |j: int| ch[j].cells[k]) =~= seq![
                    u8_cell(t[k]),
                    Cell::Bytes(a[k]@),
                    u16_cell(m[k]),
                ]);
            }
        }
        assert(struct_cells(ch, valid@) =~= column_cells(rows@, c));
    }
    push_struct(out, fields, children, valid);
}

/// Appends the `raw_fields` map column: one map per row.
fn build_raw_fields(out: &mut Columns, rows: &[FlowRecord])
    requires
        fit_one_batch(rows@),
    ensures
        columns_of(*final(out)) == columns_of(*old(out)).push(
            ColumnView {
                ty: Column::RawFields.ty(),
                cells: column_cells(rows@, Column::RawFields),
            },
        ),
{
    let ghost parts = raw_parts(rows@);
    let mut keys: Vec<Option<String>> = Vec::new();
    let mut values: Vec<Vec<u8>> = Vec::new();
    let mut offsets: Vec<i32> = Vec::new();
    let mut valid: Vec<bool> = Vec::new();
    offsets.push(0);
    let mut i: usize = 0;
    assert(parts.take(0) =~= Seq::empty());
    while i < rows.len()
        invariant
            fit_one_batch(rows@),
            parts == raw_parts(rows@),
            i <= rows@.len(),
            text_cells(keys@) == key_cells(joined(parts.take(i as int))),
            bytes_cells(values@) == value_cells(joined(parts.take(i as int))),
            keys@.len() == values@.len() == valid@.len(),
            forall|k: int| 0 <= k < valid@.len() ==> valid@[k],
            forall|k: int| 0 <= k < keys@.len() ==> (#[trigger] keys@[k]) is Some,
            offsets@.len() == i + 1,
            forall|k: int| 0 <= k <= i ==> offsets@[k] == #[trigger] start_of(parts, k),
        decreases rows.len() - i,
    {
        let ghost before = joined(parts.take(i as int));
        let raw = &rows[i].raw_fields;
        proof {
            lemma_joined_step(parts, i as int);
            lemma_joined_prefix(parts, i + 1);
            assert(keys@.len() == text_cells(keys@).len());
        }
        let mut j: usize = 0;
        while j < raw.len()
            invariant
                j <= raw@.len(),
                raw@ == rows@[i as int].raw_fields@,
                keys@.len() == values@.len() == valid@.len() == before.len() + j,
                forall|k: int| 0 <= k < valid@.len() ==> valid@[k],
                forall|k: int| 0 <= k < keys@.len() ==> (#[trigger] keys@[k]) is Some,
                text_cells(keys@) == key_cells(before + raw@.take(j as int)),
                bytes_cells(values@) == value_cells(before + raw@.take(j as int)),
            decreases raw.len() - j,
        {
            let ghost (ks, vs) = (keys@, values@);
            keys.push(Some(raw[j].0.clone()));
            values.push(raw[j].1.clone());
            valid.push(true);
            j = j + 1;
            proof {
                let old_part = before + raw@.take(j - 1);
                let part = before + raw@.take(j as int);
                assert(part =~= old_part.push(raw@[j - 1]));
                assert(text_cells(keys@) =~= text_cells(ks).push(Cell::Text(raw@[j - 1].0@)));
                assert(key_cells(part) =~= key_cells(old_part).push(Cell::Text(raw@[j - 1].0@)));
                assert(values@.last()@ =~= raw@[j - 1].1@);
                assert(bytes_cells(values@) =~= bytes_cells(vs).push(Cell::Bytes(raw@[j - 1].1@)));
                assert(value_cells(part) =~= value_cells(old_part).push(
                    Cell::Bytes(raw@[j - 1].1@),
                ));
            }
        }
        proof {
            assert(raw@.take(j as int) =~= raw@);
            assert(keys@.len() == start_of(parts, i + 1));
        }
        offsets.push(keys.len() as i32);
        i = i + 1;
    }
    let ghost all = all_raw(rows@);
    let ghost ks = keys@;
    proof {
        assert(parts.take(i as int) =~= parts);
        assert(keys@.len() == text_cells(keys@).len());
        assert(offsets@[0] == start_of(parts, 0));
        assert forall|a: int, b: int| 0 <= a < b < offsets@.len() implies offsets@[a]
            <= offsets@[b] by {
            lemma_starts_ascend(parts, a, b);
        }
        assert(offsets@.last() == start_of(parts, i as int));
    }
    let mut pair = no_columns();
    push_text(&mut pair, keys);
    push_bytes(&mut pair, values);
    let mut entries = no_columns();
    proof {
        assert forall|k: int| 0 <= k < ks.len() implies #[trigger] text_cells(ks)[k]
            != Cell::Null by {
            assert(ks[k] is Some);
        }
    }
    push_struct(&mut entries, entry_child_fields(), pair, valid);
    proof {
        let items = columns_of(entries)[0].cells;
        assert forall|k: int| 0 <= k < all.len() implies #[trigger] items[k] == entry_cell(
            all[k],
        ) by {
            assert(Seq::new(columns_of(pair).len(), |j: int| columns_of(pair)[j].cells[k])
                =~= seq![Cell::Text(all[k].0@), Cell::Bytes(all[k].1@)]);
        }
        assert(items =~= entry_cells(all));
        assert forall|k: int| 0 <= k < rows@.len() implies #[trigger] list_cells(
            items,
            offsets@,
        )[k] == cell_of(rows@[k], Column::RawFields) by {
            lemma_joined_slice(parts, k);
            assert(items.subrange(offsets@[k] as int, offsets@[k + 1] as int) =~= entry_cells(
                rows@[k].raw_fields@,
            )) by {
                assert(offsets@[k] == start_of(parts, k));
                assert(offsets@[k + 1] == start_of(parts, k + 1));
                let (a, b) = (start_of(parts, k), start_of(parts, k + 1));
                assert forall|x: int| 0 <= x < b - a implies #[trigger] items.subrange(a, b)[x]
                    == entry_cells(rows@[k].raw_fields@)[x] by {
                    assert(all.subrange(a, b)[x] == all[a + x]);
                }
            }
        }
        assert(list_cells(items, offsets@) =~= column_cells(rows@, Column::RawFields));
    }
    push_map(out, map_entries_field(), offsets, entries);
}

/// Appends one column of flow rows.
fn push_column(out: &mut Columns, rows: &[FlowRecord], c: Column)
    requires
        fit_one_batch(rows@),
    ensures
        columns_of(*final(out)) == columns_of(*old(out)).push(
            ColumnView { ty: c.ty(), cells: column_cells(rows@, c) },
        ),
{
    match c {
        Column::Exporter | Column::FlowVersion | Column::Diagnostics => push_text(
            out,
            text_values(rows, c),
        ),
        Column::Protocol | Column::TcpFlags | Column::Tos | Column::SrcMask | Column::DstMask
        | Column::Direction => push_u8(out, u8_values(rows, c)),
        Column::TemplateId | Column::SrcPort | Column::DstPort => push_u16(
            out,
            u16_values(rows, c),
        ),
        Column::ObsDomain | Column::SrcAs | Column::DstAs | Column::InputSnmp | Column::OutputSnmp
        | Column::SamplingRate => push_u32(out, u32_values(rows, c)),
        Column::Sequence | Column::Octets | Column::Packets => push_u64(out, u64_values(rows, c)),
        Column::ExportTime | Column::FlowStart | Column::FlowEnd => push_micros(
            out,
            micros_values(rows, c),
            UTC,
        ),
        Column::SrcAddr | Column::DstAddr | Column::NextHop => build_inet(out, rows, c),
        Column::RawFields => build_raw_fields(out, rows),
    }
}

/// Builds a batch, against `schema`, of decoded rows. It is refused exactly where
/// the schema does not fit the flow columns.
pub fn rows_to_batch(rows: &[FlowRecord], schema: &Arc<Schema>) -> (r: Result<Batch, Fault>)
    requires
        fit_one_batch(rows@),
    ensures
        r is Ok <==> batch_ok(schema_fields(**schema), flow_columns(rows@)),
        r matches Ok(b) ==> batch_columns(b) == flow_columns(rows@),
        r matches Ok(b) ==> batch_fields(b) == schema_fields(**schema),
        r matches Err(e) ==> e is Arrow,
{
    let mut out = no_columns();
    let columns = FLOW_COLUMNS;
    let mut i: usize = 0;
    while i < columns.len()
        invariant
            fit_one_batch(rows@),
            columns == FLOW_COLUMNS,
            i <= columns@.len(),
            columns_of(out) == flow_columns(rows@).take(i as int),
        decreases columns.len() - i,
    {
        push_column(&mut out, rows, columns[i].1);
        i = i + 1;
        assert(flow_columns(rows@).take(i as int) =~= flow_columns(rows@).take(i - 1).push(
            flow_columns(rows@)[i - 1],
        ));
    }
    assert(flow_columns(rows@).take(i as int) =~= flow_columns(rows@));
    match new_batch(schema, out) {
        Ok(b) => Ok(b),
        Err(e) => Err(Fault::Arrow(e)),
    }
}

/// Flow rows always make up a batch under the flow schema.
pub proof fn lemma_rows_fit_flow_schema(rows: Seq<FlowRecord>)
    ensures
        batch_ok(flow_fields(), flow_columns(rows)),
{
}

/// Whether the raw fields of all rows fit one Arrow array.
fn raw_fits(rows: &[FlowRecord]) -> (r: bool)
    ensures
        r == {
            &&& all_raw(rows@).len() <= max_offset()
            &&& cells_bytes(key_cells(all_raw(rows@))) <= max_offset()
            &&& cells_bytes(value_cells(all_raw(rows@))) <= max_offset()
        },
{
    let ghost parts = raw_parts(rows@);
    let ghost all = all_raw(rows@);
    let mut count: u64 = 0;
    let mut keys: u64 = 0;
    let mut values: u64 = 0;
    let mut i: usize = 0;
    assert(parts.take(0) =~= Seq::empty());
    assert(key_cells(Seq::empty()) =~= Seq::empty());
    assert(value_cells(Seq::empty()) =~= Seq::empty());
    while i < rows.len()
        invariant
            all == all_raw(rows@),
            parts == raw_parts(rows@),
            i <= rows@.len(),
            count == joined(parts.take(i as int)).len(),
            keys == cells_bytes(key_cells(joined(parts.take(i as int)))),
            values == cells_bytes(value_cells(joined(parts.take(i as int)))),
            count <= max_offset(),
            keys <= max_offset(),
            values <= max_offset(),
        decreases rows.len() - i,
    {
        let ghost before = joined(parts.take(i as int));
        let raw = &rows[i].raw_fields;
        proof {
            lemma_joined_step(parts, i as int);
            lemma_joined_prefix(parts, i + 1);
            assert(before + raw@.take(0) =~= before);
        }
        let mut j: usize = 0;
        while j < raw.len()
            invariant
                all == all_raw(rows@),
                i < rows@.len(),
                j <= raw@.len(),
                raw@ == rows@[i as int].raw_fields@,
                all.take((before + raw@).len() as int) == before + raw@,
                (before + raw@).len() <= all.len(),
                count == before.len() + j,
                keys == cells_bytes(key_cells(before + raw@.take(j as int))),
                values == cells_bytes(value_cells(before + raw@.take(j as int))),
                count <= max_offset(),
                keys <= max_offset(),
                values <= max_offset(),
            decreases raw.len() - j,
        {
            let k: usize = raw[j].0.as_str().as_bytes().len();
            let v: usize = raw[j].1.len();
            proof {
                let part = before + raw@.take(j as int);
                let next = before + raw@.take(j + 1);
                assert(next =~= part.push(raw@[j as int]));
                assert(key_cells(next) =~= key_cells(part).push(Cell::Text(raw@[j as int].0@)));
                assert(value_cells(next) =~= value_cells(part).push(
                    Cell::Bytes(raw@[j as int].1@),
                ));
                lemma_cells_bytes_push(key_cells(part), Cell::Text(raw@[j as int].0@));
                lemma_cells_bytes_push(value_cells(part), Cell::Bytes(raw@[j as int].1@));
                let n = next.len() as int;
                assert(all.take(n) =~= next) by {
                    assert forall|x: int| 0 <= x < n implies all[x] == #[trigger] next[x] by {
                        assert(all.take((before + raw@).len() as int)[x] == (before + raw@)[x]);
                    }
                }
                assert(key_cells(all).take(n) =~= key_cells(next));
                assert(value_cells(all).take(n) =~= value_cells(next));
                lemma_cells_bytes_prefix(key_cells(all), n);
                lemma_cells_bytes_prefix(value_cells(all), n);
            }
            if count >= MAX_OFFSET || k as u64 > MAX_OFFSET - keys || v as u64 > MAX_OFFSET
                - values {
                return false;
            }
            count = count + 1;
            keys = keys + k as u64;
            values = values + v as u64;
            j = j + 1;
        }
        assert(raw@.take(j as int) =~= raw@);
        i = i + 1;
    }
    assert(parts.take(i as int) =~= parts);
    true
}

/// Whether flow rows fit one batch.
pub fn rows_fit(rows: &[FlowRecord]) -> (r: bool)
    ensures
        r == fit_one_batch(rows@),
{
    texts_fit(&text_values(rows, Column::Exporter)) && texts_fit(
        &text_values(rows, Column::FlowVersion),
    ) && texts_fit(&text_values(rows, Column::Diagnostics)) && raw_fits(rows)
}

} // verus!
