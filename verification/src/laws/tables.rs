//! What stands in which column of a result.

use vstd::prelude::*;

use crate::arrow_map::{
    entries_field, entry_cells, entry_fields, flow_columns, flow_fields, inet_fields, FLOW_COLUMNS,
};
use crate::cache::{EntryView, KeyView, TemplateKind};
use crate::columns::{Cell, ColumnView, FieldDesc, TypeView};
use crate::decode::header::{format_of, header_of, ExportHeader, Format};
use crate::inet::InetVal;
use crate::keymap::{key_lt, lemma_ordered_keys, pairs};
use crate::laws::wire::soundness::lemma_format_by_first_bytes;
use crate::normalize::FlowRecord;
use crate::scalar::flow_version::version_cells;
use crate::scalar::header::{header_cell, header_fields, headers_of};
use crate::scalar::well_formed::{verdict_cell, verdict_fields, verdicts_of};
use crate::templates::{
    is_wanted, item_desc, listed, spec_cells, spec_fields, template_columns, template_fields,
    TEMPLATE_COLUMNS,
};
use crate::wellformed::{verdict, VerdictView};

verus! {

/// A column of some name and type shows some cell in some row.
pub open spec fn shows(
    fields: Seq<FieldDesc>,
    columns: Seq<ColumnView>,
    k: int,
    name: Seq<char>,
    ty: TypeView,
    row: int,
    cell: Cell,
) -> bool {
    &&& fields[k].name == name
    &&& fields[k].ty == ty
    &&& fields[k].nullable
    &&& columns[k].ty == ty
    &&& columns[k].cells[row] == cell
}

/// A number, or nothing.
pub open spec fn maybe(n: Option<int>) -> Cell {
    match n {
        Some(n) => Cell::Num(n),
        None => Cell::Null,
    }
}

/// Widening what may be missing.
pub open spec fn wide8(n: Option<u8>) -> Option<int> {
    match n {
        Some(n) => Some(n as int),
        None => None,
    }
}

/// Widening what may be missing.
pub open spec fn wide16(n: Option<u16>) -> Option<int> {
    match n {
        Some(n) => Some(n as int),
        None => None,
    }
}

/// Widening what may be missing.
pub open spec fn wide32(n: Option<u32>) -> Option<int> {
    match n {
        Some(n) => Some(n as int),
        None => None,
    }
}

/// Widening what may be missing.
pub open spec fn wide64(n: Option<u64>) -> Option<int> {
    match n {
        Some(n) => Some(n as int),
        None => None,
    }
}

/// Widening what may be missing.
pub open spec fn wide_time(n: Option<i64>) -> Option<int> {
    match n {
        Some(n) => Some(n as int),
        None => None,
    }
}

/// Text, or nothing.
pub open spec fn maybe_text(t: Option<Seq<char>>) -> Cell {
    match t {
        Some(t) => Cell::Text(t),
        None => Cell::Null,
    }
}

/// An address: its family, its sixteen bytes and its prefix length.
pub open spec fn host(a: Option<InetVal>) -> Cell {
    match a {
        Some(v) => Cell::Struct(
            seq![Cell::Num(v.ip_type as int), Cell::Bytes(v.address_le@), Cell::Num(v.mask as int)],
        ),
        None => Cell::Null,
    }
}

/// The type of a moment.
pub open spec fn moments() -> TypeView {
    TypeView::Micros("UTC"@)
}

/// A field without metadata.
pub open spec fn bare(name: Seq<char>, ty: TypeView, nullable: bool) -> FieldDesc {
    FieldDesc { name, ty, nullable, metadata: Map::empty() }
}

/// The type of an address: the sixteen bytes are marked as a `HUGEINT`.
pub open spec fn hosts() -> TypeView {
    TypeView::Struct(
        seq![
            bare("ip_type"@, TypeView::U8, false),
            FieldDesc {
                name: "address"@,
                ty: TypeView::Fixed(16),
                nullable: false,
                metadata: Map::empty().insert("ARROW:extension:name"@, "arrow.opaque"@).insert(
                    "ARROW:extension:metadata"@,
                    "{\"type_name\":\"hugeint\",\"vendor_name\":\"DuckDB\"}"@,
                ),
            },
            bare("mask"@, TypeView::U16, false),
        ],
    )
}

/// The type of the fields that have no column: names and bytes.
pub open spec fn named_bytes() -> TypeView {
    TypeView::MapOf(
        Box::new(
            bare(
                "entries"@,
                TypeView::Struct(
                    seq![
                        bare("key"@, TypeView::Utf8, false),
                        bare("value"@, TypeView::Binary, true),
                    ],
                ),
                false,
            ),
        ),
    )
}

/// Each value of a flow row stands in the column of its own name: twenty-eight columns,
/// one row of cells per flow row.
#[verifier::rlimit(40)]
pub proof fn lemma_flow_table(rows: Seq<FlowRecord>, i: int)
    requires
        0 <= i < rows.len(),
    ensures
        ({
            let f = flow_fields();
            let c = flow_columns(rows);
            let r = rows[i];
            &&& f.len() == 28
            &&& c.len() == 28
            &&& forall|k: int| 0 <= k < 28 ==> (#[trigger] c[k]).cells.len() == rows.len()
            &&& shows(f, c, 0, "exporter"@, TypeView::Utf8, i, Cell::Text(r.exporter@))
            &&& shows(f, c, 1, "flow_version"@, TypeView::Utf8, i, Cell::Text(r.flow_version@))
            &&& shows(f, c, 2, "obs_domain"@, TypeView::U32, i, Cell::Num(r.obs_domain as int))
            &&& shows(f, c, 3, "template_id"@, TypeView::U16, i, maybe(wide16(r.template_id)))
            &&& shows(f, c, 4, "export_time"@, moments(), i, maybe(wide_time(r.export_time)))
            &&& shows(f, c, 5, "sequence"@, TypeView::U64, i, maybe(wide64(r.sequence)))
            &&& shows(f, c, 6, "src_addr"@, hosts(), i, host(r.src_addr))
            &&& shows(f, c, 7, "dst_addr"@, hosts(), i, host(r.dst_addr))
            &&& shows(f, c, 8, "src_port"@, TypeView::U16, i, maybe(wide16(r.src_port)))
            &&& shows(f, c, 9, "dst_port"@, TypeView::U16, i, maybe(wide16(r.dst_port)))
            &&& shows(f, c, 10, "protocol"@, TypeView::U8, i, maybe(wide8(r.protocol)))
            &&& shows(f, c, 11, "tcp_flags"@, TypeView::U8, i, maybe(wide8(r.tcp_flags)))
            &&& shows(f, c, 12, "bytes"@, TypeView::U64, i, maybe(wide64(r.bytes)))
            &&& shows(f, c, 13, "packets"@, TypeView::U64, i, maybe(wide64(r.packets)))
            &&& shows(f, c, 14, "flow_start"@, moments(), i, maybe(wide_time(r.flow_start)))
            &&& shows(f, c, 15, "flow_end"@, moments(), i, maybe(wide_time(r.flow_end)))
            &&& shows(f, c, 16, "src_as"@, TypeView::U32, i, maybe(wide32(r.src_as)))
            &&& shows(f, c, 17, "dst_as"@, TypeView::U32, i, maybe(wide32(r.dst_as)))
            &&& shows(f, c, 18, "input_snmp"@, TypeView::U32, i, maybe(wide32(r.input_snmp)))
            &&& shows(f, c, 19, "output_snmp"@, TypeView::U32, i, maybe(wide32(r.output_snmp)))
            &&& shows(f, c, 20, "next_hop"@, hosts(), i, host(r.next_hop))
            &&& shows(f, c, 21, "tos"@, TypeView::U8, i, maybe(wide8(r.tos)))
            &&& shows(f, c, 22, "src_mask"@, TypeView::U8, i, maybe(wide8(r.src_mask)))
            &&& shows(f, c, 23, "dst_mask"@, TypeView::U8, i, maybe(wide8(r.dst_mask)))
            &&& shows(f, c, 24, "sampling_rate"@, TypeView::U32, i, maybe(wide32(r.sampling_rate)))
            &&& shows(f, c, 25, "direction"@, TypeView::U8, i, maybe(wide8(r.direction)))
            &&& shows(
                f,
                c,
                26,
                "raw_fields"@,
                named_bytes(),
                i,
                Cell::List(
                    Seq::new(
                        r.raw_fields@.len(),
                        |j: int|
                            Cell::Struct(
                                seq![
                                    Cell::Text(r.raw_fields@[j].0@),
                                    Cell::Bytes(r.raw_fields@[j].1@),
                                ],
                            ),
                    ),
                ),
            )
            &&& shows(
                f,
                c,
                27,
                "diagnostics"@,
                TypeView::Utf8,
                i,
                maybe_text(
                    match r.diagnostics {
                        Some(t) => Some(t@),
                        None => None,
                    },
                ),
            )
        }),
{
    assert(FLOW_COLUMNS@.len() == 28);
    let r = rows[i];
    assert(inet_fields() =~= hosts()->Struct_0);
    assert(entry_fields() =~= named_bytes()->MapOf_0.ty->Struct_0);
    assert(entries_field() == *named_bytes()->MapOf_0);
    assert(entry_cells(r.raw_fields@) =~= Seq::new(
        r.raw_fields@.len(),
        |j: int|
            Cell::Struct(
                seq![Cell::Text(r.raw_fields@[j].0@), Cell::Bytes(r.raw_fields@[j].1@)],
            ),
    ));
}

/// The type of a list of field specifiers.
pub open spec fn specifiers() -> TypeView {
    TypeView::List(
        Box::new(
            bare(
                "item"@,
                TypeView::Struct(
                    seq![
                        bare("ie_id"@, TypeView::U16, false),
                        bare("enterprise"@, TypeView::U32, false),
                        bare("length"@, TypeView::U16, false),
                        bare("name"@, TypeView::Utf8, false),
                        bare("ie_type"@, TypeView::Utf8, false),
                    ],
                ),
                false,
            ),
        ),
    )
}

/// Each value of a listed template stands in the column of its own name: ten columns, one
/// row of cells per template.
#[verifier::rlimit(40)]
pub proof fn lemma_template_table(ts: Seq<(KeyView, EntryView)>, i: int)
    requires
        0 <= i < ts.len(),
    ensures
        ({
            let f = template_fields();
            let c = template_columns(ts);
            let (key, entry) = ts[i];
            let kind = if entry.kind == TemplateKind::Data {
                "data"@
            } else {
                "options"@
            };
            &&& f.len() == 10
            &&& c.len() == 10
            &&& forall|k: int| 0 <= k < 10 ==> (#[trigger] c[k]).cells.len() == ts.len()
            &&& shows(f, c, 0, "exporter"@, TypeView::Utf8, i, Cell::Text(key.exporter))
            &&& shows(f, c, 1, "obs_domain"@, TypeView::U32, i, Cell::Num(key.obs_domain as int))
            &&& shows(f, c, 2, "template_id"@, TypeView::U16, i, Cell::Num(key.template_id as int))
            &&& shows(f, c, 3, "kind"@, TypeView::Utf8, i, Cell::Text(kind))
            &&& f[4].name == "field_count"@
            &&& entry.fields.len() <= 0xFFFF_FFFF ==> shows(
                f,
                c,
                4,
                "field_count"@,
                TypeView::U32,
                i,
                Cell::Num(entry.fields.len() as int),
            )
            &&& shows(
                f,
                c,
                5,
                "fields"@,
                specifiers(),
                i,
                Cell::List(
                    Seq::new(
                        entry.fields.len(),
                        |j: int|
                            Cell::Struct(
                                seq![
                                    Cell::Num(entry.fields[j].ie_id as int),
                                    Cell::Num(entry.fields[j].enterprise_number as int),
                                    Cell::Num(entry.fields[j].length as int),
                                    Cell::Text(entry.fields[j].name),
                                    Cell::Text(entry.fields[j].ie_type),
                                ],
                            ),
                    ),
                ),
            )
            &&& shows(
                f,
                c,
                6,
                "scope_field_count"@,
                TypeView::U16,
                i,
                Cell::Num(entry.scope_field_count as int),
            )
            &&& shows(f, c, 7, "first_seen"@, moments(), i, Cell::Num(entry.first_seen as int))
            &&& shows(f, c, 8, "last_seen"@, moments(), i, Cell::Num(entry.last_seen as int))
            &&& shows(f, c, 9, "use_count"@, TypeView::U64, i, Cell::Num(entry.use_count as int))
        }),
{
    assert(TEMPLATE_COLUMNS@.len() == 10);
    let entry = ts[i].1;
    assert(spec_fields() =~= specifiers()->List_0.ty->Struct_0);
    assert(item_desc() == *specifiers()->List_0);
    assert(spec_cells(entry.fields) =~= Seq::new(
        entry.fields.len(),
        |j: int|
            Cell::Struct(
                seq![
                    Cell::Num(entry.fields[j].ie_id as int),
                    Cell::Num(entry.fields[j].enterprise_number as int),
                    Cell::Num(entry.fields[j].length as int),
                    Cell::Text(entry.fields[j].name),
                    Cell::Text(entry.fields[j].ie_type),
                ],
            ),
    ));
}

/// A part of a struct shows some cell under its name.
pub open spec fn holds(
    fields: Seq<FieldDesc>,
    c: Cell,
    k: int,
    name: Seq<char>,
    ty: TypeView,
    part: Cell,
) -> bool {
    &&& fields[k].name == name
    &&& fields[k].ty == ty
    &&& fields[k].nullable
    &&& c matches Cell::Struct(parts) && parts.len() == fields.len() && parts[k] == part
}

/// Each value of an export header stands under its own name; without a header there is
/// nothing.
pub proof fn lemma_header_cell(h: ExportHeader)
    ensures
        ({
            let f = header_fields();
            let c = header_cell(Some(h));
            &&& f.len() == 6
            &&& holds(f, c, 0, "version"@, TypeView::U16, Cell::Num(h.version as int))
            &&& holds(f, c, 1, "count"@, TypeView::U16, maybe(wide16(h.count)))
            &&& holds(f, c, 2, "sys_uptime"@, TypeView::U32, maybe(wide32(h.sys_uptime)))
            &&& holds(f, c, 3, "export_time"@, moments(), maybe(wide_time(h.export_time)))
            &&& holds(f, c, 4, "sequence"@, TypeView::U64, maybe(wide64(h.sequence)))
            &&& holds(f, c, 5, "obs_domain"@, TypeView::U32, maybe(wide32(h.obs_domain)))
        }),
        header_cell(None) == Cell::Null,
{
}

/// The header is shown row by row: nothing for a null and for what has none, and without
/// count and uptime for sFlow.
pub proof fn lemma_headers_shown(ds: Seq<Option<Seq<u8>>>, i: int)
    requires
        0 <= i < ds.len(),
    ensures
        headers_of(ds).len() == ds.len(),
        ds[i] is None ==> headers_of(ds)[i] is None,
        ds[i] matches Some(d) ==> {
            &&& headers_of(ds)[i] is None <==> header_of(d) is None
            &&& headers_of(ds)[i] matches Some(h) ==> {
                let full = header_of(d)->0;
                &&& h.version == full.version
                &&& h.export_time == full.export_time
                &&& h.sequence == full.sequence
                &&& h.obs_domain == full.obs_domain
                &&& h.count == if format_of(d) == Some(Format::Sflow) {
                    None
                } else {
                    full.count
                }
                &&& h.sys_uptime == if format_of(d) == Some(Format::Sflow) {
                    None
                } else {
                    full.sys_uptime
                }
            }
        },
{
}

/// Each part of a verdict stands under its own name; a null datagram gives a null.
pub proof fn lemma_verdict_cell(v: VerdictView)
    ensures
        ({
            let f = verdict_fields();
            let c = verdict_cell(Some(v));
            &&& f.len() == 4
            &&& holds(f, c, 0, "ok"@, TypeView::Bool, Cell::Bool(v.ok))
            &&& holds(f, c, 1, "version"@, TypeView::Utf8, maybe_text(v.version))
            &&& holds(f, c, 2, "error"@, TypeView::Utf8, maybe_text(v.error))
            &&& holds(f, c, 3, "kind"@, TypeView::Utf8, maybe_text(v.kind))
        }),
        verdict_cell(None) == Cell::Null,
{
}

/// Datagrams are judged row by row, each by itself.
pub proof fn lemma_verdicts_shown(ds: Seq<Option<Seq<u8>>>, i: int)
    requires
        0 <= i < ds.len(),
    ensures
        verdicts_of(ds).len() == ds.len(),
        verdicts_of(ds)[i] == match ds[i] {
            Some(d) => Some(verdict(d)),
            None => None,
        },
{
}

/// The version of a datagram is told by its first bytes, row by row: nothing for a null
/// and for bytes of no known format.
pub proof fn lemma_versions_shown(ds: Seq<Option<Seq<u8>>>, i: int)
    requires
        0 <= i < ds.len(),
    ensures
        version_cells(ds).len() == ds.len(),
        ds[i] is None ==> version_cells(ds)[i] == Cell::Null,
        ds[i] matches Some(d) ==> version_cells(ds)[i] == (if d.len() >= 2 && d[0] == 0 && d[1]
            == 5 {
            Cell::Text("5"@)
        } else if d.len() >= 2 && d[0] == 0 && d[1] == 9 {
            Cell::Text("9"@)
        } else if d.len() >= 2 && d[0] == 0 && d[1] == 10 {
            Cell::Text("10"@)
        } else if d.len() >= 8 && d.take(7) == seq![0u8, 0, 0, 5, 0, 0, 0] && (d[7] == 1 || d[7]
            == 2) {
            Cell::Text("sflow5"@)
        } else {
            Cell::Null
        }),
{
    if let Some(d) = ds[i] {
        lemma_format_by_first_bytes(d);
    }
}

/// Templates are listed in order of their keys, each once, and only those of the exporter
/// that is asked for.
pub proof fn lemma_listing_order(entries: Map<KeyView, EntryView>, exporter: Option<Seq<char>>)
    requires
        entries.dom().finite(),
    ensures
        forall|i: int, j: int|
            0 <= i < j < listed(entries, exporter).len() ==> key_lt(
                (#[trigger] listed(entries, exporter)[i]).0,
                (#[trigger] listed(entries, exporter)[j]).0,
            ),
{
    lemma_ordered_keys(entries.dom());
    let all = pairs(entries);
    let want = |t: (KeyView, EntryView)| is_wanted(t, exporter);
    assert forall|i: int, j: int| 0 <= i < j < all.len() implies key_lt(
        (#[trigger] all[i]).0,
        (#[trigger] all[j]).0,
    ) by {}
    lemma_filter_order(all, want);
}

/// What is picked out of a list in order is in order.
proof fn lemma_filter_order(
    all: Seq<(KeyView, EntryView)>,
    want: spec_fn((KeyView, EntryView)) -> bool,
)
    requires
        forall|i: int, j: int|
            0 <= i < j < all.len() ==> key_lt((#[trigger] all[i]).0, (#[trigger] all[j]).0),
    ensures
        forall|i: int, j: int|
            0 <= i < j < all.filter(want).len() ==> key_lt(
                (#[trigger] all.filter(want)[i]).0,
                (#[trigger] all.filter(want)[j]).0,
            ),
        forall|i: int|
            0 <= i < all.filter(want).len() ==> all.contains(#[trigger] all.filter(want)[i]),
    decreases all.len(),
{
    reveal(Seq::filter);
    if all.len() > 0 {
        let front = all.drop_last();
        assert forall|i: int, j: int| 0 <= i < j < front.len() implies key_lt(
            (#[trigger] front[i]).0,
            (#[trigger] front[j]).0,
        ) by {
            assert(front[i] == all[i] && front[j] == all[j]);
        }
        lemma_filter_order(front, want);
        let picked = front.filter(want);
        assert forall|i: int| 0 <= i < picked.len() implies key_lt(
            (#[trigger] picked[i]).0,
            all.last().0,
        ) && all.contains(picked[i]) by {
            let k = choose|k: int| 0 <= k < front.len() && front[k] == picked[i];
            assert(all[k] == picked[i]);
            assert(key_lt(all[k].0, all[all.len() - 1].0));
        }
        assert(all.contains(all.last())) by {
            assert(all[all.len() - 1] == all.last());
        }
    }
}

} // verus!
