//! `header(blob)`: just the export header, for sequence-gap and dedup analysis,
//! without decoding records.

use std::sync::Arc;

use arrow_schema::{DataType, Field, Schema};
use vstd::prelude::*;

use crate::arrow_map::{plain_field, UTC};
use crate::columns::{
    batch_columns, batch_fields, batch_ok, columns_of, field_descs, leaf_type, micros_cell,
    micros_type, new_field, no_columns, push_micros, push_struct, push_u16, push_u32, push_u64,
    row_count, schema_fields, struct_cells, struct_type, type_desc, u16_cell, u32_cell, u64_cell,
    Batch, Cell, ColumnView, FieldDesc, Leaf, TypeView,
};
use crate::decode::header::{format_of, header_of, parse_header, probe_format, ExportHeader, Format};
use crate::fault::Fault;
use crate::meta::{object_tags, object_tags_view, one_example, push_tag, DocView, FunctionDoc};
use crate::scalar::{
    blob_bytes, blob_readable, blobs_of, blobs_readable, refuses_type, single_column,
};

verus! {

/// The function's name.
pub const NAME: &'static str = "header";

/// The function's title.
pub const TITLE: &'static str = "Flow Export Header";

/// The function in prose.
pub const DOC_LLM: &'static str =
    "Decode just the export header of a flow-export datagram (BLOB) without decoding any \
    records: version, record count, sysUptime, export_time (TIMESTAMPTZ), sequence number, \
    and observation domain. Use it for sequence-gap analysis and dedup over a large column \
    of datagrams cheaply. sFlow fields map best-effort (no count/sys_uptime). Returns a \
    STRUCT; NULL on a non-flow datagram.";

/// The function in short.
pub const DOC_MD: &'static str =
    "Decode a flow datagram's export header to a STRUCT(version, count, sys_uptime, \
    export_time, sequence, obs_domain). NULL if not a flow datagram.";

/// The function's keywords.
pub const KEYWORDS: &'static str =
    "header, export header, sequence, gap detection, dedup, version, obs_domain, netflow, \
    ipfix, sflow";

/// The function in one line.
pub const DESCRIPTION: &'static str = "Decode a flow datagram's export header";

/// Examples that can be run.
pub const RUNNABLE: &'static str =
    "[{\"description\":\"Header of a non-flow blob is NULL.\",\"sql\":\"SELECT \
    netflow.main.header('\\\\x00'::BLOB) AS h\"}]";

/// An example.
pub const EXAMPLE_SQL: &'static str =
    "SELECT netflow.main.header(content).sequence FROM read_blob('s3://flow/*.dat');";

/// What the example shows.
pub const EXAMPLE: &'static str = "Read each datagram's export sequence number.";

/// What the argument is.
pub const ARGUMENT: &'static str = "A captured flow-export datagram (BLOB).";

/// The child fields of the result.
pub open spec fn header_fields() -> Seq<FieldDesc> {
    seq![
        plain_field("version"@, TypeView::U16, true),
        plain_field("count"@, TypeView::U16, true),
        plain_field("sys_uptime"@, TypeView::U32, true),
        plain_field("export_time"@, TypeView::Micros(UTC@), true),
        plain_field("sequence"@, TypeView::U64, true),
        plain_field("obs_domain"@, TypeView::U32, true),
    ]
}

/// The child fields of the result.
fn struct_fields() -> (r: Vec<Field>)
    ensures
        field_descs(r@) == header_fields(),
{
    let mut r: Vec<Field> = Vec::new();
    r.push(new_field("version", leaf_type(Leaf::U16), true));
    r.push(new_field("count", leaf_type(Leaf::U16), true));
    r.push(new_field("sys_uptime", leaf_type(Leaf::U32), true));
    r.push(new_field("export_time", micros_type(UTC), true));
    r.push(new_field("sequence", leaf_type(Leaf::U64), true));
    r.push(new_field("obs_domain", leaf_type(Leaf::U32), true));
    assert(field_descs(r@) =~= header_fields());
    r
}

/// What the function says of itself.
pub open spec fn doc_view() -> DocView {
    DocView {
        description: DESCRIPTION@,
        examples: seq![(EXAMPLE_SQL@, EXAMPLE@)],
        tags: object_tags_view(TITLE@, DOC_LLM@, DOC_MD@, KEYWORDS@).push(
            ("vgi.executable_examples"@, RUNNABLE@),
        ),
    }
}

/// The cell of an export header.
pub open spec fn header_cell(h: Option<ExportHeader>) -> Cell {
    match h {
        Some(h) => Cell::Struct(
            seq![
                Cell::Num(h.version as int),
                u16_cell(h.count),
                u32_cell(h.sys_uptime),
                micros_cell(h.export_time),
                u64_cell(h.sequence),
                u32_cell(h.obs_domain),
            ],
        ),
        None => Cell::Null,
    }
}

/// The header of a datagram as the function shows it: an sFlow header maps
/// best-effort, without count and sysUptime.
pub open spec fn shown_header(d: Seq<u8>) -> Option<ExportHeader> {
    match header_of(d) {
        Some(h) => Some(
            if format_of(d) == Some(Format::Sflow) {
                ExportHeader { count: None, sys_uptime: None, ..h }
            } else {
                h
            },
        ),
        None => None,
    }
}

/// The header of a datagram as the function shows it.
pub fn show_header(data: &[u8]) -> (r: Option<ExportHeader>)
    ensures
        r == shown_header(data@),
{
    let mut h = parse_header(data)?;
    if let Some(Format::Sflow) = probe_format(data) {
        h.count = None;
        h.sys_uptime = None;
    }
    Some(h)
}

/// The header of a datagram, if there is one.
pub open spec fn header_at(datagram: Option<Seq<u8>>) -> Option<ExportHeader> {
    match datagram {
        Some(d) => shown_header(d),
        None => None,
    }
}

/// The result column of some headers.
pub open spec fn header_result(headers: Seq<Option<ExportHeader>>) -> Seq<ColumnView> {
    seq![
        ColumnView {
            ty: TypeView::Struct(header_fields()),
            cells: Seq::new(headers.len(), |i: int| header_cell(headers[i])),
        },
    ]
}

/// The headers of datagrams.
pub open spec fn headers_of(datagrams: Seq<Option<Seq<u8>>>) -> Seq<Option<ExportHeader>> {
    Seq::new(datagrams.len(), |i: int| header_at(datagrams[i]))
}

/// The header of each datagram of the first column. It is refused if a cell of
/// the column is no BLOB.
pub fn read_headers(batch: &Batch) -> (r: Result<Vec<Option<ExportHeader>>, Fault>)
    requires
        batch_columns(*batch).len() > 0,
    ensures
        r is Ok <==> blobs_readable(batch_columns(*batch)[0]),
        r matches Ok(v) ==> v@ == headers_of(blobs_of(batch_columns(*batch)[0])),
        r matches Err(e) ==> refuses_type(e),
{
    let ghost column = batch_columns(*batch)[0];
    let n: usize = row_count(batch);
    let mut v: Vec<Option<ExportHeader>> = Vec::new();
    let mut row: usize = 0;
    while row < n
        invariant
            batch_columns(*batch).len() > 0,
            column == batch_columns(*batch)[0],
            n == column.cells.len(),
            row <= n,
            v@ == headers_of(blobs_of(column)).take(row as int),
            forall|i: int|
                0 <= i < row ==> #[trigger] blob_readable(column.ty, column.cells[i]),
        decreases n - row,
    {
        let header = match blob_bytes(batch, 0, row) {
            Ok(Some(bytes)) => show_header(bytes),
            Ok(None) => None,
            Err(e) => {
                assert(!blob_readable(column.ty, column.cells[row as int]));
                return Err(e);
            },
        };
        v.push(header);
        row = row + 1;
        assert(v@ =~= headers_of(blobs_of(column)).take(row as int));
    }
    assert(v@ =~= headers_of(blobs_of(column)));
    Ok(v)
}

/// The parts that a header's cell is built of: what stands under a null cell does
/// not matter.
spec fn header_parts(
    h: Option<ExportHeader>,
    version: Option<u16>,
    count: Option<u16>,
    sys_uptime: Option<u32>,
    export_time: Option<i64>,
    sequence: Option<u64>,
    obs_domain: Option<u32>,
    valid: bool,
) -> bool {
    match h {
        Some(h) => {
            &&& valid
            &&& version == Some(h.version)
            &&& count == h.count
            &&& sys_uptime == h.sys_uptime
            &&& export_time == h.export_time
            &&& sequence == h.sequence
            &&& obs_domain == h.obs_domain
        },
        None => !valid,
    }
}

/// The batch of some headers, under a schema. It is refused exactly where the
/// schema does not fit the column.
pub fn header_batch(headers: &Vec<Option<ExportHeader>>, schema: &Arc<Schema>) -> (r: Result<
    Batch,
    Fault,
>)
    ensures
        r is Ok <==> batch_ok(schema_fields(**schema), header_result(headers@)),
        r matches Ok(b) ==> batch_columns(b) == header_result(headers@),
        r matches Ok(b) ==> batch_fields(b) == schema_fields(**schema),
        r matches Err(e) ==> e is Arrow,
{
    let mut version: Vec<Option<u16>> = Vec::new();
    let mut count: Vec<Option<u16>> = Vec::new();
    let mut sys_uptime: Vec<Option<u32>> = Vec::new();
    let mut export_time: Vec<Option<i64>> = Vec::new();
    let mut sequence: Vec<Option<u64>> = Vec::new();
    let mut obs_domain: Vec<Option<u32>> = Vec::new();
    let mut valid: Vec<bool> = Vec::new();
    let mut i: usize = 0;
    while i < headers.len()
        invariant
            i <= headers@.len(),
            version@.len() == i,
            count@.len() == i,
            sys_uptime@.len() == i,
            export_time@.len() == i,
            sequence@.len() == i,
            obs_domain@.len() == i,
            valid@.len() == i,
            forall|k: int|
                0 <= k < i ==> header_parts(
                    headers@[k],
                    #[trigger] version@[k],
                    count@[k],
                    sys_uptime@[k],
                    export_time@[k],
                    sequence@[k],
                    obs_domain@[k],
                    valid@[k],
                ),
        decreases headers.len() - i,
    {
        match &headers[i] {
            Some(h) => {
                version.push(Some(h.version));
                count.push(h.count);
                sys_uptime.push(h.sys_uptime);
                export_time.push(h.export_time);
                sequence.push(h.sequence);
                obs_domain.push(h.obs_domain);
                valid.push(true);
            },
            None => {
                version.push(None);
                count.push(None);
                sys_uptime.push(None);
                export_time.push(None);
                sequence.push(None);
                obs_domain.push(None);
                valid.push(false);
            },
        }
        i = i + 1;
    }
    let ghost (a, b, c) = (version@, count@, sys_uptime@);
    let ghost (d, e, f) = (export_time@, sequence@, obs_domain@);
    let mut children = no_columns();
    push_u16(&mut children, version);
    push_u16(&mut children, count);
    push_u32(&mut children, sys_uptime);
    push_micros(&mut children, export_time, UTC);
    push_u64(&mut children, sequence);
    push_u32(&mut children, obs_domain);
    let mut columns = no_columns();
    let fields = struct_fields();
    proof {
        let ch = columns_of(children);
        assert forall|k: int| 0 <= k < headers@.len() implies #[trigger] struct_cells(
            ch,
            valid@,
        )[k] == header_cell(headers@[k]) by {
            assert(header_parts(headers@[k], a[k], b[k], c[k], d[k], e[k], f[k], valid@[k]));
            if headers@[k] is Some {
                assert(Seq::new(ch.len(), |j: int| ch[j].cells[k]) =~= seq![
                    u16_cell(a[k]),
                    u16_cell(b[k]),
                    u32_cell(c[k]),
                    micros_cell(d[k]),
                    u64_cell(e[k]),
                    u32_cell(f[k]),
                ]);
            }
        }
        assert(struct_cells(ch, valid@) =~= header_result(headers@)[0].cells);
    }
    push_struct(&mut columns, fields, children, valid);
    assert(columns_of(columns) =~= header_result(headers@));
    single_column(columns, schema)
}

/// The scalar function `header`.
#[derive(Clone, Copy, Debug)]
pub struct Header;

impl Header {
    /// The function's name.
    pub fn name(&self) -> (r: &'static str)
        ensures
            r@ == NAME@,
    {
        NAME
    }

    /// The type of the result.
    pub fn return_type(&self) -> (r: DataType)
        ensures
            type_desc(r) == TypeView::Struct(header_fields()),
    {
        struct_type(struct_fields())
    }

    /// What the function says of itself.
    pub fn metadata(&self) -> (r: FunctionDoc)
        ensures
            r@ == doc_view(),
    {
        let mut tags = object_tags(TITLE, DOC_LLM, DOC_MD, KEYWORDS);
        push_tag(&mut tags, "vgi.executable_examples", RUNNABLE);
        FunctionDoc {
            description: DESCRIPTION.to_string(),
            examples: one_example(EXAMPLE_SQL, EXAMPLE),
            tags,
        }
    }

    /// The headers of the datagrams of the first column, under a schema. It is refused
    /// if a cell of the column is no BLOB, else exactly where the schema does not fit
    /// the result.
    pub fn process(&self, batch: &Batch, schema: &Arc<Schema>) -> (r: Result<Batch, Fault>)
        requires
            batch_columns(*batch).len() > 0,
        ensures
            ({
                let input = batch_columns(*batch)[0];
                let result = header_result(headers_of(blobs_of(input)));
                &&& r is Ok <==> blobs_readable(input) && batch_ok(schema_fields(**schema), result)
                &&& r matches Ok(b) ==> batch_columns(b) == result
                &&& r matches Ok(b) ==> batch_fields(b) == schema_fields(**schema)
                &&& r matches Err(e) ==> if blobs_readable(input) {
                    e is Arrow
                } else {
                    refuses_type(e)
                }
            }),
    {
        match read_headers(batch) {
            Ok(headers) => header_batch(&headers, schema),
            Err(e) => Err(e),
        }
    }
}

} // verus!
