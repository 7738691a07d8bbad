//! Scalar functions over a BLOB column: `flow_version`, `header`, `well_formed`,
//! and the argument-free `netflow_version`.

pub mod flow_version;
pub mod header;
pub mod version;
pub mod well_formed;

use std::sync::Arc;

use arrow_schema::Schema;
use vstd::prelude::*;

use crate::columns::{
    batch_columns, batch_fields, batch_ok, binary_at, cell_at, cells_bytes, columns_of, field_count,
    field_kind, has_cell, is_null, large_binary_at, max_offset, new_batch, no_columns, push_text,
    schema_fields, schema_of, text_cells, type_text, Batch, Cell, ColumnView, Columns, Kind,
    TypeView,
};
use crate::fault::Fault;
use crate::text::opt_view;

verus! {

/// How a refusal of a column that is no BLOB begins; the column's type follows.
pub const NOT_A_BLOB: &'static str = "expected a BLOB (binary) argument, got ";

/// The argument of the scalars that take a datagram.
pub const DATAGRAM_ARGUMENT: &'static str = "datagram";

/// A type whose cells are byte strings.
pub open spec fn is_blob(ty: TypeView) -> bool {
    ty.kind() == Kind::Binary || ty.kind() == Kind::LargeBinary
}

/// A cell that can be read as a BLOB: null, or of a column of byte strings.
pub open spec fn blob_readable(ty: TypeView, c: Cell) -> bool {
    c == Cell::Null || is_blob(ty)
}

/// What a cell holds as a BLOB.
pub open spec fn blob_of(c: Cell) -> Option<Seq<u8>> {
    match c {
        Cell::Bytes(b) => Some(b),
        _ => None,
    }
}

/// A column all of whose cells can be read as BLOBs.
pub open spec fn blobs_readable(c: ColumnView) -> bool {
    forall|i: int| 0 <= i < c.cells.len() ==> #[trigger] blob_readable(c.ty, c.cells[i])
}

/// What the cells of a column hold as BLOBs.
pub open spec fn blobs_of(c: ColumnView) -> Seq<Option<Seq<u8>>> {
    Seq::new(c.cells.len(), |i: int| blob_of(c.cells[i]))
}

/// The refusal of a column that is no BLOB: the text starts as agreed and goes on
/// with the column's type.
pub open spec fn refuses_type(f: Fault) -> bool {
    f matches Fault::Value(t) && NOT_A_BLOB@.is_prefix_of(t@)
}

/// Refuses a column of the type that `ty` names.
pub fn refuse_type(ty: &str) -> (r: Fault)
    ensures
        r matches Fault::Value(t) && t@ == NOT_A_BLOB@ + ty@,
        refuses_type(r),
{
    let mut t = NOT_A_BLOB.to_string();
    t.append(ty);
    Fault::Value(t)
}

/// Borrows the bytes of a BLOB cell, or nothing if it is null. It is refused if
/// the column is of another type.
pub(crate) fn blob_bytes(b: &Batch, col: usize, row: usize) -> (r: Result<Option<&[u8]>, Fault>)
    requires
        has_cell(*b, col, row),
    ensures
        r is Ok <==> blob_readable(batch_columns(*b)[col as int].ty, cell_at(*b, col, row)),
        r matches Ok(o) ==> opt_view(o) == blob_of(cell_at(*b, col, row)),
        r matches Err(e) ==> refuses_type(e),
{
    if is_null(b, col, row) {
        return Ok(None);
    }
    let schema = schema_of(b);
    match field_kind(&schema, col) {
        Kind::Binary => Ok(Some(binary_at(b, col, row))),
        Kind::LargeBinary => Ok(Some(large_binary_at(b, col, row))),
        _ => Err(refuse_type(type_text(b, col).as_str())),
    }
}

/// Whether a batch has the argument's column.
pub fn has_argument(b: &Batch) -> (r: bool)
    ensures
        r == (batch_columns(*b).len() > 0),
{
    let schema = schema_of(b);
    field_count(&schema) > 0
}

/// A batch of a single column, under a schema. It is refused exactly where the
/// schema does not fit the column.
pub(crate) fn single_column(columns: Columns, schema: &Arc<Schema>) -> (r: Result<Batch, Fault>)
    requires
        columns_of(columns).len() == 1,
    ensures
        r is Ok <==> batch_ok(schema_fields(**schema), columns_of(columns)),
        r matches Ok(b) ==> batch_columns(b) == columns_of(columns),
        r matches Ok(b) ==> batch_fields(b) == schema_fields(**schema),
        r matches Err(e) ==> e is Arrow,
{
    match new_batch(schema, columns) {
        Ok(b) => Ok(b),
        Err(e) => Err(Fault::Arrow(e)),
    }
}

/// The columns of a result of strings.
pub open spec fn text_result(cells: Seq<Cell>) -> Seq<ColumnView> {
    seq![ColumnView { ty: TypeView::Utf8, cells }]
}

/// A batch of a single column of strings, under a schema. It is refused exactly
/// where the schema does not fit the column.
pub fn text_batch(texts: Vec<Option<String>>, schema: &Arc<Schema>) -> (r: Result<Batch, Fault>)
    requires
        cells_bytes(text_cells(texts@)) <= max_offset(),
    ensures
        r is Ok <==> batch_ok(schema_fields(**schema), text_result(text_cells(texts@))),
        r matches Ok(b) ==> batch_columns(b) == text_result(text_cells(texts@)),
        r matches Ok(b) ==> batch_fields(b) == schema_fields(**schema),
        r matches Err(e) ==> e is Arrow,
{
    let ghost cells = text_cells(texts@);
    let mut columns = no_columns();
    push_text(&mut columns, texts);
    assert(columns_of(columns) =~= text_result(cells));
    single_column(columns, schema)
}

} // verus!
