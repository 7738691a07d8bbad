//! `flow_version(blob)`: a cheap header probe (`'5'`, `'9'`, `'10'`, `'sflow5'` or
//! null) without decoding the record tree.

use arrow_schema::DataType;
use vstd::prelude::*;

use crate::columns::{
    batch_columns, leaf_type, row_count, text_cell, text_cells, type_desc, Batch, Cell, Leaf,
    TypeView,
};
use crate::decode::header::{format_of, probe_version};
use crate::fault::Fault;
use crate::meta::{object_tags, object_tags_view, one_example, push_tag, DocView, FunctionDoc};
use crate::scalar::{blob_bytes, blob_readable, blobs_of, blobs_readable, refuses_type};

verus! {

/// The function's name.
pub const NAME: &'static str = "flow_version";

/// The function's title.
pub const TITLE: &'static str = "Flow Datagram Version Probe";

/// The function in prose.
pub const DOC_LLM: &'static str =
    "Probe the leading bytes of a captured flow-export datagram (BLOB) and return its wire \
    version: '5' (NetFlow v5), '9' (NetFlow v9), '10' (IPFIX), or 'sflow5' (sFlow v5); \
    NULL when the bytes match no known flow header. Cheap — it reads only the header and \
    allocates no record tree. Use it to route or filter a mixed column of datagrams before \
    calling the decoders.";

/// The function in short.
pub const DOC_MD: &'static str =
    "Return the flow-export version of a datagram BLOB: '5' / '9' / '10' / 'sflow5', or \
    NULL if unrecognized. Header-only, no full decode.";

/// The function's keywords.
pub const KEYWORDS: &'static str =
    "flow version, netflow version, ipfix, sflow, probe, detect, version, datagram, header";

/// The function in one line.
pub const DESCRIPTION: &'static str = "Probe a flow-export datagram's wire version";

/// Examples that can be run.
pub const RUNNABLE: &'static str =
    "[{\"description\":\"Probe the version of a one-byte non-flow blob (returns \
    NULL).\",\"sql\":\"SELECT netflow.main.flow_version('\\\\x00'::BLOB) AS v\"}]";

/// An example.
pub const EXAMPLE_SQL: &'static str =
    "SELECT netflow.main.flow_version(content) FROM read_blob('s3://flow/*.dat');";

/// What the example shows.
pub const EXAMPLE: &'static str = "Detect each datagram's flow version.";

/// What the argument is.
pub const ARGUMENT: &'static str = "A captured flow-export datagram (BLOB).";

/// What the function says of itself.
pub open spec fn doc_view() -> DocView {
    DocView {
        description: DESCRIPTION@,
        examples: seq![(EXAMPLE_SQL@, EXAMPLE@)],
        tags: object_tags_view(TITLE@, DOC_LLM@, DOC_MD@, KEYWORDS@).push(
            ("vgi.executable_examples"@, RUNNABLE@),
        ),
    }
}

/// The cell of a datagram's version.
pub open spec fn version_cell(datagram: Option<Seq<u8>>) -> Cell {
    match datagram {
        Some(d) => match format_of(d) {
            Some(f) => Cell::Text(f.text()),
            None => Cell::Null,
        },
        None => Cell::Null,
    }
}

/// The cells of the versions of datagrams.
pub open spec fn version_cells(datagrams: Seq<Option<Seq<u8>>>) -> Seq<Cell> {
    Seq::new(datagrams.len(), |i: int| version_cell(datagrams[i]))
}

/// The scalar function `flow_version`.
#[derive(Clone, Copy, Debug)]
pub struct FlowVersion;

impl FlowVersion {
    /// The function's name.
    pub fn name(&self) -> (r: &'static str)
        ensures
            r@ == NAME@,
    {
        NAME
    }

    /// The type of the result.
    pub fn return_type(&self) -> (r: DataType)
        ensures
            type_desc(r) == TypeView::Utf8,
    {
        leaf_type(Leaf::Utf8)
    }

    /// What the function says of itself.
    pub fn metadata(&self) -> (r: FunctionDoc)
        ensures
            r@ == doc_view(),
    {
        let mut tags = object_tags(TITLE, DOC_LLM, DOC_MD, KEYWORDS);
        push_tag(&mut tags, "vgi.executable_examples", RUNNABLE);
        FunctionDoc {
            description: DESCRIPTION.to_string(),
            examples: one_example(EXAMPLE_SQL, EXAMPLE),
            tags,
        }
    }

    /// The version of each datagram of the first column. It is refused if a cell of
    /// the column is no BLOB.
    pub fn probe_versions(&self, batch: &Batch) -> (r: Result<Vec<Option<String>>, Fault>)
        requires
            batch_columns(*batch).len() > 0,
        ensures
            r is Ok <==> blobs_readable(batch_columns(*batch)[0]),
            r matches Ok(v) ==> text_cells(v@) == version_cells(blobs_of(batch_columns(*batch)[0])),
            r matches Err(e) ==> refuses_type(e),
    {
        let ghost column = batch_columns(*batch)[0];
        let n: usize = row_count(batch);
        let mut v: Vec<Option<String>> = Vec::new();
        let mut row: usize = 0;
        while row < n
            invariant
                batch_columns(*batch).len() > 0,
                column == batch_columns(*batch)[0],
                n == column.cells.len(),
                row <= n,
                v@.len() == row,
                forall|i: int|
                    0 <= i < row ==> #[trigger] blob_readable(
                        column.ty,
                        column.cells[i],
                    ),
                forall|i: int|
                    0 <= i < row ==> text_cell(#[trigger] v@[i]) == version_cell(blobs_of(column)[i]),
            decreases n - row,
        {
            let version = match blob_bytes(batch, 0, row) {
                Ok(Some(bytes)) => match probe_version(bytes) {
                    Some(v) => Some(v.to_string()),
                    None => None,
                },
                Ok(None) => None,
                Err(e) => {
                    assert(!blob_readable(column.ty, column.cells[row as int]));
                    return Err(e);
                },
            };
            v.push(version);
            row = row + 1;
        }
        assert(text_cells(v@) =~= version_cells(blobs_of(column)));
        Ok(v)
    }
}

} // verus!
