//! `well_formed(blob)`: validates a datagram's structure without a full decode.

use std::sync::Arc;

use arrow_schema::{DataType, Field, Schema};
use vstd::prelude::*;

use crate::arrow_map::plain_field;
use crate::columns::{
    batch_columns, batch_fields, batch_ok, bool_cell, cells_bytes, columns_of, field_descs,
    leaf_type, max_offset, new_field, no_columns, push_bool, push_struct, push_text, row_count,
    schema_fields, struct_cells, struct_type, text_cell, text_cells, texts_fit, type_desc,
    values_of, Batch, Cell, ColumnView, FieldDesc, Leaf, TypeView,
};
use crate::fault::Fault;
use crate::meta::{
    array_text, example_object, example_text, executable_examples_json, object_tags,
    object_tags_view, one_example, one_example_json, one_example_text, push_tag, DocView,
    FunctionDoc, SAMPLE_V5_HEX,
};
use crate::scalar::{
    blob_bytes, blob_readable, blobs_of, blobs_readable, refuses_type, single_column,
};
use crate::text::{concat3, opt_view};
use crate::wellformed::{self, verdict, well_formed, VerdictView};

verus! {

/// The function's name.
pub const NAME: &'static str = "well_formed";

/// The function's title.
pub const TITLE: &'static str = "Flow Datagram Validation";

/// The function in prose.
pub const DOC_LLM: &'static str =
    "Validate the structure of a flow-export datagram (`BLOB`) without a full decode, \
    returning `STRUCT(ok BOOL, version VARCHAR, error VARCHAR, kind VARCHAR)`. `kind` is \
    one of truncated, bad-version, set-length-overrun, bad-ipfix-set, short-record, or \
    not-a-flow-datagram. Never panics — a hostile/garbage blob returns ok=false rather \
    than crashing the scan. Use it to triage a capture before decoding.";

/// The function in short.
pub const DOC_MD: &'static str =
    "Validate a flow datagram `BLOB`'s structure → `STRUCT(ok, version, error, kind)`. \
    Never panics on garbage.";

/// The function's keywords.
pub const KEYWORDS: &'static str =
    "well formed, validate, validation, malformed, truncated, triage, netflow, ipfix, sflow";

/// The function in one line.
pub const DESCRIPTION: &'static str = "Validate a flow datagram's structure (never panics)";

/// What the first runnable example shows.
pub const CLEAN: &'static str =
    "A real NetFlow v5 datagram validates clean (ok = true, version = '5').";

/// The first runnable example, up to the datagram.
pub const CLEAN_SQL_HEAD: &'static str = "SELECT netflow.main.well_formed(from_hex('";

/// The first runnable example, from the datagram on.
pub const CLEAN_SQL_TAIL: &'static str = "')::BLOB) AS check";

/// What the second runnable example shows.
pub const GARBAGE: &'static str = "Garbage bytes are flagged not-a-flow-datagram (ok = false).";

/// The second runnable example.
pub const GARBAGE_SQL: &'static str =
    "SELECT netflow.main.well_formed('\\xde\\xad'::BLOB).kind AS kind";

/// The shown example, from the datagram on.
pub const EXAMPLE_SQL_TAIL: &'static str = "')::BLOB) AS validation";

/// What the shown example shows.
pub const EXAMPLE: &'static str =
    "Triage a captured datagram — STRUCT(ok, version, error, kind) — before decoding.";

/// What the argument is.
pub const ARGUMENT: &'static str =
    "The raw captured bytes to structurally validate as a flow-export datagram.";

/// The child fields of the result.
pub open spec fn verdict_fields() -> Seq<FieldDesc> {
    seq![
        plain_field("ok"@, TypeView::Bool, true),
        plain_field("version"@, TypeView::Utf8, true),
        plain_field("error"@, TypeView::Utf8, true),
        plain_field("kind"@, TypeView::Utf8, true),
    ]
}

/// The child fields of the result.
fn struct_fields() -> (r: Vec<Field>)
    ensures
        field_descs(r@) == verdict_fields(),
{
    let mut r: Vec<Field> = Vec::new();
    r.push(new_field("ok", leaf_type(Leaf::Bool), true));
    r.push(new_field("version", leaf_type(Leaf::Utf8), true));
    r.push(new_field("error", leaf_type(Leaf::Utf8), true));
    r.push(new_field("kind", leaf_type(Leaf::Utf8), true));
    assert(field_descs(r@) =~= verdict_fields());
    r
}

/// The shown example.
pub open spec fn example_sql() -> Seq<char> {
    CLEAN_SQL_HEAD@ + SAMPLE_V5_HEX@ + EXAMPLE_SQL_TAIL@
}

/// What the function says of itself.
pub open spec fn doc_view() -> DocView {
    DocView {
        description: DESCRIPTION@,
        examples: seq![(example_sql(), EXAMPLE@)],
        tags: object_tags_view(TITLE@, DOC_LLM@, DOC_MD@, KEYWORDS@) + seq![
            ("vgi.category"@, "probe"@),
            (
                "vgi.executable_examples"@,
                array_text(
                    seq![
                        example_object(CLEAN@, CLEAN_SQL_HEAD@ + SAMPLE_V5_HEX@ + CLEAN_SQL_TAIL@),
                        example_object(GARBAGE@, GARBAGE_SQL@),
                    ],
                ),
            ),
            ("vgi.example_queries"@, one_example_text(EXAMPLE@, example_sql())),
        ],
    }
}

/// The cell of a text that may be missing.
pub open spec fn opt_text_cell(o: Option<Seq<char>>) -> Cell {
    match o {
        Some(t) => Cell::Text(t),
        None => Cell::Null,
    }
}

/// The cell of a verdict.
pub open spec fn verdict_cell(v: Option<VerdictView>) -> Cell {
    match v {
        Some(v) => Cell::Struct(
            seq![
                Cell::Bool(v.ok),
                opt_text_cell(v.version),
                opt_text_cell(v.error),
                opt_text_cell(v.kind),
            ],
        ),
        None => Cell::Null,
    }
}

/// The verdicts on datagrams.
pub open spec fn verdicts_of(datagrams: Seq<Option<Seq<u8>>>) -> Seq<Option<VerdictView>> {
    Seq::new(
        datagrams.len(),
        |i: int|
            match datagrams[i] {
                Some(d) => Some(verdict(d)),
                None => None,
            },
    )
}

/// What verdicts say.
pub open spec fn verdict_views(vs: Seq<Option<wellformed::WellFormed>>) -> Seq<Option<VerdictView>> {
    Seq::new(vs.len(), |i: int| opt_view(vs[i]))
}

/// The result column of some verdicts.
pub open spec fn verdict_result(vs: Seq<Option<VerdictView>>) -> Seq<ColumnView> {
    seq![
        ColumnView {
            ty: TypeView::Struct(verdict_fields()),
            cells: Seq::new(vs.len(), |i: int| verdict_cell(vs[i])),
        },
    ]
}

/// A text of a verdict.
#[derive(Clone, Copy, Debug, PartialEq, Eq, Structural)]
pub enum Part {
    Version,
    Error,
    Kind,
}

/// A text of a verdict; without a verdict, none.
pub open spec fn part_of(v: Option<VerdictView>, p: Part) -> Option<Seq<char>> {
    match v {
        Some(v) => match p {
            Part::Version => v.version,
            Part::Error => v.error,
            Part::Kind => v.kind,
        },
        None => None,
    }
}

/// The cells of a text of verdicts.
pub open spec fn part_cells(vs: Seq<Option<VerdictView>>, p: Part) -> Seq<Cell> {
    Seq::new(vs.len(), |i: int| opt_text_cell(part_of(vs[i], p)))
}

/// Verdicts whose texts each fit the 32-bit offsets of one Arrow array.
pub open spec fn fit_one_result(vs: Seq<Option<VerdictView>>) -> bool {
    &&& cells_bytes(part_cells(vs, Part::Version)) <= max_offset()
    &&& cells_bytes(part_cells(vs, Part::Error)) <= max_offset()
    &&& cells_bytes(part_cells(vs, Part::Kind)) <= max_offset()
}

/// A text of each verdict.
fn part_values(vs: &Vec<Option<wellformed::WellFormed>>, p: Part) -> (r: Vec<Option<String>>)
    ensures
        text_cells(r@) == part_cells(verdict_views(vs@), p),
{
    let pick = |v: &Option<wellformed::WellFormed>| -> (o: Option<String>)
        ensures
            text_cell(o) == opt_text_cell(part_of(opt_view(*v), p)),
    {
        match v {
            Some(v) => match p {
                Part::Version => v.version.clone(),
                Part::Error => v.error.clone(),
                Part::Kind => v.kind.clone(),
            },
            None => None,
        }
    };
    let r = values_of(vs, pick);
    assert(text_cells(r@) =~= part_cells(verdict_views(vs@), p));
    r
}

/// Whether the texts of verdicts fit one batch.
pub fn verdicts_fit(vs: &Vec<Option<wellformed::WellFormed>>) -> (r: bool)
    ensures
        r == fit_one_result(verdict_views(vs@)),
{
    texts_fit(&part_values(vs, Part::Version)) && texts_fit(&part_values(vs, Part::Error))
        && texts_fit(&part_values(vs, Part::Kind))
}

/// The batch of some verdicts, under a schema. It is refused exactly where the
/// schema does not fit the column.
pub fn verdict_batch(vs: &Vec<Option<wellformed::WellFormed>>, schema: &Arc<Schema>) -> (r: Result<
    Batch,
    Fault,
>)
    requires
        fit_one_result(verdict_views(vs@)),
    ensures
        r is Ok <==> batch_ok(schema_fields(**schema), verdict_result(verdict_views(vs@))),
        r matches Ok(b) ==> batch_columns(b) == verdict_result(verdict_views(vs@)),
        r matches Ok(b) ==> batch_fields(b) == schema_fields(**schema),
        r matches Err(e) ==> e is Arrow,
{
    let ghost views = verdict_views(vs@);
    let mut ok: Vec<Option<bool>> = Vec::new();
    let mut valid: Vec<bool> = Vec::new();
    let mut i: usize = 0;
    while i < vs.len()
        invariant
            views == verdict_views(vs@),
            i <= vs@.len(),
            ok@.len() == i,
            valid@.len() == i,
            forall|k: int| 0 <= k < i ==> #[trigger] valid@[k] == (views[k] is Some),
            forall|k: int|
                0 <= k < i && views[k] is Some ==> #[trigger] ok@[k] == Some((views[k]->0).ok),
        decreases vs.len() - i,
    {
        assert(views[i as int] == opt_view(vs@[i as int]));
        match &vs[i] {
            Some(v) => {
                ok.push(Some(v.ok));
                valid.push(true);
            },
            None => {
                ok.push(None);
                valid.push(false);
            },
        }
        i = i + 1;
    }
    let ghost oks = ok@;
    let mut children = no_columns();
    push_bool(&mut children, ok);
    push_text(&mut children, part_values(vs, Part::Version));
    push_text(&mut children, part_values(vs, Part::Error));
    push_text(&mut children, part_values(vs, Part::Kind));
    let mut columns = no_columns();
    let fields = struct_fields();
    proof {
        let ch = columns_of(children);
        assert forall|k: int| 0 <= k < views.len() implies #[trigger] struct_cells(ch, valid@)[k]
            == verdict_cell(views[k]) by {
            assert(valid@[k] == (views[k] is Some));
            if views[k] is Some {
                assert(oks[k] == Some((views[k]->0).ok));
                assert(Seq::new(ch.len(), |j: int| ch[j].cells[k]) =~= seq![
                    bool_cell(oks[k]),
                    part_cells(views, Part::Version)[k],
                    part_cells(views, Part::Error)[k],
                    part_cells(views, Part::Kind)[k],
                ]);
            }
        }
        assert(struct_cells(ch, valid@) =~= verdict_result(views)[0].cells);
    }
    push_struct(&mut columns, fields, children, valid);
    assert(columns_of(columns) =~= verdict_result(views));
    single_column(columns, schema)
}

/// The scalar function `well_formed`.
#[derive(Clone, Copy, Debug)]
pub struct WellFormed;

impl WellFormed {
    /// The function's name.
    pub fn name(&self) -> (r: &'static str)
        ensures
            r@ == NAME@,
    {
        NAME
    }

    /// The type of the result.
    pub fn return_type(&self) -> (r: DataType)
        ensures
            type_desc(r) == TypeView::Struct(verdict_fields()),
    {
        struct_type(struct_fields())
    }

    /// What the function says of itself.
    pub fn metadata(&self) -> (r: FunctionDoc)
        ensures
            r@ == doc_view(),
    {
        let mut tags = object_tags(TITLE, DOC_LLM, DOC_MD, KEYWORDS);
        push_tag(&mut tags, "vgi.category", "probe");
        let clean_sql = concat3(CLEAN_SQL_HEAD, SAMPLE_V5_HEX, CLEAN_SQL_TAIL);
        let runnable: [(&str, &str); 2] = [(CLEAN, clean_sql.as_str()), (GARBAGE, GARBAGE_SQL)];
        let examples = executable_examples_json(runnable.as_slice());
        assert(Seq::new(runnable@.len(), |i: int| example_text(runnable@[i])) =~= seq![
            example_object(CLEAN@, clean_sql@),
            example_object(GARBAGE@, GARBAGE_SQL@),
        ]);
        push_tag(&mut tags, "vgi.executable_examples", examples.as_str());
        let sql = concat3(CLEAN_SQL_HEAD, SAMPLE_V5_HEX, EXAMPLE_SQL_TAIL);
        push_tag(&mut tags, "vgi.example_queries", one_example_json(EXAMPLE, sql.as_str()).as_str());
        let r = FunctionDoc {
            description: DESCRIPTION.to_string(),
            examples: one_example(sql.as_str(), EXAMPLE),
            tags,
        };
        assert(r@ =~= doc_view());
        r
    }

    /// The verdict on each datagram of the first column. It is refused if a cell of
    /// the column is no BLOB.
    pub fn judge(&self, batch: &Batch) -> (r: Result<Vec<Option<wellformed::WellFormed>>, Fault>)
        requires
            batch_columns(*batch).len() > 0,
        ensures
            r is Ok <==> blobs_readable(batch_columns(*batch)[0]),
            r matches Ok(v) ==> verdict_views(v@) == verdicts_of(blobs_of(batch_columns(*batch)[0])),
            r matches Err(e) ==> refuses_type(e),
    {
        let ghost column = batch_columns(*batch)[0];
        let n: usize = row_count(batch);
        let mut v: Vec<Option<wellformed::WellFormed>> = Vec::new();
        let mut row: usize = 0;
        while row < n
            invariant
                batch_columns(*batch).len() > 0,
                column == batch_columns(*batch)[0],
                n == column.cells.len(),
                row <= n,
                v@.len() == row,
                forall|i: int|
                    0 <= i < row ==> opt_view(#[trigger] v@[i]) == verdicts_of(blobs_of(column))[i],
                forall|i: int|
                    0 <= i < row ==> #[trigger] blob_readable(column.ty, column.cells[i]),
            decreases n - row,
        {
            let one = match blob_bytes(batch, 0, row) {
                Ok(Some(bytes)) => Some(well_formed(bytes)),
                Ok(None) => None,
                Err(e) => {
                    assert(!blob_readable(column.ty, column.cells[row as int]));
                    return Err(e);
                },
            };
            v.push(one);
            row = row + 1;
        }
        assert(verdict_views(v@) =~= verdicts_of(blobs_of(column)));
        Ok(v)
    }
}

} // verus!
