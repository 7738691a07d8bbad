//! The decode functions `flows`, `netflow_decode`, `ipfix_decode` and
//! `sflow_decode`: relation in, normalized flow rows out.
//!
//! The input is a relation carrying a `datagram` BLOB column (and optional
//! `exporter` / `obs_domain` / `mode` columns, read per row). Each datagram decodes
//! to zero or more normalized flow rows. The [`TemplateCache`] is threaded through
//! the rows of every batch, so a template learned in one batch decodes data in a
//! later one. The end of the stream flushes still-buffered data as
//! `missing-template` diagnostics, never dropped.

pub mod docs;

use std::sync::Arc;

use arrow_schema::Schema;
use vstd::prelude::*;

use crate::arrow_map::{fit_one_batch, flow_columns, flow_fields, flow_schema, rows_to_batch};
use crate::cache::{CacheView, TemplateCache};
use crate::columns::{
    batch_columns, batch_fields, batch_ok, batch_rows, cell_at, field_count, field_kind, field_name,
    has_cell, integer_at, is_null, large_string_at, row_count, schema_fields, schema_of, string_at,
    Batch, Cell, FieldDesc, Kind, TypeView,
};
use crate::decode::{
    datagram_outcome, decode_datagram, mode_of, DecodeOptions, Mode, OptionsView, Restrict,
};
use crate::fault::Fault;
use crate::meta::{DocView, Example, FunctionDoc};
use crate::normalize::{FlowRecord, FlowView};
use crate::scalar::{blob_bytes, blob_of, blob_readable, blobs_readable, is_blob, refuses_type};
use crate::text::{chars_of, opt_view, views};
use docs::{
    decoder_of, decoder_tags, describe, doc_example, tags_for, STATEFUL_RELATION,
    STATELESS_RELATION,
};

verus! {

broadcast use {crate::text::lemma_views_push, crate::text::lemma_views_add};

/// How the refusal to decode without an input relation goes on after the name.
pub const NO_RELATION: &'static str = ": requires an input relation";

/// The refusal of a relation without a datagram column.
pub const NO_DATAGRAM: &'static str =
    "input relation must carry a `datagram` BLOB column of captured flow datagrams";

/// The first number below `n` of which `p` holds.
pub open spec fn first_where(n: nat, p: spec_fn(int) -> bool) -> Option<int>
    decreases n,
{
    if n == 0 {
        None
    } else {
        match first_where((n - 1) as nat, p) {
            Some(i) => Some(i),
            None => if p(n - 1) {
                Some(n - 1)
            } else {
                None
            },
        }
    }
}

/// A letter in lower case; any other character, and any beyond ASCII, as it is.
pub open spec fn lower_char(c: char) -> char {
    if 'A' <= c <= 'Z' {
        (c as int + 32) as char
    } else {
        c
    }
}

/// Text with its ASCII letters in lower case.
pub open spec fn lowered(s: Seq<char>) -> Seq<char> {
    s.map_values(|c: char| lower_char(c))
}

/// A letter in lower case.
fn lower(c: char) -> (r: char)
    ensures
        r == lower_char(c),
{
    if 'A' <= c && c <= 'Z' {
        (c as u8 + 32) as char
    } else {
        c
    }
}

/// Whether two texts are the same but for the case of ASCII letters.
pub fn same_ignoring_case(a: &str, b: &str) -> (r: bool)
    ensures
        r == (lowered(a@) == lowered(b@)),
{
    let x = chars_of(a);
    let y = chars_of(b);
    if x.len() != y.len() {
        assert(lowered(a@).len() != lowered(b@).len());
        return false;
    }
    let mut i: usize = 0;
    while i < x.len() && lower(x[i]) == lower(y[i])
        invariant
            x@ == a@,
            y@ == b@,
            x@.len() == y@.len(),
            i <= x@.len(),
            forall|k: int| 0 <= k < i ==> lowered(a@)[k] == lowered(b@)[k],
        decreases x.len() - i,
    {
        i = i + 1;
    }
    if i == x.len() {
        assert(lowered(a@) =~= lowered(b@));
        true
    } else {
        assert(lowered(a@)[i as int] != lowered(b@)[i as int]);
        false
    }
}

/// The first column of a name, whatever the case of its letters.
pub open spec fn named_column(fields: Seq<FieldDesc>, name: Seq<char>) -> Option<int> {
    first_where(fields.len(), |i: int| lowered(fields[i].name) == lowered(name))
}

/// The datagram column: named `datagram`, `content` or `blob`, in this order of
/// preference, else the first column of byte strings.
pub open spec fn datagram_column(fields: Seq<FieldDesc>) -> Option<int> {
    if named_column(fields, "datagram"@) is Some {
        named_column(fields, "datagram"@)
    } else if named_column(fields, "content"@) is Some {
        named_column(fields, "content"@)
    } else if named_column(fields, "blob"@) is Some {
        named_column(fields, "blob"@)
    } else {
        first_where(fields.len(), |i: int| is_blob(fields[i].ty))
    }
}

/// A number as an index.
pub open spec fn as_index(i: Option<usize>) -> Option<int> {
    match i {
        Some(i) => Some(i as int),
        None => None,
    }
}

/// What is found first is below the bound and has the property, and nothing
/// before it has.
pub proof fn lemma_first_where(n: nat, p: spec_fn(int) -> bool)
    ensures
        first_where(n, p) matches Some(i) ==> 0 <= i < n && p(i) && forall|k: int|
            0 <= k < i ==> !#[trigger] p(k),
        first_where(n, p) is None ==> forall|k: int| 0 <= k < n ==> !#[trigger] p(k),
    decreases n,
{
    if n > 0 {
        lemma_first_where((n - 1) as nat, p);
    }
}

/// What is found first among the first numbers is what is found first among all.
proof fn lemma_first_where_extends(m: nat, n: nat, p: spec_fn(int) -> bool)
    requires
        m <= n,
        first_where(m, p) is Some,
    ensures
        first_where(n, p) == first_where(m, p),
    decreases n,
{
    if m < n {
        lemma_first_where_extends(m, (n - 1) as nat, p);
    }
}

/// Locates an optional column by name, whatever the case of its letters.
pub fn find_named_col(schema: &Schema, name: &str) -> (r: Option<usize>)
    ensures
        as_index(r) == named_column(schema_fields(*schema), name@),
        r matches Some(i) ==> i < schema_fields(*schema).len(),
{
    let ghost fields = schema_fields(*schema);
    let ghost p = |i: int| lowered(fields[i].name) == lowered(name@);
    let n: usize = field_count(schema);
    let mut i: usize = 0;
    while i < n
        invariant
            fields == schema_fields(*schema),
            p == |i: int| lowered(fields[i].name) == lowered(name@),
            n == fields.len(),
            i <= n,
            first_where(i as nat, p) is None,
        decreases n - i,
    {
        let field = field_name(schema, i);
        if same_ignoring_case(field.as_str(), name) {
            assert(p(i as int));
            assert(first_where((i + 1) as nat, p) == Some(i as int));
            proof {
                lemma_first_where_extends((i + 1) as nat, n as nat, p);
            }
            return Some(i);
        }
        assert(!p(i as int));
        i = i + 1;
    }
    None
}

/// Locates the first column of byte strings.
fn find_blob_col(schema: &Schema) -> (r: Option<usize>)
    ensures
        as_index(r) == first_where(
            schema_fields(*schema).len(),
            |i: int| is_blob(schema_fields(*schema)[i].ty),
        ),
        r matches Some(i) ==> i < schema_fields(*schema).len(),
{
    let ghost fields = schema_fields(*schema);
    let ghost p = |i: int| is_blob(fields[i].ty);
    let n: usize = field_count(schema);
    let mut i: usize = 0;
    while i < n
        invariant
            fields == schema_fields(*schema),
            p == |i: int| is_blob(fields[i].ty),
            n == fields.len(),
            i <= n,
            first_where(i as nat, p) is None,
        decreases n - i,
    {
        let kind = field_kind(schema, i);
        if kind == Kind::Binary || kind == Kind::LargeBinary {
            assert(p(i as int));
            assert(first_where((i + 1) as nat, p) == Some(i as int));
            proof {
                lemma_first_where_extends((i + 1) as nat, n as nat, p);
            }
            return Some(i);
        }
        assert(!p(i as int));
        i = i + 1;
    }
    None
}

/// Locates the datagram BLOB column (named `datagram` / `content` / `blob`, whatever
/// the case, else the first binary column).
pub fn find_datagram_col(schema: &Schema) -> (r: Result<usize, Fault>)
    ensures
        r is Ok <==> datagram_column(schema_fields(*schema)) is Some,
        r matches Ok(i) ==> datagram_column(schema_fields(*schema)) == Some(i as int) && i
            < schema_fields(*schema).len(),
        r matches Err(e) ==> e matches Fault::Value(t) && t@ == NO_DATAGRAM@,
{
    if let Some(i) = find_named_col(schema, "datagram") {
        return Ok(i);
    }
    if let Some(i) = find_named_col(schema, "content") {
        return Ok(i);
    }
    if let Some(i) = find_named_col(schema, "blob") {
        return Ok(i);
    }
    match find_blob_col(schema) {
        Some(i) => Ok(i),
        None => Err(Fault::Value(NO_DATAGRAM.to_string())),
    }
}

/// What a cell holds as text: nothing if it is null or the column holds no
/// strings.
pub open spec fn text_in(ty: TypeView, c: Cell) -> Option<Seq<char>> {
    match c {
        Cell::Text(t) => if ty.kind() == Kind::Utf8 || ty.kind() == Kind::LargeUtf8 {
            Some(t)
        } else {
            None
        },
        _ => None,
    }
}

/// What a cell holds as a 32-bit number, higher bits cut off: nothing if it is null
/// or the column holds no integers.
pub open spec fn u32_in(ty: TypeView, c: Cell) -> Option<u32> {
    match c {
        Cell::Num(n) => if ty.kind() == Kind::Integer {
            Some((n % 0x1_0000_0000) as u32)
        } else {
            None
        },
        _ => None,
    }
}

/// Reads a VARCHAR cell as an owned string, or `None` if it is null or not of a
/// string column.
pub(crate) fn text_at(b: &Batch, col: usize, row: usize) -> (r: Option<String>)
    requires
        has_cell(*b, col, row),
    ensures
        opt_view(r) == text_in(batch_columns(*b)[col as int].ty, cell_at(*b, col, row)),
{
    if is_null(b, col, row) {
        return None;
    }
    let schema = schema_of(b);
    match field_kind(&schema, col) {
        Kind::Utf8 => Some(string_at(b, col, row).to_string()),
        Kind::LargeUtf8 => Some(large_string_at(b, col, row).to_string()),
        _ => None,
    }
}

/// The low thirty-two bits of a number in two's complement.
pub fn low_word(n: i128) -> (r: u32)
    ensures
        r == n % 0x1_0000_0000,
{
    if n >= 0 {
        (n % 0x1_0000_0000) as u32
    } else {
        let m: i128 = (-(n + 1)) % 0x1_0000_0000;
        proof {
            let k: int = (-(n + 1)) / 0x1_0000_0000;
            assert(-(n + 1) == k * 0x1_0000_0000 + m);
            assert(n == (-k - 1) * 0x1_0000_0000 + (0xffff_ffff - m));
            vstd::arithmetic::div_mod::lemma_fundamental_div_mod_converse(
                n as int,
                0x1_0000_0000,
                -k - 1,
                0xffff_ffff - m,
            );
        }
        (0xffff_ffff - m) as u32
    }
}

/// Reads an integer cell as `u32`, or `None` if it is null or not of an integer
/// column.
pub(crate) fn u32_at(b: &Batch, col: usize, row: usize) -> (r: Option<u32>)
    requires
        has_cell(*b, col, row),
    ensures
        r == u32_in(batch_columns(*b)[col as int].ty, cell_at(*b, col, row)),
{
    if is_null(b, col, row) {
        return None;
    }
    let schema = schema_of(b);
    match field_kind(&schema, col) {
        Kind::Integer => Some(low_word(integer_at(b, col, row))),
        _ => None,
    }
}

/// A decode function: its name, the formats that it accepts, and which of the
/// optional columns it reads.
#[derive(Clone, Copy, Debug)]
pub struct FlowDecode {
    pub name: &'static str,
    pub restrict: Restrict,
    /// `flows` is the only one that honors a `mode` column.
    pub with_mode: bool,
    /// `sflow_decode` is stateless and ignores an `obs_domain` column.
    pub with_obs_domain: bool,
}

/// The columns of an input relation that a decode function reads.
pub struct InputColumns {
    pub datagram: int,
    pub exporter: Option<int>,
    pub obs_domain: Option<int>,
    pub mode: Option<int>,
}

impl FlowDecode {
    /// The unified decoder.
    pub fn flows() -> (r: Self)
        ensures
            r.name@ == "flows"@,
            r.restrict == Restrict::Any,
            r.with_mode,
            r.with_obs_domain,
    {
        FlowDecode {
            name: "flows",
            restrict: Restrict::Any,
            with_mode: true,
            with_obs_domain: true,
        }
    }

    /// A decoder of some formats.
    pub fn new(name: &'static str, restrict: Restrict) -> (r: Self)
        ensures
            r.name == name,
            r.restrict == restrict,
            !r.with_mode,
            r.with_obs_domain == (restrict != Restrict::SflowOnly),
    {
        FlowDecode {
            name,
            restrict,
            with_mode: false,
            with_obs_domain: restrict != Restrict::SflowOnly,
        }
    }

    /// What the function says of itself.
    pub fn metadata(&self) -> (r: FunctionDoc)
        ensures
            r@ == (DocView {
                description: decoder_of(self.name@).description_text(),
                examples: seq![
                    (
                        decoder_of(self.name@).shown_sql(),
                        decoder_of(self.name@).shown_text(),
                    ),
                ],
                tags: decoder_tags(decoder_of(self.name@)),
            }),
    {
        let mut examples: Vec<Example> = Vec::new();
        examples.push(doc_example(self.name));
        let r = FunctionDoc {
            description: describe(self.name).to_string(),
            examples,
            tags: tags_for(self.name),
        };
        assert(r@.examples =~= seq![
            (decoder_of(self.name@).shown_sql(), decoder_of(self.name@).shown_text()),
        ]);
        r
    }

    /// What the input relation is. A decoder without observation domains does not
    /// speak of templates.
    pub fn relation_doc(&self) -> (r: &'static str)
        ensures
            r@ == if self.with_obs_domain {
                STATEFUL_RELATION@
            } else {
                STATELESS_RELATION@
            },
    {
        if self.with_obs_domain {
            STATEFUL_RELATION
        } else {
            STATELESS_RELATION
        }
    }

    /// The output schema for an input schema: the relation has to be there and
    /// to carry a datagram column.
    pub fn bind(&self, input: Option<&Schema>) -> (r: Result<Arc<Schema>, Fault>)
        ensures
            r is Ok <==> input is Some && datagram_column(schema_fields(*input->0)) is Some,
            r matches Ok(s) ==> schema_fields(*s) == flow_fields(),
            r matches Err(e) ==> e matches Fault::Value(t) && t@ == (if input is None {
                self.name@ + NO_RELATION@
            } else {
                NO_DATAGRAM@
            }),
    {
        let schema = match input {
            Some(schema) => schema,
            None => {
                let mut t = self.name.to_string();
                t.append(NO_RELATION);
                return Err(Fault::Value(t));
            },
        };
        match find_datagram_col(schema) {
            Ok(_) => Ok(flow_schema()),
            Err(e) => Err(e),
        }
    }

    /// The columns of a relation that the function reads.
    pub open spec fn reads(&self, fields: Seq<FieldDesc>) -> InputColumns {
        InputColumns {
            datagram: datagram_column(fields)->0,
            exporter: named_column(fields, "exporter"@),
            obs_domain: if self.with_obs_domain {
                named_column(fields, "obs_domain"@)
            } else {
                None
            },
            mode: if self.with_mode {
                named_column(fields, "mode"@)
            } else {
                None
            },
        }
    }

    /// Decodes the datagrams of a batch in order, threading the cache. A null
    /// datagram yields no rows. It is refused, with the cache as it was, if there
    /// is no datagram column or one of its cells is no BLOB.
    pub fn decode_batch(&self, batch: &Batch, now: i64, cache: &mut TemplateCache) -> (r: Result<
        Vec<FlowRecord>,
        Fault,
    >)
        requires
            old(cache).wf(),
        ensures
            final(cache).wf(),
            r is Ok <==> datagram_column(batch_fields(*batch)) is Some && blobs_readable(
                batch_columns(*batch)[datagram_column(batch_fields(*batch))->0],
            ),
            r matches Ok(rows) ==> (views(rows@), final(cache)@) == stream_outcome(
                batch_inputs(*batch, self.reads(batch_fields(*batch)), now),
                old(cache)@,
                self.restrict,
            ),
            r is Err ==> final(cache)@ == old(cache)@,
            r matches Err(e) ==> if datagram_column(batch_fields(*batch)) is None {
                e matches Fault::Value(t) && t@ == NO_DATAGRAM@
            } else {
                refuses_type(e)
            },
    {
        let schema = schema_of(batch);
        let di: usize = match find_datagram_col(&schema) {
            Ok(i) => i,
            Err(e) => {
                return Err(e);
            },
        };
        let exporter_col = find_named_col(&schema, "exporter");
        let obs_col = if self.with_obs_domain {
            find_named_col(&schema, "obs_domain")
        } else {
            None
        };
        let mode_col = if self.with_mode {
            find_named_col(&schema, "mode")
        } else {
            None
        };
        let ghost cols = self.reads(batch_fields(*batch));
        let ghost inputs = batch_inputs(*batch, cols, now);
        let ghost start = cache@;
        let ghost column = batch_columns(*batch)[di as int];
        let n: usize = row_count(batch);
        let mut rows: Vec<FlowRecord> = Vec::new();
        let mut row: usize = 0;
        proof {
            assert(inputs.take(0) =~= Seq::empty());
            assert(views(rows@) =~= Seq::<FlowView>::empty());
        }
        while row < n
            invariant
                cache.wf(),
                n == batch_rows(*batch),
                forall|i: int|
                    0 <= i < batch_columns(*batch).len() ==> (#[trigger] batch_columns(
                        *batch,
                    )[i]).cells.len() == n,
                batch_fields(*batch).len() == batch_columns(*batch).len(),
                row <= n,
                di < batch_columns(*batch).len(),
                exporter_col matches Some(i) ==> i < batch_columns(*batch).len(),
                obs_col matches Some(i) ==> i < batch_columns(*batch).len(),
                mode_col matches Some(i) ==> i < batch_columns(*batch).len(),
                cols.datagram == di,
                cols.exporter == as_index(exporter_col),
                cols.obs_domain == as_index(obs_col),
                cols.mode == as_index(mode_col),
                inputs == batch_inputs(*batch, cols, now),
                column == batch_columns(*batch)[di as int],
                forall|i: int|
                    0 <= i < row ==> #[trigger] blob_readable(column.ty, column.cells[i]),
                (views(rows@), cache@) == stream_outcome(
                    inputs.take(row as int),
                    start,
                    self.restrict,
                ),
                !is_blob(column.ty) ==> cache@ == start,
                cols == self.reads(batch_fields(*batch)),
                datagram_column(batch_fields(*batch)) == Some(di as int),
                start == old(cache)@,
            decreases n - row,
        {
            proof {
                assert(inputs.take(row + 1).drop_last() =~= inputs.take(row as int));
                assert(inputs.take(row + 1).last() == inputs[row as int]);
                assert(has_cell(*batch, di, row));
            }
            let bytes = match blob_bytes(batch, di, row) {
                Ok(Some(bytes)) => bytes,
                Ok(None) => {
                    row = row + 1;
                    continue;
                },
                Err(e) => {
                    assert(!blob_readable(column.ty, column.cells[row as int]));
                    return Err(e);
                },
            };
            let exporter = match exporter_col {
                Some(i) => match text_at(batch, i, row) {
                    Some(t) => t,
                    None => String::new(),
                },
                None => String::new(),
            };
            let obs_domain_override = match obs_col {
                Some(i) => u32_at(batch, i, row),
                None => None,
            };
            let mode = match mode_col {
                Some(i) => match text_at(batch, i, row) {
                    Some(t) => Mode::parse(t.as_str()),
                    None => Mode::Auto,
                },
                None => Mode::Auto,
            };
            let opts = DecodeOptions { exporter, obs_domain_override, mode, now_micros: now };
            assert(inputs[row as int] == (Some(bytes@), opts@));
            let ghost before = views(rows@);
            let ghost c0 = cache@;
            let mut more = decode_datagram(bytes, &opts, cache, self.restrict);
            let ghost got = views(more@);
            rows.append(&mut more);
            assert(views(rows@) =~= before + got);
            row = row + 1;
        }
        assert(inputs.take(row as int) =~= inputs);
        Ok(rows)
    }
}

/// The text of an optional column in a row.
pub open spec fn text_in_row(b: Batch, col: Option<int>, row: int) -> Option<Seq<char>> {
    match col {
        Some(i) => text_in(batch_columns(b)[i].ty, batch_columns(b)[i].cells[row]),
        None => None,
    }
}

/// What a decode function reads of a row: the datagram and the options to decode
/// it with.
pub open spec fn row_input(b: Batch, cols: InputColumns, now: i64, row: int) -> (
    Option<Seq<u8>>,
    OptionsView,
) {
    (
        blob_of(batch_columns(b)[cols.datagram].cells[row]),
        OptionsView {
            exporter: match text_in_row(b, cols.exporter, row) {
                Some(t) => t,
                None => Seq::empty(),
            },
            obs_domain_override: match cols.obs_domain {
                Some(i) => u32_in(batch_columns(b)[i].ty, batch_columns(b)[i].cells[row]),
                None => None,
            },
            mode: match text_in_row(b, cols.mode, row) {
                Some(t) => mode_of(t),
                None => Mode::Auto,
            },
            now_micros: now,
        },
    )
}

/// What a decode function reads of a batch.
pub open spec fn batch_inputs(b: Batch, cols: InputColumns, now: i64) -> Seq<
    (Option<Seq<u8>>, OptionsView),
> {
    Seq::new(batch_rows(b), |row: int| row_input(b, cols, now, row))
}

/// The rows of datagrams decoded in order, and the cache after them: each is
/// decoded with the cache that the ones before it left.
pub open spec fn stream_outcome(
    inputs: Seq<(Option<Seq<u8>>, OptionsView)>,
    cache: CacheView,
    restrict: Restrict,
) -> (Seq<FlowView>, CacheView)
    decreases inputs.len(),
{
    if inputs.len() == 0 {
        (Seq::empty(), cache)
    } else {
        let before = stream_outcome(inputs.drop_last(), cache, restrict);
        match inputs.last().0 {
            Some(d) => {
                let one = datagram_outcome(d, inputs.last().1, before.1, restrict);
                (before.0 + one.0, one.1)
            },
            None => before,
        }
    }
}

/// Datagrams may be fed in any number of batches: decoding one batch and then
/// another, with the cache that the first left, gives the rows and the cache of
/// decoding them as one.
pub proof fn lemma_batches_join(
    a: Seq<(Option<Seq<u8>>, OptionsView)>,
    b: Seq<(Option<Seq<u8>>, OptionsView)>,
    cache: CacheView,
    restrict: Restrict,
)
    ensures
        ({
            let first = stream_outcome(a, cache, restrict);
            let second = stream_outcome(b, first.1, restrict);
            stream_outcome(a + b, cache, restrict) == (first.0 + second.0, second.1)
        }),
    decreases b.len(),
{
    let first = stream_outcome(a, cache, restrict);
    if b.len() == 0 {
        assert(a + b =~= a);
        assert(first.0 + Seq::<FlowView>::empty() =~= first.0);
    } else {
        lemma_batches_join(a, b.drop_last(), cache, restrict);
        assert((a + b).drop_last() =~= a + b.drop_last());
        assert((a + b).last() == b.last());
        let before = stream_outcome(b.drop_last(), first.1, restrict);
        if let Some(d) = b.last().0 {
            let one = datagram_outcome(d, b.last().1, before.1, restrict);
            assert(first.0 + before.0 + one.0 =~= first.0 + (before.0 + one.0));
        }
    }
}

/// The batches at the end of a stream: one of the rows, or none if there are no
/// rows. It is refused exactly where there are rows and the schema does not fit
/// them.
pub fn closing_batches(rows: &[FlowRecord], schema: &Arc<Schema>) -> (r: Result<Vec<Batch>, Fault>)
    requires
        fit_one_batch(rows@),
    ensures
        r is Ok <==> rows@.len() == 0 || batch_ok(schema_fields(**schema), flow_columns(rows@)),
        r matches Ok(v) ==> if rows@.len() == 0 {
            v@.len() == 0
        } else {
            &&& v@.len() == 1
            &&& batch_columns(v@[0]) == flow_columns(rows@)
            &&& batch_fields(v@[0]) == schema_fields(**schema)
        },
        r matches Err(e) ==> e is Arrow,
{
    let mut v: Vec<Batch> = Vec::new();
    if rows.len() > 0 {
        match rows_to_batch(rows, schema) {
            Ok(b) => v.push(b),
            Err(e) => {
                return Err(e);
            },
        }
    }
    Ok(v)
}

} // verus!
