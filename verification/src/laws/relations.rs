//! How a relation is read: which columns, and what of each row.

use vstd::prelude::*;

use crate::columns::{
    batch_columns, batch_fields, batch_rows, Batch, Cell, ColumnView, FieldDesc, TypeView,
};
use crate::cache::CacheView;
use crate::decode::{datagram_outcome, mode_of, Mode, OptionsView, Restrict};
use crate::flows::{
    batch_inputs, datagram_column, lemma_batches_join, lemma_first_where, lowered, named_column,
    stream_outcome, text_in, u32_in, FlowDecode,
};
use crate::normalize::FlowView;
use crate::scalar::{blob_readable, blobs_of, blobs_readable, is_blob};

verus! {

/// Two characters that are the same, or the same Latin letter in two cases.
pub open spec fn same_letter(a: char, b: char) -> bool {
    ||| a == b
    ||| 'A' <= a <= 'Z' && b as int == a as int + 32
    ||| 'A' <= b <= 'Z' && a as int == b as int + 32
}

/// Two texts that differ in nothing but the case of Latin letters.
pub open spec fn alike(a: Seq<char>, b: Seq<char>) -> bool {
    &&& a.len() == b.len()
    &&& forall|i: int| 0 <= i < a.len() ==> same_letter(#[trigger] a[i], b[i])
}

/// Texts in lower case are equal exactly where the texts are alike.
pub proof fn lemma_lowered_alike(a: Seq<char>, b: Seq<char>)
    ensures
        lowered(a) == lowered(b) <==> alike(a, b),
{
    if lowered(a) == lowered(b) {
        assert(a.len() == lowered(a).len() && b.len() == lowered(b).len());
        assert forall|i: int| 0 <= i < a.len() implies same_letter(#[trigger] a[i], b[i]) by {
            assert(lowered(a)[i] == lowered(b)[i]);
        }
    }
    if alike(a, b) {
        assert forall|i: int| 0 <= i < a.len() implies lowered(a)[i] == lowered(b)[i] by {
            assert(same_letter(a[i], b[i]));
        }
        assert(lowered(a) =~= lowered(b));
    }
}

/// A column that goes by a name, with no such column before it.
pub open spec fn is_first_named(fields: Seq<FieldDesc>, name: Seq<char>, i: int) -> bool {
    &&& 0 <= i < fields.len()
    &&& alike(fields[i].name, name)
    &&& forall|k: int| 0 <= k < i ==> !alike((#[trigger] fields[k]).name, name)
}

/// No column goes by a name.
pub open spec fn none_named(fields: Seq<FieldDesc>, name: Seq<char>) -> bool {
    forall|k: int| 0 <= k < fields.len() ==> !alike((#[trigger] fields[k]).name, name)
}

/// A column is found by its name, whatever the case of the letters, and the first of
/// several wins.
pub proof fn lemma_column_by_name(fields: Seq<FieldDesc>, name: Seq<char>)
    ensures
        match named_column(fields, name) {
            Some(i) => is_first_named(fields, name, i),
            None => none_named(fields, name),
        },
{
    let p = |i: int| lowered(fields[i].name) == lowered(name);
    lemma_first_where(fields.len(), p);
    assert forall|k: int| 0 <= k < fields.len() implies p(k) == alike(
        (#[trigger] fields[k]).name,
        name,
    ) by {
        lemma_lowered_alike(fields[k].name, name);
    }
}

/// A column of byte strings.
pub open spec fn holds_bytes(f: FieldDesc) -> bool {
    f.ty == TypeView::Binary || f.ty == TypeView::LargeBinary
}

/// The datagrams stand in the column `datagram`; where there is none, in `content`; where
/// there is none of these, in `blob`; else in the first column of byte strings; and where
/// there is none of those either, nowhere.
pub proof fn lemma_datagram_column(fields: Seq<FieldDesc>)
    ensures
        ({
            let (a, b, c) = (
                none_named(fields, "datagram"@),
                none_named(fields, "content"@),
                none_named(fields, "blob"@),
            );
            match datagram_column(fields) {
                Some(i) => {
                    ||| is_first_named(fields, "datagram"@, i)
                    ||| a && is_first_named(fields, "content"@, i)
                    ||| a && b && is_first_named(fields, "blob"@, i)
                    ||| a && b && c && 0 <= i < fields.len() && holds_bytes(fields[i]) && forall|
                        k: int,
                    |
                        0 <= k < i ==> !holds_bytes(#[trigger] fields[k])
                },
                None => a && b && c && forall|k: int|
                    0 <= k < fields.len() ==> !holds_bytes(#[trigger] fields[k]),
            }
        }),
{
    lemma_column_by_name(fields, "datagram"@);
    lemma_column_by_name(fields, "content"@);
    lemma_column_by_name(fields, "blob"@);
    let p = |i: int| is_blob(fields[i].ty);
    lemma_first_where(fields.len(), p);
    assert(forall|k: int|
        0 <= k < fields.len() ==> p(k) == holds_bytes(#[trigger] fields[k]));
}

/// The label of a mode is read exactly; any other text means the automatic mode.
pub proof fn lemma_modes(s: Seq<char>)
    ensures
        mode_of(s) == Mode::FlowsOnly <==> s == "flows-only"@,
        mode_of(s) == Mode::All <==> s == "all"@,
        mode_of(s) == Mode::Auto <==> s != "flows-only"@ && s != "all"@,
{
    reveal_strlit("flows-only");
    reveal_strlit("all");
    assert("flows-only"@.len() != "all"@.len());
}

/// Text is read from columns of text and from no others; numbers are read from columns of
/// integers and from no others, by their low thirty-two bits.
pub proof fn lemma_cells_read(ty: TypeView, t: Seq<char>, n: int, b: Seq<u8>)
    ensures
        text_in(ty, Cell::Text(t)) == (if ty == TypeView::Utf8 || ty == TypeView::LargeUtf8 {
            Some(t)
        } else {
            None
        }),
        text_in(ty, Cell::Null) is None,
        text_in(ty, Cell::Num(n)) is None,
        u32_in(ty, Cell::Null) is None,
        u32_in(ty, Cell::Text(t)) is None,
        match u32_in(ty, Cell::Num(n)) {
            Some(v) => {
                &&& (n - v) % 4_294_967_296 == 0
                &&& ty == TypeView::U8 || ty == TypeView::U16 || ty == TypeView::U32 || ty
                    == TypeView::U64 || ty == TypeView::I8 || ty == TypeView::I16 || ty
                    == TypeView::I32 || ty == TypeView::I64
            },
            None => ty != TypeView::U8 && ty != TypeView::U16 && ty != TypeView::U32 && ty
                != TypeView::U64 && ty != TypeView::I8 && ty != TypeView::I16 && ty
                != TypeView::I32 && ty != TypeView::I64,
        },
{
}

/// What is read of a row: the bytes of the datagram column, nothing where the cell is
/// null; the exporter and the domain from the columns of these names, and the mode from
/// `mode`, as far as the function reads these; and the time that was handed in.
pub proof fn lemma_row_read(d: FlowDecode, b: Batch, now: i64, row: int, i: int)
    requires
        datagram_column(batch_fields(b)) == Some(i),
        0 <= row < batch_rows(b),
    ensures
        ({
            let fields = batch_fields(b);
            let (bytes, opts) = batch_inputs(b, d.reads(fields), now)[row];
            &&& batch_inputs(b, d.reads(fields), now).len() == batch_rows(b)
            &&& bytes == match batch_columns(b)[i].cells[row] {
                Cell::Bytes(x) => Some(x),
                _ => None,
            }
            &&& opts.now_micros == now
            &&& none_named(fields, "exporter"@) ==> opts.exporter == Seq::<char>::empty()
            &&& forall|k: int| #[trigger]
                is_first_named(fields, "exporter"@, k) ==> opts.exporter == match text_in(
                    batch_columns(b)[k].ty,
                    batch_columns(b)[k].cells[row],
                ) {
                    Some(t) => t,
                    None => Seq::empty(),
                }
            &&& !d.with_obs_domain || none_named(fields, "obs_domain"@)
                ==> opts.obs_domain_override is None
            &&& forall|k: int| #[trigger]
                is_first_named(fields, "obs_domain"@, k) && d.with_obs_domain
                    ==> opts.obs_domain_override == u32_in(
                    batch_columns(b)[k].ty,
                    batch_columns(b)[k].cells[row],
                )
            &&& !d.with_mode || none_named(fields, "mode"@) ==> opts.mode == Mode::Auto
            &&& forall|k: int| #[trigger]
                is_first_named(fields, "mode"@, k) && d.with_mode ==> opts.mode == match text_in(
                    batch_columns(b)[k].ty,
                    batch_columns(b)[k].cells[row],
                ) {
                    Some(t) => mode_of(t),
                    None => Mode::Auto,
                }
        }),
{
    let fields = batch_fields(b);
    lemma_column_by_name(fields, "exporter"@);
    lemma_column_by_name(fields, "obs_domain"@);
    lemma_column_by_name(fields, "mode"@);
    assert forall|k: int| #[trigger] is_first_named(fields, "exporter"@, k) implies named_column(
        fields,
        "exporter"@,
    ) == Some(k) by {
        lemma_first_is_one(fields, "exporter"@, k);
    }
    assert forall|k: int| #[trigger] is_first_named(fields, "obs_domain"@, k) implies named_column(
        fields,
        "obs_domain"@,
    ) == Some(k) by {
        lemma_first_is_one(fields, "obs_domain"@, k);
    }
    assert forall|k: int| #[trigger] is_first_named(fields, "mode"@, k) implies named_column(
        fields,
        "mode"@,
    ) == Some(k) by {
        lemma_first_is_one(fields, "mode"@, k);
    }
}

/// The first column of a name is the one that is found.
proof fn lemma_first_is_one(fields: Seq<FieldDesc>, name: Seq<char>, k: int)
    requires
        is_first_named(fields, name, k),
    ensures
        named_column(fields, name) == Some(k),
{
    lemma_column_by_name(fields, name);
    match named_column(fields, name) {
        Some(i) => {
            assert(alike(fields[i].name, name) && alike(fields[k].name, name));
            if i < k {
                assert(!alike(fields[i].name, name));
            }
        },
        None => {
            assert(!alike(fields[k].name, name));
        },
    }
}

/// One row alone gives the rows of its datagram, and a null gives none and leaves the
/// cache as it was.
pub proof fn lemma_one_row(
    d: Seq<u8>,
    opts: OptionsView,
    cache: CacheView,
    restrict: Restrict,
)
    ensures
        stream_outcome(seq![(Some(d), opts)], cache, restrict) == datagram_outcome(
            d,
            opts,
            cache,
            restrict,
        ),
        stream_outcome(seq![(None, opts)], cache, restrict) == (Seq::<FlowView>::empty(), cache),
        stream_outcome(Seq::empty(), cache, restrict) == (Seq::<FlowView>::empty(), cache),
{
    let none = Seq::<(Option<Seq<u8>>, OptionsView)>::empty();
    let one = seq![(Some(d), opts)];
    let null = seq![(None::<Seq<u8>>, opts)];
    assert(one.drop_last() =~= none);
    assert(null.drop_last() =~= none);
    assert(stream_outcome(none, cache, restrict) == (Seq::<FlowView>::empty(), cache));
    let rows = datagram_outcome(d, opts, cache, restrict).0;
    assert(Seq::<FlowView>::empty() + rows =~= rows);
}

/// Each datagram is decoded with what the ones before it taught: the rows of one more come
/// behind the others, from the cache that the others left.
pub proof fn lemma_one_more_row(
    inputs: Seq<(Option<Seq<u8>>, OptionsView)>,
    d: Seq<u8>,
    opts: OptionsView,
    cache: CacheView,
    restrict: Restrict,
)
    ensures
        ({
            let before = stream_outcome(inputs, cache, restrict);
            let one = datagram_outcome(d, opts, before.1, restrict);
            stream_outcome(inputs.push((Some(d), opts)), cache, restrict) == (
                before.0 + one.0,
                one.1,
            )
        }),
{
    let next = seq![(Some(d), opts)];
    let before = stream_outcome(inputs, cache, restrict);
    lemma_batches_join(inputs, next, cache, restrict);
    lemma_one_row(d, opts, before.1, restrict);
    assert(inputs + next =~= inputs.push((Some(d), opts)));
}

/// A column can be read as datagrams where it holds byte strings or nothing but nulls, and
/// is then read cell by cell: the bytes of each, and nothing for a null.
pub proof fn lemma_blob_column(c: ColumnView, i: int)
    requires
        0 <= i < c.cells.len(),
    ensures
        blobs_readable(c) <==> c.ty == TypeView::Binary || c.ty == TypeView::LargeBinary || (
        forall|k: int| 0 <= k < c.cells.len() ==> #[trigger] c.cells[k] == Cell::Null),
        blobs_of(c).len() == c.cells.len(),
        c.cells[i] == Cell::Null ==> blobs_of(c)[i] is None,
        c.cells[i] matches Cell::Bytes(b) ==> blobs_of(c)[i] == Some(b),
{
    if blobs_readable(c) && !is_blob(c.ty) {
        assert forall|k: int| 0 <= k < c.cells.len() implies #[trigger] c.cells[k]
            == Cell::Null by {
            assert(blob_readable(c.ty, c.cells[k]));
        }
    }
}

} // verus!
