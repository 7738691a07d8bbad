//! How the payload of a Data Set falls into records.

use vstd::arithmetic::div_mod::{lemma_mod_sub_multiples_vanish, lemma_small_mod};
use vstd::prelude::*;

use crate::cache::{CacheView, EntryView, FieldView, TemplateKind};
use crate::decode::record::{
    data_set_rows, field_bytes, min_len, record_bytes, record_of, records_in, records_of, row_start,
    with_fields, CtxView, RowState,
};
use crate::decode::sets::{set_outcome, template_key, SetView};
use crate::normalize::FlowView;

verus! {

/// No field is of variable length.
pub open spec fn all_fixed(fields: Seq<FieldView>) -> bool {
    forall|i: int| 0 <= i < fields.len() ==> (#[trigger] fields[i]).length != 0xFFFF
}

/// The bytes of the fields of a record that is all there, one after another.
spec fn slices(fields: Seq<FieldView>, n: nat, rest: Seq<u8>) -> Seq<Seq<u8>> {
    Seq::new(
        n,
        |i: int|
            rest.subrange(
                min_len(fields.take(i)) as int,
                min_len(fields.take(i + 1)) as int,
            ),
    )
}

/// One more field of fixed length takes its length.
proof fn lemma_min_len_step(fields: Seq<FieldView>, n: int)
    requires
        all_fixed(fields),
        0 <= n < fields.len(),
    ensures
        min_len(fields.take(n + 1)) == min_len(fields.take(n)) + fields[n].length,
{
    let more = fields.take(n + 1);
    assert(more.drop_last() =~= fields.take(n));
    assert(more.last() == fields[n]);
}

/// The first fields take no more than all of them.
proof fn lemma_min_len_prefix(fields: Seq<FieldView>, n: int)
    requires
        all_fixed(fields),
        0 <= n <= fields.len(),
    ensures
        min_len(fields.take(n)) <= min_len(fields),
    decreases fields.len() - n,
{
    if n == fields.len() {
        assert(fields.take(n) =~= fields);
    } else {
        lemma_min_len_step(fields, n);
        lemma_min_len_prefix(fields, n + 1);
    }
}

/// Fields of fixed length that are all there are slices one after another.
proof fn lemma_slices(fields: Seq<FieldView>, n: nat, rest: Seq<u8>)
    requires
        all_fixed(fields),
        n <= fields.len(),
        min_len(fields) <= rest.len(),
    ensures
        record_bytes(fields, n, rest) == Some(
            (slices(fields, n, rest), rest.skip(min_len(fields.take(n as int)) as int)),
        ),
    decreases n,
{
    lemma_min_len_prefix(fields, n as int);
    if n == 0 {
        assert(fields.take(0) =~= Seq::<FieldView>::empty());
        assert(rest.skip(0) =~= rest);
        assert(slices(fields, n, rest) =~= Seq::<Seq<u8>>::empty());
    } else {
        let m = (n - 1) as nat;
        lemma_slices(fields, m, rest);
        lemma_min_len_step(fields, m as int);
        let a = min_len(fields.take(m as int)) as int;
        let len = fields[m as int].length as int;
        let after = rest.skip(a);
        assert(field_bytes(fields[m as int], after) == Some((after.take(len), after.skip(len))));
        assert(after.take(len) =~= rest.subrange(a, a + len));
        assert(after.skip(len) =~= rest.skip(a + len));
        assert(slices(fields, m, rest).push(after.take(len)) =~= slices(fields, n, rest));
    }
}

/// The record at the front is that of its own bytes, whatever follows them.
proof fn lemma_record_at_front(fields: Seq<FieldView>, rest: Seq<u8>, ctx: CtxView)
    requires
        all_fixed(fields),
        min_len(fields) <= rest.len(),
    ensures
        ({
            let m = min_len(fields) as int;
            &&& record_of(fields, rest.take(m), ctx) is Some
            &&& record_of(fields, rest, ctx) == Some(
                ((record_of(fields, rest.take(m), ctx)->0).0, rest.skip(m)),
            )
        }),
{
    let m = min_len(fields) as int;
    let n = fields.len();
    lemma_slices(fields, n, rest);
    lemma_slices(fields, n, rest.take(m));
    assert(fields.take(n as int) =~= fields);
    assert(slices(fields, n, rest) =~= slices(fields, n, rest.take(m))) by {
        assert forall|i: int| 0 <= i < n implies #[trigger] slices(fields, n, rest)[i] == slices(
            fields,
            n,
            rest.take(m),
        )[i] by {
            lemma_min_len_step(fields, i);
            lemma_min_len_prefix(fields, i + 1);
            let (a, b) = (min_len(fields.take(i)) as int, min_len(fields.take(i + 1)) as int);
            assert(rest.subrange(a, b) =~= rest.take(m).subrange(a, b));
        }
    }
}

/// The row of the `i`th record of a payload, where every record takes `m` bytes.
pub open spec fn nth_record(
    fields: Seq<FieldView>,
    payload: Seq<u8>,
    ctx: CtxView,
    i: int,
) -> FlowView {
    let m = min_len(fields) as int;
    (record_of(fields, payload.subrange(m * i, m * i + m), ctx)->0).0
}

/// By a template of fixed-length fields a payload falls into as many records as it
/// holds whole ones, each decoded from its own bytes; what is left is padding.
pub proof fn lemma_fixed_records(fields: Seq<FieldView>, payload: Seq<u8>, ctx: CtxView)
    requires
        all_fixed(fields),
        min_len(fields) > 0,
    ensures
        records_of(fields, payload, ctx) == Seq::new(
            payload.len() / min_len(fields),
            |i: int| nth_record(fields, payload, ctx, i),
        ),
    decreases payload.len(),
{
    let m = min_len(fields) as int;
    let n = payload.len() as int;
    let all = Seq::new(
        payload.len() / min_len(fields),
        |i: int| nth_record(fields, payload, ctx, i),
    );
    if n < m {
        assert(n / m == 0) by (nonlinear_arith)
            requires
                0 <= n < m,
        ;
        assert(all =~= Seq::<FlowView>::empty());
    } else {
        let rest = payload.skip(m);
        lemma_record_at_front(fields, payload, ctx);
        lemma_fixed_records(fields, rest, ctx);
        assert((n - m) / m == n / m - 1) by (nonlinear_arith)
            requires
                0 < m <= n,
        ;
        assert(payload.take(m) =~= payload.subrange(m * 0, m * 0 + m));
        let later = Seq::new(
            rest.len() / min_len(fields),
            |i: int| nth_record(fields, rest, ctx, i),
        );
        assert(seq![nth_record(fields, payload, ctx, 0)] + later =~= all) by {
            assert forall|i: int| 0 <= i < all.len() implies #[trigger] all[i] == (seq![
                nth_record(fields, payload, ctx, 0),
            ] + later)[i] by {
                if i > 0 {
                    assert(m * i == m * (i - 1) + m && 0 <= m * (i - 1) && m * i + m <= n)
                        by (nonlinear_arith)
                        requires
                            0 < m <= n,
                            1 <= i < n / m,
                    ;
                    assert(rest.subrange(m * (i - 1), m * (i - 1) + m) =~= payload.subrange(
                        m * i,
                        m * i + m,
                    ));
                }
            }
        }
    }
}

/// Whole records may be cut anywhere between two of them: the rows of payloads that
/// follow one another are the rows of the first and then those of the second.
pub proof fn lemma_records_concatenate(
    fields: Seq<FieldView>,
    a: Seq<u8>,
    b: Seq<u8>,
    ctx: CtxView,
)
    requires
        all_fixed(fields),
        min_len(fields) > 0,
        a.len() % min_len(fields) == 0,
    ensures
        records_of(fields, a + b, ctx) == records_of(fields, a, ctx) + records_of(fields, b, ctx),
    decreases a.len(),
{
    let m = min_len(fields) as int;
    let n = a.len() as int;
    if n == 0 {
        assert(a + b =~= b);
        assert(records_of(fields, a, ctx) + records_of(fields, b, ctx) =~= records_of(
            fields,
            b,
            ctx,
        ));
    } else {
        if n < m {
            lemma_small_mod(a.len(), min_len(fields));
        }
        lemma_mod_sub_multiples_vanish(n, m);
        let rest = a.skip(m);
        lemma_record_at_front(fields, a, ctx);
        lemma_record_at_front(fields, a + b, ctx);
        assert((a + b).take(m) =~= a.take(m));
        assert((a + b).skip(m) =~= rest + b);
        lemma_records_concatenate(fields, rest, b, ctx);
        assert(records_of(fields, a + b, ctx) =~= records_of(fields, a, ctx) + records_of(
            fields,
            b,
            ctx,
        ));
    }
}

/// A decoded record names the template that it was decoded by.
proof fn lemma_record_names_template(
    st: RowState,
    fields: Seq<FieldView>,
    vals: Seq<Seq<u8>>,
    n: nat,
)
    ensures
        with_fields(st, fields, vals, n).row.template_id == st.row.template_id,
    decreases n,
{
    if n > 0 {
        lemma_record_names_template(st, fields, vals, (n - 1) as nat);
    }
}

/// The template of a Data Set counts its records: all its rows but a last one that
/// says `truncated`.
pub proof fn lemma_records_counted(fields: Seq<FieldView>, payload: Seq<u8>, ctx: CtxView)
    ensures
        ({
            let rows = records_of(fields, payload, ctx);
            &&& forall|i: int|
                0 <= i < rows.len() ==> (#[trigger] rows[i]).template_id == Some(ctx.template_id)
                    || i == rows.len() - 1 && rows[i].template_id is None && rows[i].diagnostics
                    == Some("truncated"@)
            &&& records_in(rows) == rows.len() || rows.last().template_id is None && records_in(
                rows,
            ) == rows.len() - 1
        }),
    decreases payload.len(),
{
    let rows = records_of(fields, payload, ctx);
    if payload.len() > 0 && payload.len() >= min_len(fields) {
        match record_of(fields, payload, ctx) {
            None => {
                assert(rows.drop_last() =~= Seq::<FlowView>::empty());
                reveal_with_fuel(records_in, 2);
            },
            Some((row, after)) => {
                let vals = (record_bytes(fields, fields.len(), payload)->0).0;
                lemma_record_names_template(row_start(ctx), fields, vals, fields.len());
                let later = if after.len() < payload.len() {
                    lemma_records_counted(fields, after, ctx);
                    records_of(fields, after, ctx)
                } else {
                    Seq::empty()
                };
                assert(rows =~= seq![row] + later);
                lemma_records_in_front(row, later);
                assert forall|i: int| 0 <= i < rows.len() implies (#[trigger] rows[i]).template_id
                    == Some(ctx.template_id) || i == rows.len() - 1 && rows[i].template_id is None
                    && rows[i].diagnostics == Some("truncated"@) by {
                    if i > 0 {
                        assert(rows[i] == later[i - 1]);
                    }
                }
            },
        }
    }
}

/// A record in front of other rows is one more.
proof fn lemma_records_in_front(row: FlowView, later: Seq<FlowView>)
    requires
        row.template_id is Some,
    ensures
        records_in(seq![row] + later) == 1 + records_in(later),
    decreases later.len(),
{
    let rows = seq![row] + later;
    if later.len() == 0 {
        assert(rows.drop_last() =~= Seq::<FlowView>::empty());
        reveal_with_fuel(records_in, 2);
    } else {
        assert(rows.drop_last() =~= seq![row] + later.drop_last());
        assert(rows.last() == later.last());
        lemma_records_in_front(row, later.drop_last());
    }
}

/// A Data Set under a template of fixed-length fields: as many rows as it holds
/// whole records, all of them counted; none for options where only flows are wanted.
pub proof fn lemma_fixed_data_set(
    tpl: EntryView,
    payload: Seq<u8>,
    ctx: CtxView,
    flows_only: bool,
)
    requires
        all_fixed(tpl.fields),
        min_len(tpl.fields) > 0,
    ensures
        ({
            let rows = data_set_rows(tpl, payload, ctx, flows_only);
            &&& rows.len() == if flows_only && tpl.kind == TemplateKind::Options {
                0
            } else {
                payload.len() / min_len(tpl.fields)
            }
            &&& records_in(rows) == rows.len()
        }),
{
    let rows = records_of(tpl.fields, payload, ctx);
    lemma_fixed_records(tpl.fields, payload, ctx);
    lemma_records_counted(tpl.fields, payload, ctx);
    if rows.len() > 0 {
        let (m, i) = (min_len(tpl.fields) as int, rows.len() - 1);
        let n = payload.len() as int;
        assert(0 <= m * i && m * i + m <= n) by (nonlinear_arith)
            requires
                m > 0,
                n >= 0,
                0 <= i < n / m,
        ;
        let own = payload.subrange(m * i, m * i + m);
        lemma_record_at_front(tpl.fields, own, ctx);
        let vals = (record_bytes(tpl.fields, tpl.fields.len(), own.take(m))->0).0;
        assert(own.take(m) =~= own);
        lemma_record_names_template(row_start(ctx), tpl.fields, vals, tpl.fields.len());
        assert(rows[i] == nth_record(tpl.fields, payload, ctx, i));
    }
}

/// A known template counts the records that are decoded by it: under fixed-length
/// fields a Data Set raises its count by as many as it holds whole records.
pub proof fn lemma_use_count(
    cache: CacheView,
    set: SetView,
    ctx: CtxView,
    now: i64,
    flows_only: bool,
)
    requires
        set.id >= 256,
        set.body.len() <= 0xFFFF,
        ({
            let k = template_key(ctx.exporter, ctx.obs_domain, set.id);
            &&& cache.entries.dom().contains(k)
            &&& all_fixed(cache.entries[k].fields)
            &&& min_len(cache.entries[k].fields) > 0
            &&& cache.entries[k].use_count + 0xFFFF <= u64::MAX
            &&& !flows_only || cache.entries[k].kind == TemplateKind::Data
        }),
    ensures
        ({
            let k = template_key(ctx.exporter, ctx.obs_domain, set.id);
            let after = set_outcome(cache, set, ctx, now, flows_only).1;
            &&& after.entries.dom() == cache.entries.dom()
            &&& after.entries[k].last_seen == now
            &&& after.entries[k].use_count == cache.entries[k].use_count + set.body.len() / min_len(
                cache.entries[k].fields,
            )
        }),
{
    let k = template_key(ctx.exporter, ctx.obs_domain, set.id);
    let e = cache.entries[k];
    lemma_fixed_data_set(e, set.body, CtxView { template_id: set.id, ..ctx }, flows_only);
    let (n, m) = (set.body.len() as int, min_len(e.fields) as int);
    assert(0 <= n / m <= n) by (nonlinear_arith)
        requires
            n >= 0,
            m > 0,
    ;
    assert(set_outcome(cache, set, ctx, now, flows_only).1.entries.dom() =~= cache.entries.dom());
}

} // verus!
