//! Data that comes before its template is never dropped: it is buffered, or given
//! up in a `missing-template` row; what is buffered stays until its template is
//! known and is then decoded, and what is left at the end is given up row by row.

use vstd::prelude::*;

use crate::cache::{
    empty_cache, records_since, restored, total_bytes, CacheView, EntryView, KeyView, PendingView,
};
use crate::decode::record::{records_in, CtxView};
use crate::decode::sets::{
    fresh_entry, learned, missing_text, pending_of, set_outcome, sets_outcome, template_key,
    SetView, TemplateDef,
};
use crate::decode::{
    all_given_up, datagram_outcome, decoded, given_up, is_templated, key_retried, keys_retried,
    pending_rows, refused_row, retried, Mode, OptionsView, Restrict,
};
use crate::decode::header::{format_of, Format};
use crate::flows::stream_outcome;
use crate::keymap::{
    ascending, key_lt, lemma_key_lt_order, lemma_lists, lemma_ordered_keys, lists, ordered_keys,
};
use crate::laws::bounds::{
    lemma_buffer_within_caps, lemma_take_within_caps, lemma_upsert_within_caps,
    lemma_use_within_caps, within_caps,
};
use crate::laws::layouts::{
    ctx_in, defs_in, layout, lemma_decoded_shape, lemma_retry_keeps_layouts, sets_in,
};
use crate::normalize::FlowView;

verus! {

/// A Data Set whose template is not known is not dropped: it joins what is buffered
/// under its key, or, if there is no room, gives a row that names the template.
pub proof fn lemma_unknown_data_is_kept(
    cache: CacheView,
    set: SetView,
    ctx: CtxView,
    now: i64,
    flows_only: bool,
)
    requires
        set.id >= 256,
        !cache.entries.dom().contains(template_key(ctx.exporter, ctx.obs_domain, set.id)),
    ensures
        ({
            let k = template_key(ctx.exporter, ctx.obs_domain, set.id);
            let (rows, after) = set_outcome(cache, set, ctx, now, flows_only);
            if cache.has_room(set.body.len()) {
                &&& rows.len() == 0
                &&& after.waiting(k) == cache.waiting(k).push(pending_of(set.body, ctx))
            } else {
                &&& after == cache
                &&& rows.len() == 1
                &&& rows[0].diagnostics == Some(missing_text(ctx.obs_domain, set.id))
            }
        }),
{
}

/// Working through sets only adds to what is buffered.
pub proof fn lemma_sets_only_buffer(
    cache: CacheView,
    sets: Seq<SetView>,
    ctx: CtxView,
    now: i64,
    flows_only: bool,
    k: KeyView,
)
    ensures
        cache.waiting(k).is_prefix_of(
            sets_outcome(cache, sets, ctx, now, flows_only).1.waiting(k),
        ),
        cache.pending.dom().contains(k) ==> sets_outcome(
            cache,
            sets,
            ctx,
            now,
            flows_only,
        ).1.pending.dom().contains(k),
    decreases sets.len(),
{
    if sets.len() > 0 {
        let first = set_outcome(cache, sets[0], ctx, now, flows_only);
        lemma_sets_only_buffer(first.1, sets.drop_first(), ctx, now, flows_only, k);
        let rest = sets_outcome(first.1, sets.drop_first(), ctx, now, flows_only);
        assert(cache.waiting(k).is_prefix_of(first.1.waiting(k)));
        assert(cache.waiting(k) =~= rest.1.waiting(k).take(cache.waiting(k).len() as int));
    }
}

/// Buffered data decodes by kind and fields alone.
proof fn lemma_rows_by_layout(
    a: EntryView,
    b: EntryView,
    key: KeyView,
    recs: Seq<PendingView>,
    flows_only: bool,
)
    requires
        layout(a) == layout(b),
    ensures
        pending_rows(a, key, recs, flows_only) == pending_rows(b, key, recs, flows_only),
    decreases recs.len(),
{
    if recs.len() > 0 {
        lemma_rows_by_layout(a, b, key, recs.drop_first(), flows_only);
    }
}

/// Keys in ascending order do not repeat.
proof fn lemma_ascending_tail(keys: Seq<KeyView>, k: KeyView)
    requires
        ascending(keys),
        keys.len() > 0,
    ensures
        ascending(keys.drop_first()),
        !keys.drop_first().contains(keys[0]),
        keys.contains(k) <==> k == keys[0] || keys.drop_first().contains(k),
{
    let rest = keys.drop_first();
    assert forall|i: int, j: int| 0 <= i < j < rest.len() implies key_lt(
        #[trigger] rest[i],
        #[trigger] rest[j],
    ) by {
        assert(rest[i] == keys[i + 1]);
        assert(rest[j] == keys[j + 1]);
    }
    if rest.contains(keys[0]) {
        let j = choose|j: int| 0 <= j < rest.len() && rest[j] == keys[0];
        assert(key_lt(keys[0], keys[j + 1]));
        lemma_key_lt_order(keys[0], keys[0], keys[0]);
    }
    if keys.contains(k) && k != keys[0] {
        let j = choose|j: int| 0 <= j < keys.len() && keys[j] == k;
        assert(rest[j - 1] == k);
    }
    if rest.contains(k) {
        let j = choose|j: int| 0 <= j < rest.len() && rest[j] == k;
        assert(keys[j + 1] == k);
    }
    assert(keys[0] == keys[0] && keys.contains(keys[0]));
}

/// A retry decodes all that is buffered under a listed key whose template is known,
/// and removes it; under any other key nothing changes.
pub proof fn lemma_keys_retried(
    cache: CacheView,
    keys: Seq<KeyView>,
    now: i64,
    flows_only: bool,
    k: KeyView,
)
    requires
        ascending(keys),
    ensures
        ({
            let (rows, after) = keys_retried(cache, keys, now, flows_only);
            if keys.contains(k) && cache.entries.dom().contains(k) {
                &&& !after.pending.dom().contains(k)
                &&& exists|a: Seq<FlowView>, b: Seq<FlowView>|
                    rows == #[trigger] (a + pending_rows(
                        cache.entries[k],
                        k,
                        cache.waiting(k),
                        flows_only,
                    ) + b)
            } else {
                &&& after.pending.dom().contains(k) == cache.pending.dom().contains(k)
                &&& after.waiting(k) == cache.waiting(k)
            }
        }),
    decreases keys.len(),
{
    if keys.len() > 0 {
        let first = key_retried(cache, keys[0], now, flows_only);
        let tail = keys.drop_first();
        let rest = keys_retried(first.1, tail, now, flows_only);
        lemma_ascending_tail(keys, k);
        lemma_keys_retried(first.1, tail, now, flows_only, k);
        assert(first.1.entries.dom() =~= cache.entries.dom());
        if keys.contains(k) && cache.entries.dom().contains(k) {
            let mine = pending_rows(cache.entries[k], k, cache.waiting(k), flows_only);
            if k == keys[0] {
                assert(first.0 + rest.0 =~= Seq::<FlowView>::empty() + mine + rest.0);
            } else {
                assert(first.1.waiting(k) == cache.waiting(k));
                lemma_rows_by_layout(
                    cache.entries[k],
                    first.1.entries[k],
                    k,
                    cache.waiting(k),
                    flows_only,
                );
                let (a, b) = choose|a: Seq<FlowView>, b: Seq<FlowView>|
                    rest.0 == #[trigger] (a + mine + b);
                assert(first.0 + rest.0 =~= (first.0 + a) + mine + b);
            }
        }
    }
}

/// A retry decodes everything that is buffered under a key whose template is known,
/// in order and all of it, and removes it; what lacks a template stays as it is.
pub proof fn lemma_retry(cache: CacheView, now: i64, flows_only: bool, k: KeyView)
    requires
        cache.pending.dom().finite(),
    ensures
        ({
            let (rows, after) = retried(cache, now, flows_only);
            &&& cache.pending.dom().contains(k) && cache.entries.dom().contains(k) ==> {
                &&& !after.pending.dom().contains(k)
                &&& exists|a: Seq<FlowView>, b: Seq<FlowView>|
                    rows == #[trigger] (a + pending_rows(
                        cache.entries[k],
                        k,
                        cache.pending[k],
                        flows_only,
                    ) + b)
            }
            &&& !cache.entries.dom().contains(k) ==> {
                &&& after.pending.dom().contains(k) == cache.pending.dom().contains(k)
                &&& after.waiting(k) == cache.waiting(k)
            }
        }),
{
    lemma_ordered_keys(cache.pending.dom());
    lemma_keys_retried(cache, ordered_keys(cache.pending.dom()), now, flows_only, k);
}

/// Nothing is buffered whose template is known.
pub open spec fn settled(cache: CacheView) -> bool {
    forall|k: KeyView| #[trigger]
        cache.pending.dom().contains(k) ==> !cache.entries.dom().contains(k)
}

/// After a retry nothing is buffered whose template is known.
pub proof fn lemma_retry_settles(cache: CacheView, now: i64, flows_only: bool)
    requires
        cache.pending.dom().finite(),
    ensures
        settled(retried(cache, now, flows_only).1),
{
    let after = retried(cache, now, flows_only).1;
    lemma_retry_keeps_layouts(cache, ordered_keys(cache.pending.dom()), now, flows_only);
    assert forall|k: KeyView| #[trigger] after.pending.dom().contains(k) implies
        !after.entries.dom().contains(k) by {
        if after.entries.dom().contains(k) {
            assert(cache.entries.dom().contains(k));
            lemma_ordered_keys(cache.pending.dom());
            lemma_keys_retried(cache, ordered_keys(cache.pending.dom()), now, flows_only, k);
        }
    }
}

/// A retry of a settled cache does nothing.
pub proof fn lemma_settled_retry(cache: CacheView, keys: Seq<KeyView>, now: i64, flows_only: bool)
    requires
        settled(cache),
        forall|i: int| 0 <= i < keys.len() ==> cache.pending.dom().contains(#[trigger] keys[i]),
    ensures
        keys_retried(cache, keys, now, flows_only) == (Seq::<FlowView>::empty(), cache),
    decreases keys.len(),
{
    if keys.len() > 0 {
        assert(cache.pending.dom().contains(keys[0]));
        let rest = keys.drop_first();
        assert forall|i: int| 0 <= i < rest.len() implies cache.pending.dom().contains(
            #[trigger] rest[i],
        ) by {
            assert(rest[i] == keys[i + 1]);
        }
        lemma_settled_retry(cache, rest, now, flows_only);
        assert(Seq::<FlowView>::empty() + Seq::<FlowView>::empty() =~= Seq::<FlowView>::empty());
    }
}

/// Working through sets keeps the pending buffer finite and the cache within its
/// caps.
pub proof fn lemma_sets_within_caps(
    cache: CacheView,
    sets: Seq<SetView>,
    ctx: CtxView,
    now: i64,
    flows_only: bool,
)
    requires
        cache.pending.dom().finite(),
    ensures
        sets_outcome(cache, sets, ctx, now, flows_only).1.pending.dom().finite(),
        within_caps(cache) ==> within_caps(sets_outcome(cache, sets, ctx, now, flows_only).1),
    decreases sets.len(),
{
    if sets.len() > 0 {
        let first = set_outcome(cache, sets[0], ctx, now, flows_only);
        let k = template_key(ctx.exporter, ctx.obs_domain, sets[0].id);
        if within_caps(cache) {
            lemma_use_within_caps(cache, k, now, records_in(first.0) as u64);
            lemma_buffer_within_caps(cache, k, pending_of(sets[0].body, ctx));
        }
        lemma_sets_within_caps(first.1, sets.drop_first(), ctx, now, flows_only);
    }
}

/// Learning templates keeps the cache within its caps.
pub proof fn lemma_learned_within_caps(
    cache: CacheView,
    defs: Seq<TemplateDef>,
    exporter: Seq<char>,
    obs_domain: u32,
    now: i64,
)
    requires
        within_caps(cache),
    ensures
        within_caps(learned(cache, defs, exporter, obs_domain, now)),
    decreases defs.len(),
{
    if defs.len() > 0 {
        let k = template_key(exporter, obs_domain, defs[0].id);
        let e = fresh_entry(defs[0], now);
        lemma_upsert_within_caps(cache, k, e);
        lemma_learned_within_caps(
            cache.upserted(k, e),
            defs.drop_first(),
            exporter,
            obs_domain,
            now,
        );
    }
}

/// Retrying keeps the pending buffer finite and the cache within its caps.
pub proof fn lemma_retry_within_caps(
    cache: CacheView,
    keys: Seq<KeyView>,
    now: i64,
    flows_only: bool,
)
    requires
        cache.pending.dom().finite(),
    ensures
        keys_retried(cache, keys, now, flows_only).1.pending.dom().finite(),
        within_caps(cache) ==> within_caps(keys_retried(cache, keys, now, flows_only).1),
    decreases keys.len(),
{
    if keys.len() > 0 {
        let first = key_retried(cache, keys[0], now, flows_only);
        if within_caps(cache) {
            let n = records_in(first.0) as u64;
            lemma_use_within_caps(cache, keys[0], now, n);
            lemma_take_within_caps(cache.used(keys[0], now, n), keys[0]);
        }
        lemma_retry_within_caps(first.1, keys.drop_first(), now, flows_only);
    }
}

/// Whatever a datagram holds, decoding it keeps the cache within its caps (so many
/// layouts, so many buffered bytes) and leaves nothing buffered whose template is
/// known.
pub proof fn lemma_datagram_keeps_invariants(
    data: Seq<u8>,
    opts: OptionsView,
    cache: CacheView,
    restrict: Restrict,
)
    requires
        cache.pending.dom().finite(),
    ensures
        ({
            let after = datagram_outcome(data, opts, cache, restrict).1;
            &&& after.pending.dom().finite()
            &&& within_caps(cache) ==> within_caps(after)
            &&& settled(cache) || is_templated(data) ==> settled(after)
        }),
{
    lemma_decoded_shape(data, opts, cache, restrict);
    let fo = opts.mode == Mode::FlowsOnly;
    let now = opts.now_micros;
    let first = decoded(data, opts, cache, restrict);
    if let Some(sets) = sets_in(data, restrict) {
        let ctx = ctx_in(data, opts);
        let defs = defs_in(data, restrict);
        let knows = learned(cache, defs, opts.exporter, ctx.obs_domain, now);
        if within_caps(cache) {
            lemma_learned_within_caps(cache, defs, opts.exporter, ctx.obs_domain, now);
        }
        lemma_learned_keeps_pending(cache, defs, opts.exporter, ctx.obs_domain, now);
        lemma_sets_within_caps(knows, sets, ctx, now, fo);
    }
    if is_templated(data) {
        lemma_retry_within_caps(first.1, ordered_keys(first.1.pending.dom()), now, fo);
        lemma_retry_settles(first.1, now, fo);
    }
}

/// Learning templates leaves what is buffered alone.
pub proof fn lemma_learned_keeps_pending(
    cache: CacheView,
    defs: Seq<TemplateDef>,
    exporter: Seq<char>,
    obs_domain: u32,
    now: i64,
)
    ensures
        learned(cache, defs, exporter, obs_domain, now).pending == cache.pending,
        learned(cache, defs, exporter, obs_domain, now).cap_pending_bytes
            == cache.cap_pending_bytes,
    decreases defs.len(),
{
    if defs.len() > 0 {
        let k = template_key(exporter, obs_domain, defs[0].id);
        lemma_learned_keeps_pending(
            cache.upserted(k, fresh_entry(defs[0], now)),
            defs.drop_first(),
            exporter,
            obs_domain,
            now,
        );
    }
}

/// What is buffered is not lost by decoding another datagram: it stays, with any
/// newcomers behind it, or its template is known by then and all of it is decoded,
/// in order, among the rows of that datagram.
pub proof fn lemma_buffered_data_is_not_lost(
    data: Seq<u8>,
    opts: OptionsView,
    cache: CacheView,
    restrict: Restrict,
    k: KeyView,
)
    requires
        cache.pending.dom().finite(),
        cache.pending.dom().contains(k),
    ensures
        ({
            let (rows, after) = datagram_outcome(data, opts, cache, restrict);
            let fo = opts.mode == Mode::FlowsOnly;
            ||| after.pending.dom().contains(k) && cache.pending[k].is_prefix_of(after.pending[k])
            ||| after.entries.dom().contains(k) && exists|
                a: Seq<FlowView>,
                recs: Seq<PendingView>,
                b: Seq<FlowView>,
            |
                cache.pending[k].is_prefix_of(recs) && rows == #[trigger] (a + pending_rows(
                    after.entries[k],
                    k,
                    recs,
                    fo,
                ) + b)
        }),
{
    lemma_decoded_shape(data, opts, cache, restrict);
    lemma_datagram_keeps_invariants(data, opts, cache, restrict);
    let fo = opts.mode == Mode::FlowsOnly;
    let now = opts.now_micros;
    let first = decoded(data, opts, cache, restrict);
    let out = datagram_outcome(data, opts, cache, restrict);
    let w = cache.pending[k];
    assert(w.is_prefix_of(w)) by {
        assert(w.take(w.len() as int) =~= w);
    }
    if let Some(sets) = sets_in(data, restrict) {
        let ctx = ctx_in(data, opts);
        let defs = defs_in(data, restrict);
        let knows = learned(cache, defs, opts.exporter, ctx.obs_domain, now);
        lemma_learned_keeps_pending(cache, defs, opts.exporter, ctx.obs_domain, now);
        lemma_sets_only_buffer(knows, sets, ctx, now, fo, k);
        lemma_sets_within_caps(knows, sets, ctx, now, fo);
    }
    assert(first.1.pending.dom().contains(k));
    assert(w.is_prefix_of(first.1.pending[k]));
    if is_templated(data) {
        lemma_retry(first.1, now, fo, k);
        lemma_retry_keeps_layouts(first.1, ordered_keys(first.1.pending.dom()), now, fo);
        if first.1.entries.dom().contains(k) {
            let recs = first.1.pending[k];
            let more = retried(first.1, now, fo).0;
            let mine = pending_rows(first.1.entries[k], k, recs, fo);
            let (a, b) = choose|a: Seq<FlowView>, b: Seq<FlowView>| more == #[trigger] (a + mine
                + b);
            lemma_rows_by_layout(first.1.entries[k], out.1.entries[k], k, recs, fo);
            assert(out.0 =~= (first.0 + a) + mine + b);
        }
    }
}

/// How many Data Sets are listed.
pub open spec fn count_listed(ps: Seq<(KeyView, Seq<PendingView>)>) -> nat
    decreases ps.len(),
{
    if ps.len() == 0 {
        0
    } else {
        ps[0].1.len() + count_listed(ps.drop_first())
    }
}

/// The end of a scan gives up one row per buffered Data Set, no more and no fewer,
/// and each of them names the missing template of a key under which data was
/// buffered.
pub proof fn lemma_flush(ps: Seq<(KeyView, Seq<PendingView>)>)
    ensures
        all_given_up(ps).len() == count_listed(ps),
        forall|i: int|
            0 <= i < all_given_up(ps).len() ==> exists|j: int|
                0 <= j < ps.len() && (#[trigger] all_given_up(ps)[i]).diagnostics == Some(
                    missing_text(
                        (#[trigger] ps[j]).0.obs_domain,
                        ps[j].0.template_id,
                    ),
                ) && all_given_up(ps)[i].exporter == ps[j].0.exporter,
    decreases ps.len(),
{
    if ps.len() > 0 {
        let rest = ps.drop_first();
        lemma_flush(rest);
        let first = given_up(ps[0].0, ps[0].1);
        let all = all_given_up(ps);
        assert forall|i: int| 0 <= i < all.len() implies exists|j: int|
            0 <= j < ps.len() && (#[trigger] all[i]).diagnostics == Some(
                missing_text((#[trigger] ps[j]).0.obs_domain, ps[j].0.template_id),
            ) && all[i].exporter == ps[j].0.exporter by {
            if i < first.len() {
                assert(all[i] == first[i]);
                assert(ps[0].0.exporter == all[i].exporter);
            } else {
                let x = all_given_up(rest)[i - first.len()];
                assert(all[i] == x);
                let j = choose|j: int|
                    0 <= j < rest.len() && x.diagnostics == Some(
                        missing_text((#[trigger] rest[j]).0.obs_domain, rest[j].0.template_id),
                    ) && x.exporter == rest[j].0.exporter;
                assert(ps[j + 1] == rest[j]);
            }
        }
    }
}

/// A datagram of a format that is not accepted gives one `decode-error` row, and no
/// more if the cache is settled, which is then left as it is.
pub proof fn lemma_refused_datagram(
    data: Seq<u8>,
    opts: OptionsView,
    cache: CacheView,
    restrict: Restrict,
    f: Format,
)
    requires
        format_of(data) == Some(f),
        !restrict.admits(f),
        cache.pending.dom().finite(),
    ensures
        datagram_outcome(data, opts, cache, restrict).0.len() >= 1,
        datagram_outcome(data, opts, cache, restrict).0[0] == refused_row(opts.exporter, f),
        settled(cache) ==> datagram_outcome(data, opts, cache, restrict) == (
            seq![refused_row(opts.exporter, f)],
            cache,
        ),
{
    let row = seq![refused_row(opts.exporter, f)];
    if is_templated(data) && settled(cache) {
        let keys = ordered_keys(cache.pending.dom());
        lemma_ordered_keys(cache.pending.dom());
        assert forall|i: int| 0 <= i < keys.len() implies cache.pending.dom().contains(
            #[trigger] keys[i],
        ) by {
            assert(keys.contains(keys[i]));
        }
        lemma_settled_retry(
            cache,
            keys,
            opts.now_micros,
            opts.mode == Mode::FlowsOnly,
        );
        assert(row + Seq::<FlowView>::empty() =~= row);
    }
}

/// A scan keeps the cache within its caps and leaves nothing buffered whose template
/// is known, however many datagrams it decodes.
pub proof fn lemma_scan_keeps_invariants(
    inputs: Seq<(Option<Seq<u8>>, OptionsView)>,
    cache: CacheView,
    restrict: Restrict,
)
    requires
        within_caps(cache),
        settled(cache),
    ensures
        within_caps(stream_outcome(inputs, cache, restrict).1),
        settled(stream_outcome(inputs, cache, restrict).1),
    decreases inputs.len(),
{
    if inputs.len() > 0 {
        lemma_scan_keeps_invariants(inputs.drop_last(), cache, restrict);
        let before = stream_outcome(inputs.drop_last(), cache, restrict).1;
        if let Some(d) = inputs.last().0 {
            lemma_datagram_keeps_invariants(d, inputs.last().1, before, restrict);
        }
    }
}

/// A scan may start from the empty cache.
pub proof fn lemma_scan_starts_empty()
    ensures
        within_caps(empty_cache()),
        settled(empty_cache()),
{
    let none = Map::<KeyView, Seq<PendingView>>::empty();
    assert(lists(Seq::<KeyView>::empty(), none.dom()));
    lemma_lists(Seq::<KeyView>::empty(), none.dom());
    assert(total_bytes(none) == 0);
    assert(Map::<KeyView, EntryView>::empty().dom() =~= Set::empty());
}

/// No key is kept with an empty list: data waits under every key of the buffer.
pub open spec fn no_empty_lists(cache: CacheView) -> bool {
    forall|k: KeyView| #[trigger]
        cache.pending.dom().contains(k) ==> cache.pending[k].len() > 0
}

/// No operation on a cache leaves a key with an empty list: the empty cache has none,
/// and learning, using, buffering, taking, draining, new caps and a cache that was
/// read back keep it so.
pub proof fn lemma_no_empty_lists(
    cache: CacheView,
    k: KeyView,
    e: EntryView,
    r: PendingView,
    now: i64,
    n: u64,
    cap_entries: u32,
    cap_pending_bytes: u32,
)
    ensures
        no_empty_lists(empty_cache()),
        no_empty_lists(cache.drained()),
        no_empty_lists(restored(None)),
        no_empty_lists(cache) ==> {
            &&& no_empty_lists(cache.upserted(k, e))
            &&& no_empty_lists(cache.used(k, now, n))
            &&& no_empty_lists(cache.buffered(k, r))
            &&& no_empty_lists(cache.taken(k))
            &&& no_empty_lists(CacheView { cap_entries, cap_pending_bytes, ..cache })
            &&& no_empty_lists(restored(Some(cache)))
        },
{
}

/// Merging the layouts of another cache leaves no key with an empty list.
pub proof fn lemma_merge_no_empty_lists(
    cache: CacheView,
    other: Map<KeyView, EntryView>,
    before: Map<KeyView, EntryView>,
    keys: Seq<KeyView>,
)
    requires
        no_empty_lists(cache),
    ensures
        no_empty_lists(cache.merged(other, before, keys)),
    decreases keys.len(),
{
    if keys.len() > 0 {
        let first = cache.mirrored(
            keys[0],
            other[keys[0]],
            records_since(other[keys[0]], before, keys[0]),
        );
        lemma_merge_no_empty_lists(first, other, before, keys.drop_first());
    }
}

/// Working through sets leaves no key with an empty list.
proof fn lemma_sets_no_empty_lists(
    cache: CacheView,
    sets: Seq<SetView>,
    ctx: CtxView,
    now: i64,
    flows_only: bool,
)
    requires
        no_empty_lists(cache),
    ensures
        no_empty_lists(sets_outcome(cache, sets, ctx, now, flows_only).1),
    decreases sets.len(),
{
    if sets.len() > 0 {
        let first = set_outcome(cache, sets[0], ctx, now, flows_only);
        lemma_sets_no_empty_lists(first.1, sets.drop_first(), ctx, now, flows_only);
    }
}

/// Retrying buffered data leaves no key with an empty list.
proof fn lemma_retry_no_empty_lists(
    cache: CacheView,
    keys: Seq<KeyView>,
    now: i64,
    flows_only: bool,
)
    requires
        no_empty_lists(cache),
    ensures
        no_empty_lists(keys_retried(cache, keys, now, flows_only).1),
    decreases keys.len(),
{
    if keys.len() > 0 {
        let first = key_retried(cache, keys[0], now, flows_only);
        lemma_retry_no_empty_lists(first.1, keys.drop_first(), now, flows_only);
    }
}

/// Neither decoding a datagram nor a retry leaves a key with an empty list.
pub proof fn lemma_datagram_no_empty_lists(
    data: Seq<u8>,
    opts: OptionsView,
    cache: CacheView,
    restrict: Restrict,
)
    requires
        no_empty_lists(cache),
    ensures
        no_empty_lists(datagram_outcome(data, opts, cache, restrict).1),
        no_empty_lists(
            retried(cache, opts.now_micros, opts.mode == Mode::FlowsOnly).1,
        ),
{
    lemma_decoded_shape(data, opts, cache, restrict);
    let fo = opts.mode == Mode::FlowsOnly;
    let now = opts.now_micros;
    let first = decoded(data, opts, cache, restrict);
    if let Some(sets) = sets_in(data, restrict) {
        let ctx = ctx_in(data, opts);
        let defs = defs_in(data, restrict);
        lemma_learned_keeps_pending(cache, defs, opts.exporter, ctx.obs_domain, now);
        let knows = learned(cache, defs, opts.exporter, ctx.obs_domain, now);
        lemma_sets_no_empty_lists(knows, sets, ctx, now, fo);
    }
    lemma_retry_no_empty_lists(first.1, ordered_keys(first.1.pending.dom()), now, fo);
    lemma_retry_no_empty_lists(cache, ordered_keys(cache.pending.dom()), now, fo);
}

/// A scan leaves no key with an empty list, however many datagrams it decodes.
pub proof fn lemma_scan_no_empty_lists(
    inputs: Seq<(Option<Seq<u8>>, OptionsView)>,
    cache: CacheView,
    restrict: Restrict,
)
    requires
        no_empty_lists(cache),
    ensures
        no_empty_lists(stream_outcome(inputs, cache, restrict).1),
    decreases inputs.len(),
{
    if inputs.len() > 0 {
        lemma_scan_no_empty_lists(inputs.drop_last(), cache, restrict);
        let before = stream_outcome(inputs.drop_last(), cache, restrict).1;
        if let Some(d) = inputs.last().0 {
            lemma_datagram_no_empty_lists(d, inputs.last().1, before, restrict);
        }
    }
}

/// The keys that are listed for a retry are those under which at least one Data Set
/// waits, in strictly ascending order of exporter, observation domain and template
/// id, so each once; none is listed exactly where nothing is buffered.
pub proof fn lemma_pending_keys(cache: CacheView)
    requires
        cache.pending.dom().finite(),
        no_empty_lists(cache),
    ensures
        ({
            let keys = ordered_keys(cache.pending.dom());
            &&& ascending(keys)
            &&& keys.no_duplicates()
            &&& forall|k: KeyView| #[trigger] keys.contains(k) <==> cache.waiting(k).len() > 0
            &&& keys.len() == 0 <==> cache.pending == Map::<KeyView, Seq<PendingView>>::empty()
            &&& keys.len() == 0 <==> forall|k: KeyView| #[trigger] cache.waiting(k).len() == 0
        }),
{
    let keys = ordered_keys(cache.pending.dom());
    lemma_ordered_keys(cache.pending.dom());
    assert forall|i: int, j: int| 0 <= i < keys.len() && 0 <= j < keys.len() && i
        != j implies keys[i] != keys[j] by {
        lemma_key_lt_order(keys[i], keys[j], keys[i]);
    }
    assert forall|k: KeyView| #[trigger] keys.contains(k) <==> cache.waiting(k).len() > 0 by {
        assert(cache.pending.dom().contains(k) <==> keys.contains(k));
    }
    if keys.len() == 0 {
        assert forall|k: KeyView| !cache.pending.dom().contains(k) by {
            assert(!keys.contains(k));
        }
        assert(cache.pending =~= Map::<KeyView, Seq<PendingView>>::empty());
    } else {
        assert(keys.contains(keys[0]));
        assert(cache.waiting(keys[0]).len() > 0);
    }
}

/// Rows in which the data buffered under a key was decoded, all of it and in order,
/// by some layout, perhaps with newcomers behind it.
pub open spec fn decoded_among(rows: Seq<FlowView>, k: KeyView, recs: Seq<PendingView>) -> bool {
    exists|
        a: Seq<FlowView>,
        tpl: EntryView,
        all: Seq<PendingView>,
        flows_only: bool,
        b: Seq<FlowView>,
    |
        recs.is_prefix_of(all) && rows == #[trigger] (a + pending_rows(tpl, k, all, flows_only) + b)
}

/// More rows in front and behind do not matter.
proof fn lemma_decoded_among_more(
    front: Seq<FlowView>,
    rows: Seq<FlowView>,
    back: Seq<FlowView>,
    k: KeyView,
    recs: Seq<PendingView>,
)
    requires
        decoded_among(rows, k, recs),
    ensures
        decoded_among(front + rows + back, k, recs),
{
    let (a, tpl, all, fo, b) = choose|
        a: Seq<FlowView>,
        tpl: EntryView,
        all: Seq<PendingView>,
        flows_only: bool,
        b: Seq<FlowView>,
    |
        recs.is_prefix_of(all) && rows == #[trigger] (a + pending_rows(tpl, k, all, flows_only)
            + b);
    assert(front + rows + back =~= (front + a) + pending_rows(tpl, k, all, fo) + (b + back));
}

/// Fewer newcomers do not matter.
proof fn lemma_decoded_among_prefix(
    rows: Seq<FlowView>,
    k: KeyView,
    recs: Seq<PendingView>,
    more: Seq<PendingView>,
)
    requires
        decoded_among(rows, k, more),
        recs.is_prefix_of(more),
    ensures
        decoded_among(rows, k, recs),
{
    let (a, tpl, all, fo, b) = choose|
        a: Seq<FlowView>,
        tpl: EntryView,
        all: Seq<PendingView>,
        flows_only: bool,
        b: Seq<FlowView>,
    |
        more.is_prefix_of(all) && rows == #[trigger] (a + pending_rows(tpl, k, all, flows_only)
            + b);
    assert(recs =~= all.take(recs.len() as int));
    assert(rows == a + pending_rows(tpl, k, all, fo) + b);
}

/// What is buffered is never dropped in the course of a scan: when it is over, the
/// data is decoded among the rows, or it is still buffered, so that the end of the
/// scan gives it up row by row.
pub proof fn lemma_scan_drops_nothing(
    inputs: Seq<(Option<Seq<u8>>, OptionsView)>,
    cache: CacheView,
    restrict: Restrict,
    k: KeyView,
)
    requires
        cache.pending.dom().finite(),
        cache.pending.dom().contains(k),
    ensures
        ({
            let (rows, after) = stream_outcome(inputs, cache, restrict);
            &&& after.pending.dom().finite()
            &&& {
                ||| after.pending.dom().contains(k) && cache.pending[k].is_prefix_of(
                    after.pending[k],
                )
                ||| decoded_among(rows, k, cache.pending[k])
            }
        }),
    decreases inputs.len(),
{
    let w = cache.pending[k];
    if inputs.len() == 0 {
        assert(w.take(w.len() as int) =~= w);
    } else {
        let most = inputs.drop_last();
        lemma_scan_drops_nothing(most, cache, restrict, k);
        let before = stream_outcome(most, cache, restrict);
        if let Some(d) = inputs.last().0 {
            let opts = inputs.last().1;
            let one = datagram_outcome(d, opts, before.1, restrict);
            lemma_datagram_keeps_invariants(d, opts, before.1, restrict);
            if decoded_among(before.0, k, w) {
                lemma_decoded_among_more(Seq::empty(), before.0, one.0, k, w);
                assert(Seq::<FlowView>::empty() + before.0 + one.0 =~= before.0 + one.0);
            } else {
                let now = before.1.pending[k];
                lemma_buffered_data_is_not_lost(d, opts, before.1, restrict, k);
                if one.1.pending.dom().contains(k) && now.is_prefix_of(one.1.pending[k]) {
                    assert(w =~= one.1.pending[k].take(w.len() as int));
                } else {
                    assert(decoded_among(one.0, k, now));
                    lemma_decoded_among_prefix(one.0, k, w, now);
                    lemma_decoded_among_more(before.0, one.0, Seq::empty(), k, w);
                    assert(before.0 + one.0 + Seq::<FlowView>::empty() =~= before.0 + one.0);
                }
            }
        }
    }
}

} // verus!
