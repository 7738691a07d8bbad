//! Data may come before its template: the rows are the same as if the template had
//! come first.

use vstd::prelude::*;

use crate::cache::{CacheView, KeyView, PendingView};
use crate::decode::ipfix::ipfix_defs;
use crate::decode::record::{data_set_rows, CtxView};
use crate::decode::sets::{
    learned, pending_of, set_outcome, sets_outcome, template_key, SetView, TemplateDef,
};
use crate::decode::v9::v9_defs;
use crate::decode::{
    datagram_outcome, is_templated, key_retried, keys_retried, pending_ctx, pending_rows, retried,
    Mode, OptionsView, Restrict,
};
use crate::keymap::{ascending, lemma_lists, lemma_ordered_keys, lists, ordered_keys};
use crate::laws::buffered::{lemma_settled_retry, settled};
use crate::laws::layouts::{
    ctx_in, defs_in, keys_in, last_def, lemma_decoded_shape, lemma_def_keys, lemma_learned, sets_in,
};
use crate::normalize::FlowView;

verus! {

/// No set is a Data Set.
pub open spec fn no_data(sets: Seq<SetView>) -> bool {
    forall|i: int| 0 <= i < sets.len() ==> (#[trigger] sets[i]).id < 256
}

/// Template Sets alone give no rows and use no template.
proof fn lemma_no_data_no_rows(
    cache: CacheView,
    sets: Seq<SetView>,
    ctx: CtxView,
    now: i64,
    flows_only: bool,
)
    requires
        no_data(sets),
    ensures
        sets_outcome(cache, sets, ctx, now, flows_only) == (Seq::<FlowView>::empty(), cache),
    decreases sets.len(),
{
    if sets.len() > 0 {
        let rest = sets.drop_first();
        assert(sets[0].id < 256);
        assert forall|i: int| 0 <= i < rest.len() implies (#[trigger] rest[i]).id < 256 by {
            assert(rest[i] == sets[i + 1]);
        }
        lemma_no_data_no_rows(cache, rest, ctx, now, flows_only);
        assert(Seq::<FlowView>::empty() + Seq::<FlowView>::empty() =~= Seq::<FlowView>::empty());
    }
}

/// A settled cache is left alone by a retry.
proof fn lemma_nothing_retried(cache: CacheView, now: i64, flows_only: bool)
    requires
        cache.pending.dom().finite(),
        settled(cache),
    ensures
        retried(cache, now, flows_only) == (Seq::<FlowView>::empty(), cache),
{
    let keys = ordered_keys(cache.pending.dom());
    lemma_ordered_keys(cache.pending.dom());
    assert forall|i: int| 0 <= i < keys.len() implies cache.pending.dom().contains(
        #[trigger] keys[i],
    ) by {
        assert(keys.contains(keys[i]));
    }
    lemma_settled_retry(cache, keys, now, flows_only);
}

/// Where one Data Set is buffered and its template is known, a retry decodes it.
proof fn lemma_one_retried(
    cache: CacheView,
    k: KeyView,
    rec: PendingView,
    now: i64,
    flows_only: bool,
)
    requires
        cache.entries.dom().contains(k),
        cache.pending == Map::<KeyView, Seq<PendingView>>::empty().insert(k, seq![rec]),
    ensures
        retried(cache, now, flows_only).0 == data_set_rows(
            cache.entries[k],
            rec.bytes,
            pending_ctx(k, rec),
            flows_only,
        ),
        retried(cache, now, flows_only).1.pending == Map::<KeyView, Seq<PendingView>>::empty(),
{
    let keys = seq![k];
    assert(ascending(keys));
    assert(lists(keys, cache.pending.dom())) by {
        assert forall|x: KeyView| #[trigger] cache.pending.dom().contains(x) <==> keys.contains(
            x,
        ) by {
            assert(keys[0] == k);
        }
    }
    lemma_lists(keys, cache.pending.dom());
    assert(keys.drop_first() =~= Seq::<KeyView>::empty());
    let recs = seq![rec];
    assert(recs.drop_first() =~= Seq::<PendingView>::empty());
    let rows = data_set_rows(cache.entries[k], rec.bytes, pending_ctx(k, rec), flows_only);
    assert(pending_rows(cache.entries[k], k, recs, flows_only) =~= rows) by {
        reveal_with_fuel(pending_rows, 2);
    }
    let first = key_retried(cache, k, now, flows_only);
    assert(cache.waiting(k) == recs);
    assert(first.0 == rows);
    assert(first.1.pending =~= Map::<KeyView, Seq<PendingView>>::empty());
    reveal_with_fuel(keys_retried, 2);
    assert(rows + Seq::<FlowView>::empty() =~= rows);
}

/// A Data Set by itself defines no template.
proof fn lemma_data_defines_nothing(data: Seq<u8>, restrict: Restrict, set: SetView)
    requires
        sets_in(data, restrict) == Some(seq![set]),
        set.id >= 256,
    ensures
        defs_in(data, restrict) == Seq::<TemplateDef>::empty(),
{
    let sets = seq![set];
    assert(sets.drop_first() =~= Seq::<SetView>::empty());
    assert(v9_defs(sets) =~= Seq::<TemplateDef>::empty()) by {
        reveal_with_fuel(v9_defs, 2);
    }
    assert(ipfix_defs(sets) =~= Seq::<TemplateDef>::empty()) by {
        reveal_with_fuel(ipfix_defs, 2);
    }
}

/// The buffered form of a Data Set keeps the header context that it came with.
proof fn lemma_context_is_kept(data: Seq<u8>, opts: OptionsView, set: SetView)
    requires
        is_templated(data),
    ensures
        ({
            let ctx = ctx_in(data, opts);
            pending_ctx(
                template_key(ctx.exporter, ctx.obs_domain, set.id),
                pending_of(set.body, ctx),
            ) == (CtxView { template_id: set.id, ..ctx })
        }),
{
}

/// Whether a template comes before or after the data that refers to it, in datagrams
/// of their own, the rows are the same: those of the data under the template's
/// layout. Nothing remains buffered either way.
pub proof fn lemma_template_may_come_late(
    data: Seq<u8>,
    data_opts: OptionsView,
    template: Seq<u8>,
    template_opts: OptionsView,
    cache: CacheView,
    restrict: Restrict,
    set: SetView,
)
    requires
        cache.entries.dom().finite(),
        cache.pending == Map::<KeyView, Seq<PendingView>>::empty(),
        // One datagram carries nothing but the Data Set.
        sets_in(data, restrict) == Some(seq![set]),
        set.id >= 256,
        // The other carries templates only, and among them the one it refers to.
        sets_in(template, restrict) matches Some(sets) && no_data(sets),
        last_def(defs_in(template, restrict), set.id) is Some,
        data_opts.exporter == template_opts.exporter,
        ctx_in(data, data_opts).obs_domain == ctx_in(template, template_opts).obs_domain,
        data_opts.mode == template_opts.mode,
        // The template is new, and there is room for the data and the templates.
        !cache.entries.dom().contains(
            template_key(data_opts.exporter, ctx_in(data, data_opts).obs_domain, set.id),
        ),
        cache.has_room(set.body.len()),
        cache.entries.dom().union(keys_in(template, template_opts, restrict)).len()
            <= cache.cap_entries,
    ensures
        ({
            let data_first = datagram_outcome(data, data_opts, cache, restrict);
            let then_template = datagram_outcome(template, template_opts, data_first.1, restrict);
            let template_first = datagram_outcome(template, template_opts, cache, restrict);
            let then_data = datagram_outcome(data, data_opts, template_first.1, restrict);
            &&& data_first.0 + then_template.0 == template_first.0 + then_data.0
            &&& then_template.1.pending == then_data.1.pending
            &&& then_data.1.pending == Map::<KeyView, Seq<PendingView>>::empty()
        }),
{
    let fo = data_opts.mode == Mode::FlowsOnly;
    let ctx = ctx_in(data, data_opts);
    let tctx = ctx_in(template, template_opts);
    let k = template_key(ctx.exporter, ctx.obs_domain, set.id);
    let rec = pending_of(set.body, ctx);
    let sets = seq![set];
    let tsets = sets_in(template, restrict)->0;
    let defs = defs_in(template, restrict);
    let now_d = data_opts.now_micros;
    let now_t = template_opts.now_micros;
    let nothing = Map::<KeyView, Seq<PendingView>>::empty();
    lemma_data_defines_nothing(data, restrict, set);
    assert(sets.drop_first() =~= Seq::<SetView>::empty());

    // The data first: it is buffered.
    lemma_decoded_shape(data, data_opts, cache, restrict);
    let held = cache.buffered(k, rec);
    assert(sets_outcome(cache, sets, ctx, now_d, fo) == (Seq::<FlowView>::empty(), held)) by {
        reveal_with_fuel(sets_outcome, 2);
        assert(Seq::<FlowView>::empty() + Seq::<FlowView>::empty() =~= Seq::<FlowView>::empty());
    }
    assert(held.pending =~= nothing.insert(k, seq![rec])) by {
        assert(cache.waiting(k).push(rec) =~= seq![rec]);
    }
    lemma_nothing_retried(held, now_d, fo);
    let data_first = datagram_outcome(data, data_opts, cache, restrict);
    assert(data_first.0 =~= Seq::<FlowView>::empty());
    assert(data_first.1 == held);

    // Then the template: the data is decoded.
    lemma_def_keys(defs, template_opts.exporter, tctx.obs_domain, k);
    lemma_decoded_shape(template, template_opts, held, restrict);
    lemma_learned(held, defs, template_opts.exporter, tctx.obs_domain, now_t, k);
    let held_knows = learned(held, defs, template_opts.exporter, tctx.obs_domain, now_t);
    lemma_no_data_no_rows(held_knows, tsets, tctx, now_t, fo);
    lemma_one_retried(held_knows, k, rec, now_t, fo);
    let then_template = datagram_outcome(template, template_opts, held, restrict);

    // The template first: it is learned.
    lemma_decoded_shape(template, template_opts, cache, restrict);
    lemma_learned(cache, defs, template_opts.exporter, tctx.obs_domain, now_t, k);
    let knows = learned(cache, defs, template_opts.exporter, tctx.obs_domain, now_t);
    lemma_no_data_no_rows(knows, tsets, tctx, now_t, fo);
    lemma_nothing_retried(knows, now_t, fo);
    let template_first = datagram_outcome(template, template_opts, cache, restrict);
    assert(template_first.0 =~= Seq::<FlowView>::empty());
    assert(template_first.1 == knows);

    // Then the data: it is decoded at once.
    lemma_decoded_shape(data, data_opts, knows, restrict);
    let one = set_outcome(knows, set, ctx, now_d, fo);
    assert(sets_outcome(knows, sets, ctx, now_d, fo) == one) by {
        reveal_with_fuel(sets_outcome, 2);
        assert(one.0 + Seq::<FlowView>::empty() =~= one.0);
    }
    assert(one.1.pending == nothing);
    lemma_nothing_retried(one.1, now_d, fo);
    let then_data = datagram_outcome(data, data_opts, knows, restrict);
    assert(then_data.0 =~= one.0);

    lemma_context_is_kept(data, data_opts, set);
    assert(then_template.0 =~= one.0);
}

} // verus!
