//! What is learned stays learned: a template seen in one datagram decodes data in
//! any later one by the layout that it was last given, as long as the cap leaves
//! room, and templates of other exporters and observation domains are never touched.

use vstd::prelude::*;

use crate::cache::{redefined, CacheView, EntryView, FieldView, KeyView, TemplateKind};
use crate::decode::header::{format_of, header_of, Format};
use crate::decode::ipfix::{ipfix_ctx, ipfix_defs};
use crate::decode::record::{data_set_rows, CtxView};
use crate::decode::sets::{
    after_header, domain_of, fresh_entry, learned, lemma_learned_add, set_outcome, sets_of,
    sets_outcome, template_key, SetView, TemplateDef,
};
use crate::decode::v9::{v9_ctx, v9_defs};
use crate::decode::{
    datagram_outcome, decoded, is_templated, key_retried, keys_retried, Mode, OptionsView, Restrict,
};
use crate::flows::stream_outcome;
use crate::keymap::ordered_keys;
use crate::laws::bounds::{lemma_eviction, lemma_no_eviction};
use crate::normalize::FlowView;

verus! {

/// What of a cached template decides how data decodes: its kind and its fields.
pub open spec fn layout(e: EntryView) -> (TemplateKind, Seq<FieldView>, u16) {
    (e.kind, e.fields, e.scope_field_count)
}

/// The layout of a template as it stands in a datagram.
pub open spec fn def_layout(d: TemplateDef) -> (TemplateKind, Seq<FieldView>, u16) {
    (d.kind, d.fields, d.scope_field_count)
}

/// Two caches that know the same templates, with the same layouts and caps.
pub open spec fn same_layouts(a: CacheView, b: CacheView) -> bool {
    &&& a.entries.dom() == b.entries.dom()
    &&& forall|k: KeyView| #[trigger]
        a.entries.dom().contains(k) ==> layout(a.entries[k]) == layout(b.entries[k])
    &&& a.cap_entries == b.cap_entries
    &&& a.cap_pending_bytes == b.cap_pending_bytes
}

/// The sets that decoding a template-based datagram works through.
pub open spec fn sets_in(data: Seq<u8>, restrict: Restrict) -> Option<Seq<SetView>> {
    match format_of(data) {
        Some(f) => if !restrict.admits(f) || header_of(data) is None {
            None
        } else if f == Format::V9 {
            sets_of(after_header(data, 20))
        } else if f == Format::Ipfix {
            sets_of(after_header(data, 16))
        } else {
            None
        },
        None => None,
    }
}

/// The templates that decoding a datagram learns, in order.
pub open spec fn defs_in(data: Seq<u8>, restrict: Restrict) -> Seq<TemplateDef> {
    match sets_in(data, restrict) {
        Some(sets) => if format_of(data) == Some(Format::V9) {
            v9_defs(sets)
        } else {
            ipfix_defs(sets)
        },
        None => Seq::empty(),
    }
}

/// The header context of a template-based datagram.
pub open spec fn ctx_in(data: Seq<u8>, opts: OptionsView) -> CtxView {
    let hdr = header_of(data)->0;
    let obs_domain = domain_of(opts.obs_domain_override, hdr);
    if format_of(data) == Some(Format::V9) {
        v9_ctx(opts.exporter, obs_domain, hdr)
    } else {
        ipfix_ctx(opts.exporter, obs_domain, hdr)
    }
}

/// The last of some templates with an id.
pub open spec fn last_def(defs: Seq<TemplateDef>, id: u16) -> Option<TemplateDef>
    decreases defs.len(),
{
    if defs.len() == 0 {
        None
    } else if defs.last().id == id {
        Some(defs.last())
    } else {
        last_def(defs.drop_last(), id)
    }
}

/// The layout that decoding a datagram gives a key, where it defines it.
pub open spec fn defined_in(
    data: Seq<u8>,
    opts: OptionsView,
    restrict: Restrict,
    k: KeyView,
) -> Option<TemplateDef> {
    if sets_in(data, restrict) is Some && k.exporter == opts.exporter && k.obs_domain == ctx_in(
        data,
        opts,
    ).obs_domain {
        last_def(defs_in(data, restrict), k.template_id)
    } else {
        None
    }
}

/// A datagram alone changes the cache by learning its templates and then working
/// through its sets.
pub proof fn lemma_decoded_shape(
    data: Seq<u8>,
    opts: OptionsView,
    cache: CacheView,
    restrict: Restrict,
)
    ensures
        decoded(data, opts, cache, restrict).1 == match sets_in(data, restrict) {
            Some(sets) => sets_outcome(
                learned(
                    cache,
                    defs_in(data, restrict),
                    opts.exporter,
                    ctx_in(data, opts).obs_domain,
                    opts.now_micros,
                ),
                sets,
                ctx_in(data, opts),
                opts.now_micros,
                opts.mode == Mode::FlowsOnly,
            ).1,
            None => cache,
        },
        sets_in(data, restrict) matches Some(sets) ==> decoded(data, opts, cache, restrict).0
            == sets_outcome(
            learned(
                cache,
                defs_in(data, restrict),
                opts.exporter,
                ctx_in(data, opts).obs_domain,
                opts.now_micros,
            ),
            sets,
            ctx_in(data, opts),
            opts.now_micros,
            opts.mode == Mode::FlowsOnly,
        ).0,
        sets_in(data, restrict) is Some ==> is_templated(data),
{
}

/// Working through sets changes no layout.
pub proof fn lemma_sets_keep_layouts(
    cache: CacheView,
    sets: Seq<SetView>,
    ctx: CtxView,
    now: i64,
    flows_only: bool,
)
    ensures
        same_layouts(cache, sets_outcome(cache, sets, ctx, now, flows_only).1),
    decreases sets.len(),
{
    if sets.len() > 0 {
        let first = set_outcome(cache, sets[0], ctx, now, flows_only);
        assert(first.1.entries.dom() =~= cache.entries.dom());
        lemma_sets_keep_layouts(first.1, sets.drop_first(), ctx, now, flows_only);
    }
}

/// Retrying buffered data changes no layout.
pub proof fn lemma_retry_keeps_layouts(
    cache: CacheView,
    keys: Seq<KeyView>,
    now: i64,
    flows_only: bool,
)
    ensures
        same_layouts(cache, keys_retried(cache, keys, now, flows_only).1),
    decreases keys.len(),
{
    if keys.len() > 0 {
        let first = key_retried(cache, keys[0], now, flows_only);
        assert(first.1.entries.dom() =~= cache.entries.dom());
        lemma_retry_keeps_layouts(first.1, keys.drop_first(), now, flows_only);
    }
}

/// The keys under which templates are learned.
pub open spec fn def_keys(defs: Seq<TemplateDef>, exporter: Seq<char>, obs_domain: u32) -> Set<
    KeyView,
>
    decreases defs.len(),
{
    if defs.len() == 0 {
        Set::empty()
    } else {
        def_keys(defs.drop_last(), exporter, obs_domain).insert(
            template_key(exporter, obs_domain, defs.last().id),
        )
    }
}

/// The keys that decoding a datagram defines.
pub open spec fn keys_in(data: Seq<u8>, opts: OptionsView, restrict: Restrict) -> Set<KeyView> {
    def_keys(defs_in(data, restrict), opts.exporter, ctx_in(data, opts).obs_domain)
}

/// The keys of templates are those of the scope that an id among them has.
pub proof fn lemma_def_keys(
    defs: Seq<TemplateDef>,
    exporter: Seq<char>,
    obs_domain: u32,
    k: KeyView,
)
    ensures
        def_keys(defs, exporter, obs_domain).finite(),
        def_keys(defs, exporter, obs_domain).contains(k) <==> k.exporter == exporter
            && k.obs_domain == obs_domain && last_def(defs, k.template_id) is Some,
    decreases defs.len(),
{
    if defs.len() > 0 {
        lemma_def_keys(defs.drop_last(), exporter, obs_domain, k);
    }
}

/// Learning templates changes only their own keys, gives each the last layout among
/// them, and forgets none while the cap leaves room.
pub proof fn lemma_learned(
    cache: CacheView,
    defs: Seq<TemplateDef>,
    exporter: Seq<char>,
    obs_domain: u32,
    now: i64,
    k: KeyView,
)
    requires
        cache.entries.dom().finite(),
    ensures
        ({
            let after = learned(cache, defs, exporter, obs_domain, now);
            let mine = k.exporter == exporter && k.obs_domain == obs_domain;
            let def = last_def(defs, k.template_id);
            let all = cache.entries.dom().union(def_keys(defs, exporter, obs_domain));
            &&& after.entries.dom().finite()
            &&& after.pending == cache.pending
            &&& after.cap_entries == cache.cap_entries
            &&& after.cap_pending_bytes == cache.cap_pending_bytes
            &&& after.entries.dom().subset_of(all)
            &&& all.len() <= cache.cap_entries ==> after.entries.dom() == all
            &&& (!mine || def is None) && after.entries.dom().contains(k)
                ==> cache.entries.dom().contains(k) && after.entries[k] == cache.entries[k]
            &&& mine && def is Some && after.entries.dom().contains(k) ==> layout(after.entries[k])
                == def_layout(def->0)
        }),
    decreases defs.len(),
{
    lemma_def_keys(defs, exporter, obs_domain, k);
    let all = cache.entries.dom().union(def_keys(defs, exporter, obs_domain));
    if defs.len() == 0 {
        assert(all =~= cache.entries.dom());
    } else {
        let most = defs.drop_last();
        let last = defs.last();
        lemma_learned(cache, most, exporter, obs_domain, now, k);
        let before = learned(cache, most, exporter, obs_domain, now);
        let fewer = cache.entries.dom().union(def_keys(most, exporter, obs_domain));
        let key = template_key(exporter, obs_domain, last.id);
        let entry = fresh_entry(last, now);
        assert(defs =~= most + seq![last]);
        lemma_learned_add(cache, most, seq![last], exporter, obs_domain, now);
        assert(seq![last].drop_first() =~= Seq::<TemplateDef>::empty());
        assert(learned(before, seq![last], exporter, obs_domain, now) == before.upserted(
            key,
            entry,
        )) by {
            reveal_with_fuel(learned, 2);
        }
        let grown = before.entries.insert(key, redefined(before.lookup(key), entry));
        lemma_eviction(grown, before.cap_entries as nat);
        assert(all =~= fewer.insert(key));
        assert(grown.dom() =~= before.entries.dom().insert(key));
        lemma_def_keys(most, exporter, obs_domain, k);
        if all.len() <= cache.cap_entries {
            assert(fewer.len() <= all.len());
            assert(grown.dom() =~= all);
            lemma_no_eviction(grown, before.cap_entries as nat);
        }
    }
}

/// Decoding a datagram changes the layouts of the templates that it defines and of
/// no others: what is not defined in it is neither learned nor altered, what it
/// defines has the last layout given in it, and, while the cap leaves room, nothing
/// is forgotten and everything that it defines is known.
pub proof fn lemma_datagram_layouts(
    data: Seq<u8>,
    opts: OptionsView,
    cache: CacheView,
    restrict: Restrict,
    k: KeyView,
)
    requires
        cache.entries.dom().finite(),
    ensures
        ({
            let after = datagram_outcome(data, opts, cache, restrict).1;
            let def = defined_in(data, opts, restrict, k);
            let all = cache.entries.dom().union(keys_in(data, opts, restrict));
            &&& keys_in(data, opts, restrict).finite()
            &&& keys_in(data, opts, restrict).contains(k) <==> def is Some
            &&& after.entries.dom().finite()
            &&& after.cap_entries == cache.cap_entries
            &&& after.cap_pending_bytes == cache.cap_pending_bytes
            &&& after.entries.dom().subset_of(all)
            &&& all.len() <= cache.cap_entries ==> after.entries.dom() == all
            &&& def is None && after.entries.dom().contains(k) ==> cache.entries.dom().contains(k)
                && layout(after.entries[k]) == layout(cache.entries[k])
            &&& def is Some && after.entries.dom().contains(k) ==> layout(after.entries[k])
                == def_layout(def->0)
        }),
{
    lemma_decoded_shape(data, opts, cache, restrict);
    let fo = opts.mode == Mode::FlowsOnly;
    let now = opts.now_micros;
    let first = decoded(data, opts, cache, restrict);
    let ctx = ctx_in(data, opts);
    let defs = defs_in(data, restrict);
    lemma_def_keys(defs, opts.exporter, ctx.obs_domain, k);
    if let Some(sets) = sets_in(data, restrict) {
        lemma_learned(cache, defs, opts.exporter, ctx.obs_domain, now, k);
        let knows = learned(cache, defs, opts.exporter, ctx.obs_domain, now);
        lemma_sets_keep_layouts(knows, sets, ctx, now, fo);
    } else {
        assert(cache.entries.dom().union(keys_in(data, opts, restrict)) =~= cache.entries.dom());
    }
    if is_templated(data) {
        lemma_retry_keeps_layouts(first.1, ordered_keys(first.1.pending.dom()), now, fo);
    }
}

/// Templates of other exporters and of other observation domains are not touched:
/// they keep their layout as long as they are known, and none is learned.
pub proof fn lemma_scopes_do_not_collide(
    data: Seq<u8>,
    opts: OptionsView,
    cache: CacheView,
    restrict: Restrict,
    k: KeyView,
)
    requires
        cache.entries.dom().finite(),
        k.exporter != opts.exporter || k.obs_domain != ctx_in(data, opts).obs_domain,
        datagram_outcome(data, opts, cache, restrict).1.entries.dom().contains(k),
    ensures
        cache.entries.dom().contains(k),
        layout(datagram_outcome(data, opts, cache, restrict).1.entries[k]) == layout(
            cache.entries[k],
        ),
{
    lemma_datagram_layouts(data, opts, cache, restrict, k);
}

/// The keys that some datagrams define.
pub open spec fn all_keys_in(
    inputs: Seq<(Option<Seq<u8>>, OptionsView)>,
    restrict: Restrict,
) -> Set<KeyView>
    decreases inputs.len(),
{
    if inputs.len() == 0 {
        Set::empty()
    } else {
        let earlier = all_keys_in(inputs.drop_last(), restrict);
        match inputs.last().0 {
            Some(d) => earlier.union(keys_in(d, inputs.last().1, restrict)),
            None => earlier,
        }
    }
}

/// The layout that a key was last given: by the last of some datagrams that defines
/// it, or before them.
pub open spec fn latest_layout(
    inputs: Seq<(Option<Seq<u8>>, OptionsView)>,
    cache: CacheView,
    restrict: Restrict,
    k: KeyView,
) -> Option<(TemplateKind, Seq<FieldView>, u16)>
    decreases inputs.len(),
{
    if inputs.len() == 0 {
        match cache.lookup(k) {
            Some(e) => Some(layout(e)),
            None => None,
        }
    } else {
        let earlier = latest_layout(inputs.drop_last(), cache, restrict, k);
        match inputs.last().0 {
            Some(d) => match defined_in(d, inputs.last().1, restrict, k) {
                Some(def) => Some(def_layout(def)),
                None => earlier,
            },
            None => earlier,
        }
    }
}

/// Whatever template is known after some datagrams, however many they are, has the
/// layout that it was last given.
pub proof fn lemma_latest_layout(
    inputs: Seq<(Option<Seq<u8>>, OptionsView)>,
    cache: CacheView,
    restrict: Restrict,
    k: KeyView,
)
    requires
        cache.entries.dom().finite(),
    ensures
        ({
            let after = stream_outcome(inputs, cache, restrict).1;
            &&& after.entries.dom().finite()
            &&& after.cap_entries == cache.cap_entries
            &&& after.entries.dom().contains(k) ==> latest_layout(inputs, cache, restrict, k)
                == Some(layout(after.entries[k]))
        }),
    decreases inputs.len(),
{
    if inputs.len() > 0 {
        let most = inputs.drop_last();
        lemma_latest_layout(most, cache, restrict, k);
        if let Some(d) = inputs.last().0 {
            let before = stream_outcome(most, cache, restrict).1;
            lemma_datagram_layouts(d, inputs.last().1, before, restrict, k);
        }
    }
}

/// While the cap leaves room, a template stays known, however many datagrams follow:
/// what is known after them is what was known before them and what they define.
pub proof fn lemma_template_survives(
    inputs: Seq<(Option<Seq<u8>>, OptionsView)>,
    cache: CacheView,
    restrict: Restrict,
)
    requires
        cache.entries.dom().finite(),
        cache.entries.dom().union(all_keys_in(inputs, restrict)).len() <= cache.cap_entries,
    ensures
        stream_outcome(inputs, cache, restrict).1.entries.dom() == cache.entries.dom().union(
            all_keys_in(inputs, restrict),
        ),
        all_keys_in(inputs, restrict).finite(),
    decreases inputs.len(),
{
    let all = cache.entries.dom().union(all_keys_in(inputs, restrict));
    lemma_all_keys_finite(inputs, restrict);
    if inputs.len() == 0 {
        assert(all =~= cache.entries.dom());
    } else {
        let most = inputs.drop_last();
        let fewer = cache.entries.dom().union(all_keys_in(most, restrict));
        lemma_all_keys_finite(most, restrict);
        assert(fewer.subset_of(all));
        vstd::set_lib::lemma_len_subset(fewer, all);
        lemma_template_survives(most, cache, restrict);
        if let Some(d) = inputs.last().0 {
            let opts = inputs.last().1;
            let before = stream_outcome(most, cache, restrict).1;
            let k = template_key(opts.exporter, 0, 0);
            lemma_latest_layout(most, cache, restrict, k);
            lemma_datagram_layouts(d, opts, before, restrict, k);
            assert(before.entries.dom().union(keys_in(d, opts, restrict)) =~= all);
        } else {
            assert(all =~= fewer);
        }
    }
}

/// Datagrams define finitely many keys.
proof fn lemma_all_keys_finite(
    inputs: Seq<(Option<Seq<u8>>, OptionsView)>,
    restrict: Restrict,
)
    ensures
        all_keys_in(inputs, restrict).finite(),
    decreases inputs.len(),
{
    if inputs.len() > 0 {
        lemma_all_keys_finite(inputs.drop_last(), restrict);
        if let Some(d) = inputs.last().0 {
            let opts = inputs.last().1;
            lemma_def_keys(
                defs_in(d, restrict),
                opts.exporter,
                ctx_in(d, opts).obs_domain,
                template_key(opts.exporter, 0, 0),
            );
        }
    }
}

/// A Data Set whose template is known is decoded by its layout wherever it stands
/// among the sets.
proof fn lemma_set_decodes(
    cache: CacheView,
    sets: Seq<SetView>,
    ctx: CtxView,
    now: i64,
    flows_only: bool,
    i: int,
    tpl: EntryView,
) -> (r: (Seq<FlowView>, Seq<FlowView>))
    requires
        0 <= i < sets.len(),
        sets[i].id >= 256,
        cache.entries.dom().contains(template_key(ctx.exporter, ctx.obs_domain, sets[i].id)),
        layout(cache.entries[template_key(ctx.exporter, ctx.obs_domain, sets[i].id)]) == layout(
            tpl,
        ),
    ensures
        sets_outcome(cache, sets, ctx, now, flows_only).0 == r.0 + data_set_rows(
            tpl,
            sets[i].body,
            CtxView { template_id: sets[i].id, ..ctx },
            flows_only,
        ) + r.1,
    decreases sets.len(),
{
    let first = set_outcome(cache, sets[0], ctx, now, flows_only);
    let rest = sets_outcome(first.1, sets.drop_first(), ctx, now, flows_only);
    let k = template_key(ctx.exporter, ctx.obs_domain, sets[i].id);
    if i == 0 {
        assert(first.0 + rest.0 =~= Seq::<FlowView>::empty() + first.0 + rest.0);
        (Seq::empty(), rest.0)
    } else {
        assert(first.1.entries.dom().contains(k));
        assert(sets.drop_first()[i - 1] == sets[i]);
        let (a, b) = lemma_set_decodes(
            first.1,
            sets.drop_first(),
            ctx,
            now,
            flows_only,
            i - 1,
            tpl,
        );
        let mid = data_set_rows(
            tpl,
            sets[i].body,
            CtxView { template_id: sets[i].id, ..ctx },
            flows_only,
        );
        assert(first.0 + (a + mid + b) =~= (first.0 + a) + mid + b);
        (first.0 + a, b)
    }
}

/// Rows that stand together among others.
pub open spec fn among(part: Seq<FlowView>, rows: Seq<FlowView>) -> bool {
    exists|a: Seq<FlowView>, b: Seq<FlowView>| rows == #[trigger] (a + part + b)
}

/// A template seen once decodes the data that refers to it however much later it
/// comes, by the layout that it was last given: after any datagrams, and wherever in
/// the last of them its template stands, while the cap leaves room, the rows of a
/// Data Set under that layout are among the rows of its datagram.
pub proof fn lemma_template_decodes_later(
    inputs: Seq<(Option<Seq<u8>>, OptionsView)>,
    cache: CacheView,
    data: Seq<u8>,
    opts: OptionsView,
    restrict: Restrict,
    i: int,
    tpl: EntryView,
)
    requires
        cache.entries.dom().finite(),
        sets_in(data, restrict) matches Some(sets) && 0 <= i < sets.len() && sets[i].id >= 256,
        latest_layout(
            inputs.push((Some(data), opts)),
            cache,
            restrict,
            template_key(
                opts.exporter,
                ctx_in(data, opts).obs_domain,
                sets_in(data, restrict)->0[i].id,
            ),
        ) == Some(layout(tpl)),
        cache.entries.dom().union(all_keys_in(inputs.push((Some(data), opts)), restrict)).len()
            <= cache.cap_entries,
    ensures
        ({
            let before = stream_outcome(inputs, cache, restrict).1;
            let set = sets_in(data, restrict)->0[i];
            among(
                data_set_rows(
                    tpl,
                    set.body,
                    CtxView { template_id: set.id, ..ctx_in(data, opts) },
                    opts.mode == Mode::FlowsOnly,
                ),
                datagram_outcome(data, opts, before, restrict).0,
            )
        }),
{
    let ctx = ctx_in(data, opts);
    let fo = opts.mode == Mode::FlowsOnly;
    let now = opts.now_micros;
    let sets = sets_in(data, restrict)->0;
    let set = sets[i];
    let k = template_key(opts.exporter, ctx.obs_domain, set.id);
    let longer = inputs.push((Some(data), opts));
    assert(longer.drop_last() =~= inputs);
    let before = stream_outcome(inputs, cache, restrict).1;
    let defs = defs_in(data, restrict);
    lemma_template_survives(longer, cache, restrict);
    lemma_latest_layout(longer, cache, restrict, k);
    lemma_latest_layout(inputs, cache, restrict, k);
    lemma_latest_is_known(longer, cache, restrict, k);
    lemma_datagram_layouts(data, opts, before, restrict, k);
    lemma_decoded_shape(data, opts, before, restrict);
    lemma_learned(before, defs, opts.exporter, ctx.obs_domain, now, k);
    let knows = learned(before, defs, opts.exporter, ctx.obs_domain, now);
    lemma_sets_keep_layouts(knows, sets, ctx, now, fo);
    let first = decoded(data, opts, before, restrict);
    lemma_retry_keeps_layouts(first.1, ordered_keys(first.1.pending.dom()), now, fo);
    let (a, b) = lemma_set_decodes(knows, sets, ctx, now, fo, i, tpl);
    let mid = data_set_rows(tpl, set.body, CtxView { template_id: set.id, ..ctx }, fo);
    let more = keys_retried(first.1, ordered_keys(first.1.pending.dom()), now, fo);
    assert((a + mid + b) + more.0 =~= a + mid + (b + more.0));
}

/// A key that was given a layout is among those known before or defined since.
proof fn lemma_latest_is_known(
    inputs: Seq<(Option<Seq<u8>>, OptionsView)>,
    cache: CacheView,
    restrict: Restrict,
    k: KeyView,
)
    ensures
        latest_layout(inputs, cache, restrict, k) is Some <==> cache.entries.dom().union(
            all_keys_in(inputs, restrict),
        ).contains(k),
    decreases inputs.len(),
{
    if inputs.len() > 0 {
        lemma_latest_is_known(inputs.drop_last(), cache, restrict, k);
        if let Some(d) = inputs.last().0 {
            let opts = inputs.last().1;
            lemma_def_keys(defs_in(d, restrict), opts.exporter, ctx_in(d, opts).obs_domain, k);
        }
    }
}

} // verus!
