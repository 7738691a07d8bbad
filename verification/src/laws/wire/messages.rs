//! NetFlow v9 and IPFIX messages on the wire: the header, a template and the records
//! under it.

use vstd::prelude::*;

use crate::cache::{CacheView, EntryView, KeyView, PendingView, TemplateKind};
use crate::decode::header::{format_of, header_of, ExportHeader, Format};
use crate::decode::ipfix::{ipfix_ctx, ipfix_defs, ipfix_outcome, ipfix_set_templates};
use crate::decode::record::{data_set_rows, CtxView};
use crate::decode::sets::{
    after_header, fresh_entry, learned, set_outcome, sets_of, sets_outcome, template_key, SetView,
    TemplateDef,
};
use crate::decode::v9::{v9_ctx, v9_defs, v9_outcome, v9_set_templates};
use crate::decode::{
    datagram_outcome, pending_ctx, pending_rows, retried, Mode, OptionsView, Restrict,
};
use crate::laws::bounds::lemma_no_eviction;
use crate::laws::buffered::{lemma_pending_keys, no_empty_lists};
use crate::laws::wire::fields::{
    least_bytes, lemma_data_set_reads_back, record_fits, record_row, records_bytes, Record,
};
use crate::laws::wire::layouts::{
    layout_def, layouts_bytes, lemma_layouts, lemma_plans, lemma_sets_read_back, plan_def,
    plan_writable, plans_bytes, sets_bytes, writable, Layout, Plan,
};
use crate::laws::wire::sflow::{lemma_word_in, lemma_words, words};
use crate::laws::wire::{lemma_at16, w16};
use crate::normalize::FlowView;

verus! {

/// The header of a NetFlow v9 message.
pub struct V9Header {
    pub count: u16,
    pub uptime: u32,
    pub secs: u32,
    pub sequence: u32,
    pub source: u32,
}

/// The header of a NetFlow v9 message on the wire.
pub open spec fn v9_header_bytes(h: V9Header) -> Seq<u8> {
    w16(9) + w16(h.count) + words(seq![h.uptime, h.secs, h.sequence, h.source])
}

/// The header of an IPFIX message.
pub struct IpfixHeader {
    pub length: u16,
    pub secs: u32,
    pub sequence: u32,
    pub domain: u32,
}

/// The header of an IPFIX message on the wire.
pub open spec fn ipfix_header_bytes(h: IpfixHeader) -> Seq<u8> {
    w16(10) + w16(h.length) + words(seq![h.secs, h.sequence, h.domain])
}

/// The header of a NetFlow v9 message reads back; seconds become microseconds.
pub proof fn lemma_v9_header_reads_back(h: V9Header, rest: Seq<u8>)
    ensures
        format_of(v9_header_bytes(h) + rest) == Some(Format::V9),
        header_of(v9_header_bytes(h) + rest) == Some(
            ExportHeader {
                version: 9,
                count: Some(h.count),
                sys_uptime: Some(h.uptime),
                export_time: Some((h.secs * 1_000_000) as i64),
                sequence: Some(h.sequence as u64),
                obs_domain: Some(h.source),
            },
        ),
        after_header(v9_header_bytes(h) + rest, 20) == rest,
{
    let s = v9_header_bytes(h) + rest;
    let ws = seq![h.uptime, h.secs, h.sequence, h.source];
    lemma_words(ws);
    lemma_at16(s, 0, 9);
    lemma_at16(s, 2, h.count);
    assert(s.subrange(4, 4 + 4 * ws.len() as int) =~= words(ws));
    lemma_word_in(s, 4, ws, 0);
    lemma_word_in(s, 4, ws, 1);
    lemma_word_in(s, 4, ws, 2);
    lemma_word_in(s, 4, ws, 3);
    assert(s.skip(20) =~= rest);
}

/// The header of an IPFIX message reads back; seconds become microseconds, and there is
/// neither a count nor an uptime.
pub proof fn lemma_ipfix_header_reads_back(h: IpfixHeader, rest: Seq<u8>)
    ensures
        format_of(ipfix_header_bytes(h) + rest) == Some(Format::Ipfix),
        header_of(ipfix_header_bytes(h) + rest) == Some(
            ExportHeader {
                version: 10,
                count: None,
                sys_uptime: None,
                export_time: Some((h.secs * 1_000_000) as i64),
                sequence: Some(h.sequence as u64),
                obs_domain: Some(h.domain),
            },
        ),
        after_header(ipfix_header_bytes(h) + rest, 16) == rest,
{
    let s = ipfix_header_bytes(h) + rest;
    let ws = seq![h.secs, h.sequence, h.domain];
    lemma_words(ws);
    lemma_at16(s, 0, 10);
    lemma_at16(s, 2, h.length);
    assert(s.subrange(4, 4 + 4 * ws.len() as int) =~= words(ws));
    lemma_word_in(s, 4, ws, 0);
    lemma_word_in(s, 4, ws, 1);
    lemma_word_in(s, 4, ws, 2);
    assert(s.skip(16) =~= rest);
}

/// A cache with nothing buffered and room for one more template.
pub open spec fn has_space(cache: CacheView) -> bool {
    &&& cache.pending == Map::<KeyView, Seq<PendingView>>::empty()
    &&& cache.entries.dom().finite()
    &&& cache.entries.dom().len() < cache.cap_entries
}

/// The rows of records under a template; where only flows are asked for, options records
/// give none.
pub open spec fn rows_under(
    def: TemplateDef,
    rs: Seq<Record>,
    ctx: CtxView,
    flows_only: bool,
) -> Seq<FlowView> {
    if flows_only && def.kind == TemplateKind::Options {
        Seq::empty()
    } else {
        Seq::new(
            rs.len(),
            |i: int| record_row(CtxView { template_id: def.id, ..ctx }, def.fields, rs[i].vals),
        )
    }
}

/// Two sets, a template and its data, in the one order or the other.
pub open spec fn pair_of_sets(plan: SetView, data: SetView, plan_first: bool) -> Seq<SetView> {
    if plan_first {
        seq![plan, data]
    } else {
        seq![data, plan]
    }
}

/// Records that a template can hold, and padding behind them that can hold no further
/// one.
pub open spec fn records_fit(def: TemplateDef, rs: Seq<Record>, pad: Seq<u8>) -> bool {
    &&& def.id >= 256
    &&& forall|i: int| 0 <= i < rs.len() ==> record_fits(def.fields, #[trigger] rs[i])
    &&& pad.len() < least_bytes(def.fields)
}

/// A template that was learned decodes the data of its message.
#[verifier::rlimit(40)]
proof fn lemma_template_and_data(
    cache: CacheView,
    def: TemplateDef,
    plan: SetView,
    plan_first: bool,
    rs: Seq<Record>,
    pad: Seq<u8>,
    ctx: CtxView,
    now: i64,
    flows_only: bool,
)
    requires
        has_space(cache),
        plan.id < 256,
        records_fit(def, rs, pad),
    ensures
        ({
            let data = SetView { id: def.id, body: records_bytes(def.fields, rs) + pad };
            let known = learned(cache, seq![def], ctx.exporter, ctx.obs_domain, now);
            let out = sets_outcome(
                known,
                pair_of_sets(plan, data, plan_first),
                ctx,
                now,
                flows_only,
            );
            &&& out.0 == rows_under(def, rs, ctx, flows_only)
            &&& out.1.pending == cache.pending
        }),
{
    let data = SetView { id: def.id, body: records_bytes(def.fields, rs) + pad };
    let key = template_key(ctx.exporter, ctx.obs_domain, def.id);
    let known = learned(cache, seq![def], ctx.exporter, ctx.obs_domain, now);
    assert(seq![def].drop_first() =~= Seq::<TemplateDef>::empty());
    reveal_with_fuel(learned, 3);
    let entry = known.entries[key];
    let entries = cache.entries.insert(key, entry);
    assert(known == cache.upserted(key, fresh_entry(def, now)));
    lemma_inserted(cache, key, def, now);
    lemma_data_set_reads_back(
        entry,
        rs,
        pad,
        CtxView { template_id: def.id, ..ctx },
        flows_only,
    );
    let rows = rows_under(def, rs, ctx, flows_only);
    let out = set_outcome(known, data, ctx, now, flows_only);
    assert(out.0 =~= rows);
    assert(out.1.pending == cache.pending);
    reveal_with_fuel(sets_outcome, 3);
    let sets = pair_of_sets(plan, data, plan_first);
    assert(sets.drop_first().drop_first() =~= Seq::<SetView>::empty());
    assert(sets.drop_first()[0] == sets[1]);
    assert(Seq::<FlowView>::empty() + rows =~= rows);
    assert(rows + Seq::<FlowView>::empty() =~= rows);
}

/// A template that there is room for is known at once.
proof fn lemma_inserted(cache: CacheView, key: KeyView, def: TemplateDef, now: i64)
    requires
        has_space(cache),
    ensures
        ({
            let known = cache.upserted(key, fresh_entry(def, now));
            &&& known.pending == cache.pending
            &&& known.entries.dom().contains(key)
            &&& known.entries[key].fields == def.fields
            &&& known.entries[key].kind == def.kind
        }),
{
    let e = crate::cache::redefined(cache.lookup(key), fresh_entry(def, now));
    let entries = cache.entries.insert(key, e);
    assert(entries.dom() =~= cache.entries.dom().insert(key));
    lemma_no_eviction(entries, cache.cap_entries as nat);
}

/// Where nothing is buffered there is nothing to retry.
pub proof fn lemma_nothing_to_retry(cache: CacheView, now: i64, flows_only: bool)
    requires
        cache.pending == Map::<KeyView, Seq<PendingView>>::empty(),
    ensures
        retried(cache, now, flows_only) == (Seq::<FlowView>::empty(), cache),
{
    assert(no_empty_lists(cache));
    lemma_pending_keys(cache);
}

/// Two sets are found as they were written.
proof fn lemma_pair(plan: SetView, data: SetView, plan_first: bool)
    requires
        plan.body.len() <= 65_531,
        data.body.len() <= 65_531,
    ensures
        ({
            let sets = pair_of_sets(plan, data, plan_first);
            sets_of(sets_bytes(sets)) == Some(sets)
        }),
{
    let sets = pair_of_sets(plan, data, plan_first);
    lemma_sets_read_back(sets, Seq::empty());
    assert(sets_bytes(sets) + Seq::<u8>::empty() =~= sets_bytes(sets));
}

/// Only the template set of two holds a template.
proof fn lemma_pair_defs(plan: SetView, data: SetView, plan_first: bool)
    requires
        data.id >= 256,
    ensures
        v9_defs(pair_of_sets(plan, data, plan_first)) == v9_set_templates(plan),
        ipfix_defs(pair_of_sets(plan, data, plan_first)) == ipfix_set_templates(plan),
{
    let sets = pair_of_sets(plan, data, plan_first);
    let rest = sets.drop_first();
    let none = Seq::<TemplateDef>::empty();
    let (a, b) = (v9_set_templates(plan), ipfix_set_templates(plan));
    assert(rest.drop_first() =~= Seq::<SetView>::empty());
    assert(rest[0] == sets[1]);
    assert(v9_set_templates(data) == none && ipfix_set_templates(data) == none);
    assert(none + (a + none) =~= a && a + (none + none) =~= a);
    assert(none + (b + none) =~= b && b + (none + none) =~= b);
    assert(v9_defs(rest) == v9_set_templates(rest[0]) + v9_defs(rest.drop_first()));
    assert(ipfix_defs(rest) == ipfix_set_templates(rest[0]) + ipfix_defs(rest.drop_first()));
}

/// The one template of a set is found.
proof fn lemma_v9_plan(p: Plan, options: bool)
    requires
        plan_writable(p, options),
    ensures
        v9_set_templates(
            SetView {
                id: if options {
                    1
                } else {
                    0
                },
                body: plans_bytes(seq![p], options),
            },
        ) == seq![plan_def(p, options)],
{
    let ps = seq![p];
    let body = plans_bytes(ps, options);
    lemma_plans(ps, options, Seq::empty());
    assert(body + Seq::<u8>::empty() =~= body);
    assert(Seq::new(ps.len(), |i: int| plan_def(ps[i], options)) =~= seq![plan_def(p, options)]);
}

/// The two sets of a message are found, and the template in them.
#[verifier::rlimit(40)]
proof fn lemma_v9_pair(p: Plan, options: bool, data: SetView, plan_first: bool)
    requires
        plan_writable(p, options),
        data.id >= 256,
        data.body.len() <= 65_531,
        plans_bytes(seq![p], options).len() <= 65_531,
    ensures
        ({
            let plan = SetView {
                id: if options {
                    1
                } else {
                    0
                },
                body: plans_bytes(seq![p], options),
            };
            let sets = pair_of_sets(plan, data, plan_first);
            &&& sets_of(sets_bytes(sets)) == Some(sets)
            &&& v9_defs(sets) == seq![plan_def(p, options)]
        }),
{
    let plan = SetView {
        id: if options {
            1
        } else {
            0
        },
        body: plans_bytes(seq![p], options),
    };
    lemma_pair(plan, data, plan_first);
    lemma_pair_defs(plan, data, plan_first);
    lemma_v9_plan(p, options);
}

/// What the header of a message gives the rows under it.
pub open spec fn v9_message_ctx(h: V9Header, opts: OptionsView) -> CtxView {
    CtxView {
        exporter: opts.exporter,
        obs_domain: match opts.obs_domain_override {
            Some(d) => d,
            None => h.source,
        },
        version: "9"@,
        export_time: Some((h.secs * 1_000_000) as i64),
        sequence: Some(h.sequence as u64),
        sys_uptime_ms: Some(h.uptime as u64),
        template_id: 0,
    }
}

/// A message first learns the templates of all its sets, under the given exporter and
/// the domain of the header unless another is asked for; then it works through its sets
/// in order.
#[verifier::rlimit(40)]
pub proof fn lemma_v9_message(
    h: V9Header,
    sets: Seq<SetView>,
    opts: OptionsView,
    cache: CacheView,
    restrict: Restrict,
)
    requires
        sets_of(sets_bytes(sets)) == Some(sets),
        restrict == Restrict::Any || restrict == Restrict::NetflowOnly,
    ensures
        ({
            let ctx = v9_message_ctx(h, opts);
            let fo = opts.mode == Mode::FlowsOnly;
            let known = learned(
                cache,
                v9_defs(sets),
                opts.exporter,
                ctx.obs_domain,
                opts.now_micros,
            );
            let first = sets_outcome(known, sets, ctx, opts.now_micros, fo);
            let more = retried(first.1, opts.now_micros, fo);
            datagram_outcome(v9_header_bytes(h) + sets_bytes(sets), opts, cache, restrict) == (
                first.0 + more.0,
                more.1,
            )
        }),
{
    let s = v9_header_bytes(h) + sets_bytes(sets);
    let fo = opts.mode == Mode::FlowsOnly;
    lemma_v9_header_reads_back(h, sets_bytes(sets));
    let ctx = v9_message_ctx(h, opts);
    let hdr = header_of(s)->0;
    assert(v9_ctx(opts.exporter, ctx.obs_domain, hdr) == ctx);
    assert(v9_outcome(
        s,
        opts.exporter,
        opts.obs_domain_override,
        cache,
        opts.now_micros,
        fo,
    ) == sets_outcome(
        learned(cache, v9_defs(sets), opts.exporter, ctx.obs_domain, opts.now_micros),
        sets,
        ctx,
        opts.now_micros,
        fo,
    ));
}

/// A NetFlow v9 message with a template and records under it reads back, whichever comes
/// first: one row per record, in order, each value in its column, with the time and the
/// sequence number of the header, under the domain of the header unless another is asked
/// for. Nothing is left buffered.
#[verifier::rlimit(40)]
pub proof fn lemma_v9_message_reads_back(
    h: V9Header,
    p: Plan,
    options: bool,
    rs: Seq<Record>,
    pad: Seq<u8>,
    plan_first: bool,
    opts: OptionsView,
    cache: CacheView,
    restrict: Restrict,
)
    requires
        has_space(cache),
        plan_writable(p, options),
        records_fit(plan_def(p, options), rs, pad),
        plans_bytes(seq![p], options).len() <= 65_531,
        records_bytes(plan_def(p, options).fields, rs).len() + pad.len() <= 65_531,
        restrict == Restrict::Any || restrict == Restrict::NetflowOnly,
    ensures
        ({
            let def = plan_def(p, options);
            let plan = SetView {
                id: if options {
                    1
                } else {
                    0
                },
                body: plans_bytes(seq![p], options),
            };
            let data = SetView { id: p.id, body: records_bytes(def.fields, rs) + pad };
            let out = datagram_outcome(
                v9_header_bytes(h) + sets_bytes(pair_of_sets(plan, data, plan_first)),
                opts,
                cache,
                restrict,
            );
            &&& out.0 == rows_under(
                def,
                rs,
                v9_message_ctx(h, opts),
                opts.mode == Mode::FlowsOnly,
            )
            &&& out.1.pending == cache.pending
        }),
{
    let def = plan_def(p, options);
    let plan = SetView {
        id: if options {
            1
        } else {
            0
        },
        body: plans_bytes(seq![p], options),
    };
    let data = SetView { id: p.id, body: records_bytes(def.fields, rs) + pad };
    let sets = pair_of_sets(plan, data, plan_first);
    let ctx = v9_message_ctx(h, opts);
    let fo = opts.mode == Mode::FlowsOnly;
    let now = opts.now_micros;
    lemma_v9_pair(p, options, data, plan_first);
    lemma_v9_message(h, sets, opts, cache, restrict);
    lemma_template_and_data(cache, def, plan, plan_first, rs, pad, ctx, now, fo);
    let known = learned(cache, seq![def], opts.exporter, ctx.obs_domain, now);
    let first = sets_outcome(known, sets, ctx, now, fo);
    lemma_nothing_to_retry(first.1, now, fo);
    assert(first.0 + Seq::<FlowView>::empty() =~= first.0);
}

/// The two sets of a message are found, and the template in them.
#[verifier::rlimit(40)]
proof fn lemma_ipfix_pair(l: Layout, options: bool, data: SetView, plan_first: bool)
    requires
        writable(l),
        data.id >= 256,
        data.body.len() <= 65_531,
        layouts_bytes(seq![l], options).len() <= 65_531,
    ensures
        ({
            let plan = SetView {
                id: if options {
                    3
                } else {
                    2
                },
                body: layouts_bytes(seq![l], options),
            };
            let sets = pair_of_sets(plan, data, plan_first);
            &&& sets_of(sets_bytes(sets)) == Some(sets)
            &&& ipfix_defs(sets) == seq![layout_def(l, options)]
        }),
{
    let body = layouts_bytes(seq![l], options);
    let plan = SetView {
        id: if options {
            3
        } else {
            2
        },
        body,
    };
    lemma_pair(plan, data, plan_first);
    lemma_pair_defs(plan, data, plan_first);
    lemma_layouts(seq![l], options, Seq::empty());
    assert(body + Seq::<u8>::empty() =~= body);
    assert(ipfix_set_templates(plan) =~= seq![layout_def(l, options)]);
}

/// What the header of a message gives the rows under it.
pub open spec fn ipfix_message_ctx(h: IpfixHeader, opts: OptionsView) -> CtxView {
    CtxView {
        exporter: opts.exporter,
        obs_domain: match opts.obs_domain_override {
            Some(d) => d,
            None => h.domain,
        },
        version: "10"@,
        export_time: Some((h.secs * 1_000_000) as i64),
        sequence: Some(h.sequence as u64),
        sys_uptime_ms: None,
        template_id: 0,
    }
}

/// A message first learns the templates of all its sets, under the given exporter and
/// the domain of the header unless another is asked for; then it works through its sets
/// in order.
#[verifier::rlimit(40)]
pub proof fn lemma_ipfix_message(
    h: IpfixHeader,
    sets: Seq<SetView>,
    opts: OptionsView,
    cache: CacheView,
    restrict: Restrict,
)
    requires
        sets_of(sets_bytes(sets)) == Some(sets),
        restrict == Restrict::Any || restrict == Restrict::IpfixOnly,
    ensures
        ({
            let ctx = ipfix_message_ctx(h, opts);
            let fo = opts.mode == Mode::FlowsOnly;
            let known = learned(
                cache,
                ipfix_defs(sets),
                opts.exporter,
                ctx.obs_domain,
                opts.now_micros,
            );
            let first = sets_outcome(known, sets, ctx, opts.now_micros, fo);
            let more = retried(first.1, opts.now_micros, fo);
            datagram_outcome(ipfix_header_bytes(h) + sets_bytes(sets), opts, cache, restrict) == (
                first.0 + more.0,
                more.1,
            )
        }),
{
    let s = ipfix_header_bytes(h) + sets_bytes(sets);
    let fo = opts.mode == Mode::FlowsOnly;
    lemma_ipfix_header_reads_back(h, sets_bytes(sets));
    let ctx = ipfix_message_ctx(h, opts);
    let hdr = header_of(s)->0;
    assert(ipfix_ctx(opts.exporter, ctx.obs_domain, hdr) == ctx);
    assert(ipfix_outcome(
        s,
        opts.exporter,
        opts.obs_domain_override,
        cache,
        opts.now_micros,
        fo,
    ) == sets_outcome(
        learned(cache, ipfix_defs(sets), opts.exporter, ctx.obs_domain, opts.now_micros),
        sets,
        ctx,
        opts.now_micros,
        fo,
    ));
}

/// A IPFIX message with a template and records under it reads back, whichever comes
/// first: one row per record, in order, each value in its column, with the time and the
/// sequence number of the header, under the domain of the header unless another is asked
/// for. Nothing is left buffered.
#[verifier::rlimit(40)]
pub proof fn lemma_ipfix_message_reads_back(
    h: IpfixHeader,
    l: Layout,
    options: bool,
    rs: Seq<Record>,
    pad: Seq<u8>,
    plan_first: bool,
    opts: OptionsView,
    cache: CacheView,
    restrict: Restrict,
)
    requires
        has_space(cache),
        writable(l),
        records_fit(layout_def(l, options), rs, pad),
        layouts_bytes(seq![l], options).len() <= 65_531,
        records_bytes(layout_def(l, options).fields, rs).len() + pad.len() <= 65_531,
        restrict == Restrict::Any || restrict == Restrict::IpfixOnly,
    ensures
        ({
            let def = layout_def(l, options);
            let plan = SetView {
                id: if options {
                    3
                } else {
                    2
                },
                body: layouts_bytes(seq![l], options),
            };
            let data = SetView { id: l.id, body: records_bytes(def.fields, rs) + pad };
            let out = datagram_outcome(
                ipfix_header_bytes(h) + sets_bytes(pair_of_sets(plan, data, plan_first)),
                opts,
                cache,
                restrict,
            );
            &&& out.0 == rows_under(
                def,
                rs,
                ipfix_message_ctx(h, opts),
                opts.mode == Mode::FlowsOnly,
            )
            &&& out.1.pending == cache.pending
        }),
{
    let def = layout_def(l, options);
    let plan = SetView {
        id: if options {
            3
        } else {
            2
        },
        body: layouts_bytes(seq![l], options),
    };
    let data = SetView { id: l.id, body: records_bytes(def.fields, rs) + pad };
    let sets = pair_of_sets(plan, data, plan_first);
    let ctx = ipfix_message_ctx(h, opts);
    let fo = opts.mode == Mode::FlowsOnly;
    let now = opts.now_micros;
    lemma_ipfix_pair(l, options, data, plan_first);
    lemma_ipfix_message(h, sets, opts, cache, restrict);
    lemma_template_and_data(cache, def, plan, plan_first, rs, pad, ctx, now, fo);
    let known = learned(cache, seq![def], opts.exporter, ctx.obs_domain, now);
    let first = sets_outcome(known, sets, ctx, now, fo);
    lemma_nothing_to_retry(first.1, now, fo);
    assert(first.0 + Seq::<FlowView>::empty() =~= first.0);
}

/// Sets may be cut anywhere between two of them: working through some and then, with the
/// cache that they left, through others is working through all of them; one set alone is
/// worked through by itself.
pub proof fn lemma_sets_join(
    cache: CacheView,
    a: Seq<SetView>,
    b: Seq<SetView>,
    set: SetView,
    ctx: CtxView,
    now: i64,
    flows_only: bool,
)
    ensures
        ({
            let first = sets_outcome(cache, a, ctx, now, flows_only);
            let second = sets_outcome(first.1, b, ctx, now, flows_only);
            sets_outcome(cache, a + b, ctx, now, flows_only) == (first.0 + second.0, second.1)
        }),
        sets_outcome(cache, seq![set], ctx, now, flows_only) == set_outcome(
            cache,
            set,
            ctx,
            now,
            flows_only,
        ),
    decreases a.len(),
{
    let none = Seq::<FlowView>::empty();
    let one = set_outcome(cache, set, ctx, now, flows_only);
    assert(seq![set].drop_first() =~= Seq::<SetView>::empty());
    assert(sets_outcome(one.1, Seq::empty(), ctx, now, flows_only) == (none, one.1));
    assert(one.0 + none =~= one.0);
    if a.len() == 0 {
        assert(a + b =~= b);
        let second = sets_outcome(cache, b, ctx, now, flows_only);
        assert(none + second.0 =~= second.0);
    } else {
        let more = a.drop_first();
        let head = set_outcome(cache, a[0], ctx, now, flows_only);
        assert((a + b).drop_first() =~= more + b);
        assert((a + b)[0] == a[0]);
        lemma_sets_join(head.1, more, b, set, ctx, now, flows_only);
        let middle = sets_outcome(head.1, more, ctx, now, flows_only);
        let second = sets_outcome(middle.1, b, ctx, now, flows_only);
        assert(head.0 + (middle.0 + second.0) =~= head.0 + middle.0 + second.0);
    }
}

/// The templates of a message are those of all its sets, in order, and a set of data holds
/// none.
pub proof fn lemma_defs_join(a: Seq<SetView>, b: Seq<SetView>, set: SetView)
    ensures
        v9_defs(a + b) == v9_defs(a) + v9_defs(b),
        ipfix_defs(a + b) == ipfix_defs(a) + ipfix_defs(b),
        v9_defs(seq![set]) == v9_set_templates(set),
        ipfix_defs(seq![set]) == ipfix_set_templates(set),
        set.id >= 4 ==> v9_defs(seq![set]).len() == 0 && ipfix_defs(seq![set]).len() == 0,
    decreases a.len(),
{
    let none = Seq::<TemplateDef>::empty();
    assert(seq![set].drop_first() =~= Seq::<SetView>::empty());
    assert(v9_defs(Seq::empty()) == none && ipfix_defs(Seq::empty()) == none);
    assert(v9_set_templates(set) + none =~= v9_set_templates(set));
    assert(ipfix_set_templates(set) + none =~= ipfix_set_templates(set));
    if a.len() == 0 {
        assert(a + b =~= b);
        assert(none + v9_defs(b) =~= v9_defs(b));
        assert(none + ipfix_defs(b) =~= ipfix_defs(b));
    } else {
        let more = a.drop_first();
        assert((a + b).drop_first() =~= more + b);
        assert((a + b)[0] == a[0]);
        lemma_defs_join(more, b, set);
        let (x, y) = (v9_set_templates(a[0]), ipfix_set_templates(a[0]));
        assert(x + (v9_defs(more) + v9_defs(b)) =~= x + v9_defs(more) + v9_defs(b));
        assert(y + (ipfix_defs(more) + ipfix_defs(b)) =~= y + ipfix_defs(more) + ipfix_defs(b));
    }
}

/// What waited under a key is decoded all of it and in order: the rows of some Data Sets
/// and then of others are the rows of all of them; each is decoded with what it came with.
pub proof fn lemma_waiting_join(
    tpl: EntryView,
    key: KeyView,
    a: Seq<PendingView>,
    b: Seq<PendingView>,
    one: PendingView,
    flows_only: bool,
)
    ensures
        pending_rows(tpl, key, a + b, flows_only) == pending_rows(tpl, key, a, flows_only)
            + pending_rows(tpl, key, b, flows_only),
        one.version == "9"@ || one.version == "10"@ ==> pending_rows(
            tpl,
            key,
            seq![one],
            flows_only,
        ) == data_set_rows(
            tpl,
            one.bytes,
            CtxView {
                exporter: key.exporter,
                obs_domain: key.obs_domain,
                version: one.version,
                export_time: one.export_time,
                sequence: one.sequence,
                sys_uptime_ms: one.sys_uptime_ms,
                template_id: key.template_id,
            },
            flows_only,
        ),
    decreases a.len(),
{
    let none = Seq::<FlowView>::empty();
    let rows = data_set_rows(tpl, one.bytes, pending_ctx(key, one), flows_only);
    assert(seq![one].drop_first() =~= Seq::<PendingView>::empty());
    assert(pending_rows(tpl, key, Seq::empty(), flows_only) == none);
    assert(rows + none =~= rows);
    if a.len() == 0 {
        assert(a + b =~= b);
        let second = pending_rows(tpl, key, b, flows_only);
        assert(none + second =~= second);
    } else {
        let more = a.drop_first();
        assert((a + b).drop_first() =~= more + b);
        assert((a + b)[0] == a[0]);
        lemma_waiting_join(tpl, key, more, b, one, flows_only);
        let head = data_set_rows(tpl, a[0].bytes, pending_ctx(key, a[0]), flows_only);
        let middle = pending_rows(tpl, key, more, flows_only);
        let second = pending_rows(tpl, key, b, flows_only);
        assert(head + (middle + second) =~= head + middle + second);
    }
}

} // verus!
