//! What NetFlow v9 FlowSets and IPFIX Sets have in common: splitting a datagram
//! into sets, learning templates, and decoding or buffering data sets.

use vstd::prelude::*;
use vstd::slice::{slice_subrange, slice_to_vec};

use crate::buf::{at16, be_u16, Cursor};
use crate::cache::{
    CacheView, EntryView, FieldSpec, FieldView, KeyView, PendingRecord, PendingView, TemplateCache,
    TemplateEntry, TemplateKey, TemplateKind,
};
use crate::decode::header::ExportHeader;
use crate::decode::record::{
    count_records, data_set_rows, decode_data_set, records_in, Ctx, CtxView,
};
use crate::normalize::{diagnostic_row, FlowRecord, FlowView};
use crate::text::{dec, push_dec, views};

verus! {

broadcast use {crate::text::lemma_views_push, crate::text::lemma_views_add};

/// One set of a datagram: its id and what follows its 4-byte header.
pub struct RawSet<'a> {
    pub id: u16,
    pub body: &'a [u8],
}

/// What a set holds.
#[verifier::ext_equal]
pub struct SetView {
    pub id: u16,
    pub body: Seq<u8>,
}

impl<'a> View for RawSet<'a> {
    type V = SetView;

    open spec fn view(&self) -> SetView {
        SetView { id: self.id, body: self.body@ }
    }
}

/// The sets of a region, one after another; none where a declared length does
/// not cover its own header or runs past the end. A tail too short for a set
/// header is ignored.
pub open spec fn sets_of(region: Seq<u8>) -> Option<Seq<SetView>>
    decreases region.len(),
{
    if region.len() < 4 {
        Some(Seq::empty())
    } else {
        let length = at16(region, 2) as int;
        if length < 4 || length > region.len() {
            None
        } else {
            let set = SetView { id: at16(region, 0), body: region.subrange(4, length) };
            match sets_of(region.skip(length)) {
                Some(rest) => Some(seq![set] + rest),
                None => None,
            }
        }
    }
}

/// Split a region into `{id, body}` entries, validating each declared length
/// against the remaining buffer; `None` if one is out of range.
pub fn split_region<'a>(data: &'a [u8]) -> (r: Option<Vec<RawSet<'a>>>)
    ensures
        match r {
            Some(sets) => sets_of(data@) == Some(views(sets@)),
            None => sets_of(data@) is None,
        },
{
    let mut out: Vec<RawSet<'a>> = Vec::new();
    let mut region: &'a [u8] = data;
    assert(views(out@) =~= Seq::<SetView>::empty());
    proof {
        if sets_of(data@) is Some {
            assert(Seq::<SetView>::empty() + sets_of(data@)->0 =~= sets_of(data@)->0);
        }
    }
    while region.len() >= 4
        invariant
            match sets_of(region@) {
                Some(rest) => sets_of(data@) == Some(views(out@) + rest),
                None => sets_of(data@) is None,
            },
        decreases region@.len(),
    {
        let id: u16 = be_u16(region[0], region[1]);
        let length: usize = be_u16(region[2], region[3]) as usize;
        proof {
            assert(region@.subrange(0, 2) =~= seq![region@[0], region@[1]]);
            assert(region@.subrange(2, 4) =~= seq![region@[2], region@[3]]);
        }
        if length < 4 || length > region.len() {
            return None;
        }
        let body = slice_subrange(region, 4, length);
        let rest = slice_subrange(region, length, region.len());
        let ghost before = views(out@);
        let set = RawSet { id, body };
        proof {
            assert(rest@ =~= region@.skip(length as int));
            if sets_of(rest@) is Some {
                assert(before + (seq![set@] + sets_of(rest@)->0) =~= before.push(set@)
                    + sets_of(rest@)->0);
            }
        }
        out.push(set);
        region = rest;
    }
    assert(views(out@) + Seq::<SetView>::empty() =~= views(out@));
    Some(out)
}

/// A template as it stands in a datagram.
#[verifier::ext_equal]
pub struct TemplateDef {
    pub id: u16,
    pub kind: TemplateKind,
    pub fields: Seq<FieldView>,
    pub scope_field_count: u16,
}

/// A layout that was just seen for the first time.
pub open spec fn fresh_entry(def: TemplateDef, now: i64) -> EntryView {
    EntryView {
        kind: def.kind,
        fields: def.fields,
        scope_field_count: def.scope_field_count,
        first_seen: now,
        last_seen: now,
        use_count: 0,
    }
}

/// The cache key of a template id in its exporter's observation domain.
pub open spec fn template_key(exporter: Seq<char>, obs_domain: u32, template_id: u16) -> KeyView {
    KeyView { exporter, obs_domain, template_id }
}

/// The cache after it learned templates, in order.
pub open spec fn learned(
    cache: CacheView,
    defs: Seq<TemplateDef>,
    exporter: Seq<char>,
    obs_domain: u32,
    now: i64,
) -> CacheView
    decreases defs.len(),
{
    if defs.len() == 0 {
        cache
    } else {
        learned(
            cache.upserted(
                template_key(exporter, obs_domain, defs[0].id),
                fresh_entry(defs[0], now),
            ),
            defs.drop_first(),
            exporter,
            obs_domain,
            now,
        )
    }
}

/// Learning two lists of templates is learning the first and then the second.
pub proof fn lemma_learned_add(
    cache: CacheView,
    a: Seq<TemplateDef>,
    b: Seq<TemplateDef>,
    exporter: Seq<char>,
    obs_domain: u32,
    now: i64,
)
    ensures
        learned(cache, a + b, exporter, obs_domain, now) == learned(
            learned(cache, a, exporter, obs_domain, now),
            b,
            exporter,
            obs_domain,
            now,
        ),
    decreases a.len(),
{
    if a.len() == 0 {
        assert(a + b =~= b);
    } else {
        assert((a + b).drop_first() =~= a.drop_first() + b);
        lemma_learned_add(
            cache.upserted(template_key(exporter, obs_domain, a[0].id), fresh_entry(a[0], now)),
            a.drop_first(),
            b,
            exporter,
            obs_domain,
            now,
        );
    }
}

/// Learn one template.
pub fn learn_one(
    cache: &mut TemplateCache,
    exporter: &str,
    obs_domain: u32,
    now: i64,
    template_id: u16,
    kind: TemplateKind,
    fields: Vec<FieldSpec>,
    scope_field_count: u16,
)
    requires
        old(cache).wf(),
    ensures
        final(cache).wf(),
        final(cache)@ == old(cache)@.upserted(
            template_key(exporter@, obs_domain, template_id),
            fresh_entry(
                TemplateDef { id: template_id, kind, fields: views(fields@), scope_field_count },
                now,
            ),
        ),
{
    let key = TemplateKey { exporter: exporter.to_string(), obs_domain, template_id };
    let entry = TemplateEntry {
        kind,
        fields,
        scope_field_count,
        first_seen: now,
        last_seen: now,
        use_count: 0,
    };
    cache.upsert(key, entry);
}

/// A Data Set to be buffered, with the header context that its decoding needs.
pub open spec fn pending_of(body: Seq<u8>, ctx: CtxView) -> PendingView {
    PendingView {
        export_time: ctx.export_time,
        sequence: ctx.sequence,
        version: ctx.version,
        sys_uptime_ms: ctx.sys_uptime_ms,
        bytes: body,
    }
}

/// `missing-template:<domain>/<template id>`.
pub open spec fn missing_text(obs_domain: u32, template_id: u16) -> Seq<char> {
    "missing-template:"@ + dec(obs_domain as nat) + "/"@ + dec(template_id as nat)
}

/// The row of a Data Set whose template is not known.
pub open spec fn missing_row(
    key: KeyView,
    version: Seq<char>,
    export_time: Option<i64>,
    sequence: Option<u64>,
) -> FlowView {
    diagnostic_row(
        key.exporter,
        version,
        key.obs_domain,
        export_time,
        sequence,
        missing_text(key.obs_domain, key.template_id),
    )
}

/// `missing-template:<domain>/<template id>`.
pub fn missing_template(obs_domain: u32, template_id: u16) -> (r: String)
    ensures
        r@ == missing_text(obs_domain, template_id),
{
    let mut s = "missing-template:".to_string();
    push_dec(&mut s, obs_domain as u64);
    s.append("/");
    push_dec(&mut s, template_id as u64);
    s
}

/// The rows of one set and the cache after it: a Data Set whose template is known is
/// decoded, and the template counts its records; another is buffered, and one for
/// which the buffer has no room gives a `missing-template` row.
pub open spec fn set_outcome(
    cache: CacheView,
    set: SetView,
    ctx: CtxView,
    now: i64,
    flows_only: bool,
) -> (Seq<FlowView>, CacheView) {
    let key = template_key(ctx.exporter, ctx.obs_domain, set.id);
    if set.id < 256 {
        (Seq::empty(), cache)
    } else if cache.entries.dom().contains(key) {
        let rows = data_set_rows(
            cache.entries[key],
            set.body,
            CtxView { template_id: set.id, ..ctx },
            flows_only,
        );
        (rows, cache.used(key, now, records_in(rows) as u64))
    } else if cache.has_room(set.body.len()) {
        (Seq::empty(), cache.buffered(key, pending_of(set.body, ctx)))
    } else {
        (seq![missing_row(key, ctx.version, ctx.export_time, ctx.sequence)], cache)
    }
}

/// The rows of sets, one after another, and the cache after them.
pub open spec fn sets_outcome(
    cache: CacheView,
    sets: Seq<SetView>,
    ctx: CtxView,
    now: i64,
    flows_only: bool,
) -> (Seq<FlowView>, CacheView)
    decreases sets.len(),
{
    if sets.len() == 0 {
        (Seq::empty(), cache)
    } else {
        let first = set_outcome(cache, sets[0], ctx, now, flows_only);
        let rest = sets_outcome(first.1, sets.drop_first(), ctx, now, flows_only);
        (first.0 + rest.0, rest.1)
    }
}

/// Decode one set, or buffer it.
fn decode_set(
    set: &RawSet,
    ctx: &Ctx,
    cache: &mut TemplateCache,
    now: i64,
    mode_flows_only: bool,
) -> (r: Vec<FlowRecord>)
    requires
        old(cache).wf(),
    ensures
        final(cache).wf(),
        (views(r@), final(cache)@) == set_outcome(old(cache)@, set@, ctx@, now, mode_flows_only),
{
    let mut out: Vec<FlowRecord> = Vec::new();
    assert(views(out@) =~= Seq::<FlowView>::empty());
    if set.id < 256 {
        return out;
    }
    let key = TemplateKey {
        exporter: ctx.exporter.clone(),
        obs_domain: ctx.obs_domain,
        template_id: set.id,
    };
    let decoded = match cache.peek(&key) {
        Some(tpl) => {
            let mut ctx = ctx.clone();
            ctx.template_id = set.id;
            Some(decode_data_set(tpl, set.body, &ctx, mode_flows_only))
        },
        None => None,
    };
    match decoded {
        Some(rows) => {
            cache.count_records(&key, now, count_records(&rows));
            rows
        },
        None => {
            let rec = PendingRecord {
                export_time: ctx.export_time,
                sequence: ctx.sequence,
                version: ctx.version.to_string(),
                sys_uptime_ms: ctx.sys_uptime_ms,
                bytes: slice_to_vec(set.body),
            };
            if !cache.push_pending(key, rec) {
                out.push(
                    FlowRecord::diagnostic(
                        ctx.exporter.as_str(),
                        ctx.version,
                        ctx.obs_domain,
                        ctx.export_time,
                        ctx.sequence,
                        missing_template(ctx.obs_domain, set.id),
                    ),
                );
                assert(views(out@) =~= seq![out@[0]@]);
            }
            out
        },
    }
}

/// Decode every Data Set among `sets`, buffering those whose template is unknown.
pub fn decode_sets(
    sets: &Vec<RawSet>,
    ctx: &Ctx,
    cache: &mut TemplateCache,
    now: i64,
    mode_flows_only: bool,
) -> (r: Vec<FlowRecord>)
    requires
        old(cache).wf(),
    ensures
        final(cache).wf(),
        (views(r@), final(cache)@) == sets_outcome(
            old(cache)@,
            views(sets@),
            ctx@,
            now,
            mode_flows_only,
        ),
{
    let ghost all = views(sets@);
    let mut out: Vec<FlowRecord> = Vec::new();
    let ghost want = sets_outcome(old(cache)@, all, ctx@, now, mode_flows_only);
    let mut i: usize = 0;
    proof {
        assert(all.skip(0) =~= all);
        assert(views(out@) + want.0 =~= want.0);
    }
    while i < sets.len()
        invariant
            cache.wf(),
            all == views(sets@),
            i <= sets@.len(),
            want.0 == views(out@) + sets_outcome(
                cache@,
                all.skip(i as int),
                ctx@,
                now,
                mode_flows_only,
            ).0,
            want.1 == sets_outcome(cache@, all.skip(i as int), ctx@, now, mode_flows_only).1,
        decreases sets.len() - i,
    {
        let ghost before = views(out@);
        let ghost c0 = cache@;
        let mut rows = decode_set(&sets[i], ctx, cache, now, mode_flows_only);
        let ghost got = views(rows@);
        out.append(&mut rows);
        proof {
            assert(all.skip(i as int).drop_first() =~= all.skip(i + 1));
            assert(all.skip(i as int)[0] == sets@[i as int]@);
            let rest = sets_outcome(cache@, all.skip(i + 1), ctx@, now, mode_flows_only);
            assert(before + (got + rest.0) =~= (before + got) + rest.0);
        }
        i = i + 1;
    }
    proof {
        assert(all.skip(i as int) =~= Seq::<SetView>::empty());
        assert(views(out@) + Seq::<FlowView>::empty() =~= views(out@));
    }
    out
}

/// Whether two zero bytes come next, as in the padding after a template.
pub open spec fn zero_tail(rest: Seq<u8>) -> bool {
    rest.len() >= 2 && rest[0] == 0 && rest[1] == 0
}

/// The observation domain of a datagram: the override, else the header's, else 0.
pub open spec fn domain_of(over: Option<u32>, hdr: ExportHeader) -> u32 {
    match (over, hdr.obs_domain) {
        (Some(d), _) => d,
        (None, Some(d)) => d,
        (None, None) => 0,
    }
}

/// What follows the header of a datagram.
pub open spec fn after_header(data: Seq<u8>, n: int) -> Seq<u8> {
    data.skip(
        if data.len() < n {
            data.len() as int
        } else {
            n
        },
    )
}

/// The observation domain of a datagram: the override, else the header's, else 0.
pub fn pick_domain(over: Option<u32>, hdr: &ExportHeader) -> (r: u32)
    ensures
        r == domain_of(over, *hdr),
{
    match over {
        Some(d) => d,
        None => match hdr.obs_domain {
            Some(d) => d,
            None => 0,
        },
    }
}

/// A list of one row.
pub fn one_row(rec: FlowRecord) -> (r: Vec<FlowRecord>)
    ensures
        views(r@) == seq![rec@],
{
    let mut out: Vec<FlowRecord> = Vec::new();
    out.push(rec);
    assert(views(out@) =~= seq![rec@]);
    out
}

/// Whether two zero bytes come next.
pub fn at_zero_tail(c: &Cursor) -> (r: bool)
    requires
        c.wf(),
    ensures
        r == zero_tail(c@),
{
    match c.peek(2) {
        Some(b) => b[0] == 0 && b[1] == 0,
        None => false,
    }
}

} // verus!
