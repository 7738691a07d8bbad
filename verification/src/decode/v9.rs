//! NetFlow v9 (RFC 3954): 20-byte header + a sequence of FlowSets: id 0 =
//! Template, id 1 = Options Template, id ≥ 256 = Data (keyed by template id).
//! Template-stateful: data is sliced against the cached layout.

use vstd::prelude::*;
use vstd::slice::slice_subrange;

use crate::buf::{at16, Cursor};
use crate::cache::{CacheView, FieldSpec, FieldView, TemplateCache, TemplateKind};
use crate::decode::header::{header_of, parse_header, ExportHeader};
use crate::decode::record::{field_of, field_spec, Ctx, CtxView};
use crate::decode::sets::{
    after_header, at_zero_tail, decode_sets, domain_of, learn_one, learned, lemma_learned_add,
    one_row, pick_domain, sets_of, sets_outcome, split_region, zero_tail, RawSet, SetView,
    TemplateDef,
};
use crate::normalize::{diagnostic_row, FlowRecord, FlowView};
use crate::text::views;

verus! {

broadcast use {crate::text::lemma_views_push, crate::buf::group_offsets};

/// Sentinel "enterprise number" used to tag v9 Options scope fields so they are
/// never mistaken for a same-id IANA Information Element during normalization.
pub const SCOPE_PEN: u32 = 0xFFFF_FFFF;

/// The name of a scope field type.
pub open spec fn scope_text(ty: u16) -> Seq<char> {
    match ty {
        1 => "system"@,
        2 => "interface"@,
        3 => "linecard"@,
        4 => "cache"@,
        5 => "template"@,
        _ => "other"@,
    }
}

/// A scope field of an Options template.
pub open spec fn scope_field(ty: u16, length: u16) -> FieldView {
    FieldView {
        ie_id: ty,
        enterprise_number: SCOPE_PEN,
        length,
        name: "scope_"@ + scope_text(ty),
        ie_type: "octetArray"@,
    }
}

/// `n` field specifiers, of which the first `scopes` are scope fields: 2-byte
/// type and 2-byte length each.
pub open spec fn v9_fields(b: Seq<u8>, scopes: nat, n: nat) -> Seq<FieldView> {
    Seq::new(
        n,
        |i: int|
            if i < scopes {
                scope_field(at16(b, 4 * i), at16(b, 4 * i + 2))
            } else {
                field_of(0, at16(b, 4 * i), at16(b, 4 * i + 2))
            },
    )
}

/// The template at the front of a Template FlowSet body and what follows it:
/// template id, field count, and as many field specifiers.
pub open spec fn v9_template(rest: Seq<u8>) -> Option<(TemplateDef, Seq<u8>)> {
    if rest.len() < 4 {
        None
    } else {
        let n = at16(rest, 2) as nat;
        let body = rest.skip(4);
        if at16(rest, 0) == 0 || body.len() < 4 * n {
            None
        } else {
            Some(
                (
                    TemplateDef {
                        id: at16(rest, 0),
                        kind: TemplateKind::Data,
                        fields: v9_fields(body, 0, n),
                        scope_field_count: 0,
                    },
                    body.skip(4 * n as int),
                ),
            )
        }
    }
}

/// The templates of a Template FlowSet body, up to the first that is not whole.
pub open spec fn v9_templates(rest: Seq<u8>) -> Seq<TemplateDef>
    decreases rest.len(),
{
    match v9_template(rest) {
        Some((def, after)) => if after.len() < rest.len() {
            seq![def] + v9_templates(after)
        } else {
            seq![def]
        },
        None => Seq::empty(),
    }
}

/// The template at the front of an Options Template FlowSet body and what follows
/// it: template id, byte lengths of the scope and option specifiers, and both.
pub open spec fn v9_options_template(rest: Seq<u8>) -> Option<(TemplateDef, Seq<u8>)> {
    if rest.len() < 6 {
        None
    } else {
        let scopes = (at16(rest, 2) / 4) as nat;
        let n = scopes + (at16(rest, 4) / 4) as nat;
        let body = rest.skip(6);
        if at16(rest, 0) == 0 || body.len() < 4 * n {
            None
        } else {
            Some(
                (
                    TemplateDef {
                        id: at16(rest, 0),
                        kind: TemplateKind::Options,
                        fields: v9_fields(body, scopes, n),
                        scope_field_count: scopes as u16,
                    },
                    body.skip(4 * n as int),
                ),
            )
        }
    }
}

/// The templates of an Options Template FlowSet body, up to the first that is not
/// whole or to the padding.
pub open spec fn v9_options_templates(rest: Seq<u8>) -> Seq<TemplateDef>
    decreases rest.len(),
{
    match v9_options_template(rest) {
        Some((def, after)) => if after.len() < rest.len() && !zero_tail(after) {
            seq![def] + v9_options_templates(after)
        } else {
            seq![def]
        },
        None => Seq::empty(),
    }
}

/// The templates of a FlowSet.
pub open spec fn v9_set_templates(set: SetView) -> Seq<TemplateDef> {
    if set.id == 0 {
        v9_templates(set.body)
    } else if set.id == 1 {
        v9_options_templates(set.body)
    } else {
        Seq::empty()
    }
}

/// The templates of all FlowSets, in order.
pub open spec fn v9_defs(sets: Seq<SetView>) -> Seq<TemplateDef>
    decreases sets.len(),
{
    if sets.len() == 0 {
        Seq::empty()
    } else {
        v9_set_templates(sets[0]) + v9_defs(sets.drop_first())
    }
}

/// The header context of a v9 datagram.
pub open spec fn v9_ctx(exporter: Seq<char>, obs_domain: u32, hdr: ExportHeader) -> CtxView {
    CtxView {
        exporter,
        obs_domain,
        version: "9"@,
        export_time: hdr.export_time,
        sequence: hdr.sequence,
        sys_uptime_ms: match hdr.sys_uptime {
            Some(u) => Some(u as u64),
            None => None,
        },
        template_id: 0,
    }
}

/// The rows of a v9 datagram and the cache after it: every template of the
/// datagram is learned first, so that data resolves even if its template follows
/// it in the same datagram.
pub open spec fn v9_outcome(
    data: Seq<u8>,
    exporter: Seq<char>,
    over: Option<u32>,
    cache: CacheView,
    now: i64,
    flows_only: bool,
) -> (Seq<FlowView>, CacheView) {
    match header_of(data) {
        None => (
            seq![diagnostic_row(exporter, "9"@, 0, None, None, "decode-error:bad-v9-header"@)],
            cache,
        ),
        Some(hdr) => {
            let obs_domain = domain_of(over, hdr);
            match sets_of(after_header(data, 20)) {
                None => (
                    seq![
                        diagnostic_row(
                            exporter,
                            "9"@,
                            obs_domain,
                            hdr.export_time,
                            hdr.sequence,
                            "set-length-overrun"@,
                        ),
                    ],
                    cache,
                ),
                Some(sets) => sets_outcome(
                    learned(cache, v9_defs(sets), exporter, obs_domain, now),
                    sets,
                    v9_ctx(exporter, obs_domain, hdr),
                    now,
                    flows_only,
                ),
            }
        },
    }
}

/// Decode a NetFlow v9 datagram. Upserts templates into `cache`, decodes data
/// records against cached layouts, and buffers data that precedes its template.
pub fn decode(
    data: &[u8],
    exporter: &str,
    obs_override: Option<u32>,
    cache: &mut TemplateCache,
    now: i64,
    mode_flows_only: bool,
) -> (r: Vec<FlowRecord>)
    requires
        old(cache).wf(),
    ensures
        final(cache).wf(),
        (views(r@), final(cache)@) == v9_outcome(
            data@,
            exporter@,
            obs_override,
            old(cache)@,
            now,
            mode_flows_only,
        ),
{
    let hdr = match parse_header(data) {
        Some(h) => h,
        None => {
            return one_row(
                FlowRecord::diagnostic(
                    exporter,
                    "9",
                    0,
                    None,
                    None,
                    "decode-error:bad-v9-header".to_string(),
                ),
            );
        },
    };
    let obs_domain: u32 = pick_domain(obs_override, &hdr);
    let ctx_base = Ctx {
        exporter: exporter.to_string(),
        obs_domain,
        version: "9",
        export_time: hdr.export_time,
        sequence: hdr.sequence,
        sys_uptime_ms: match hdr.sys_uptime {
            Some(u) => Some(u as u64),
            None => None,
        },
        template_id: 0,
    };
    let start: usize = if data.len() < 20 {
        data.len()
    } else {
        20
    };
    let region = slice_subrange(data, start, data.len());
    assert(region@ =~= after_header(data@, 20));
    let flowsets = match split_flowsets(region) {
        Ok(fs) => fs,
        Err(diag) => {
            return one_row(
                FlowRecord::diagnostic(
                    exporter,
                    "9",
                    obs_domain,
                    hdr.export_time,
                    hdr.sequence,
                    diag,
                ),
            );
        },
    };
    // Pass 1: learn every template in this datagram.
    learn_flowsets(&flowsets, exporter, obs_domain, now, cache);
    // Pass 2: decode data sets.
    decode_sets(&flowsets, &ctx_base, cache, now, mode_flows_only)
}

/// Learn every template among FlowSets.
fn learn_flowsets(
    sets: &Vec<RawSet>,
    exporter: &str,
    obs_domain: u32,
    now: i64,
    cache: &mut TemplateCache,
)
    requires
        old(cache).wf(),
    ensures
        final(cache).wf(),
        final(cache)@ == learned(
            old(cache)@,
            v9_defs(views(sets@)),
            exporter@,
            obs_domain,
            now,
        ),
{
    let ghost all = views(sets@);
    let mut i: usize = 0;
    assert(all.skip(0) =~= all);
    while i < sets.len()
        invariant
            cache.wf(),
            all == views(sets@),
            i <= sets@.len(),
            learned(cache@, v9_defs(all.skip(i as int)), exporter@, obs_domain, now) == learned(
                old(cache)@,
                v9_defs(all),
                exporter@,
                obs_domain,
                now,
            ),
        decreases sets.len() - i,
    {
        let set = &sets[i];
        proof {
            assert(all.skip(i as int).drop_first() =~= all.skip(i + 1));
            assert(all.skip(i as int)[0] == set@);
            lemma_learned_add(
                cache@,
                v9_set_templates(set@),
                v9_defs(all.skip(i + 1)),
                exporter@,
                obs_domain,
                now,
            );
        }
        if set.id == 0 {
            parse_templates(set.body, exporter, obs_domain, now, cache);
        } else if set.id == 1 {
            parse_options_templates(set.body, exporter, obs_domain, now, cache);
        }
        i = i + 1;
    }
    assert(all.skip(i as int) =~= Seq::<SetView>::empty());
}

/// Split a FlowSet region into `{id, body}` entries, validating each length
/// against the remaining buffer (a hostile length never over-reads).
fn split_flowsets<'a>(region: &'a [u8]) -> (r: Result<Vec<RawSet<'a>>, String>)
    ensures
        match r {
            Ok(sets) => sets_of(region@) == Some(views(sets@)),
            Err(diag) => sets_of(region@) is None && diag@ == "set-length-overrun"@,
        },
{
    match split_region(region) {
        Some(sets) => Ok(sets),
        None => Err("set-length-overrun".to_string()),
    }
}

/// Read up to `n` field specifiers, the first `scopes` of them scope fields;
/// `None` if they are not all there.
fn read_fields(c: &mut Cursor, scopes: usize, n: usize) -> (r: Option<Vec<FieldSpec>>)
    requires
        old(c).wf(),
        n <= 0x1_0000,
    ensures
        final(c).wf(),
        match r {
            Some(fields) => {
                &&& 4 * n <= old(c)@.len()
                &&& views(fields@) == v9_fields(old(c)@, scopes as nat, n as nat)
                &&& final(c)@ == old(c)@.skip(4 * n)
            },
            None => old(c)@.len() < 4 * n,
        },
{
    let ghost b = c@;
    let mut fields: Vec<FieldSpec> = Vec::new();
    let mut i: usize = 0;
    assert(views(fields@) =~= v9_fields(b, scopes as nat, 0));
    assert(b.skip(0) =~= b);
    while i < n
        invariant
            c.wf(),
            b == old(c)@,
            n <= 0x1_0000,
            i <= n,
            4 * i <= b.len(),
            c@ == b.skip(4 * i),
            views(fields@) == v9_fields(b, scopes as nat, i as nat),
        decreases n - i,
    {
        let ty: u16 = match c.u16() {
            Some(v) => v,
            None => {
                return None;
            },
        };
        let len: u16 = match c.u16() {
            Some(v) => v,
            None => {
                return None;
            },
        };
        let f = if i < scopes {
            let mut name = "scope_".to_string();
            name.append(scope_name(ty));
            FieldSpec {
                ie_id: ty,
                enterprise_number: SCOPE_PEN,
                length: len,
                name,
                ie_type: "octetArray".to_string(),
            }
        } else {
            field_spec(0, ty, len)
        };
        proof {
            assert(v9_fields(b, scopes as nat, (i + 1) as nat) =~= v9_fields(
                b,
                scopes as nat,
                i as nat,
            ).push(f@));
        }
        fields.push(f);
        i = i + 1;
    }
    Some(fields)
}

/// Parse a Template FlowSet body (one or more templates) and upsert each.
fn parse_templates(
    body: &[u8],
    exporter: &str,
    obs_domain: u32,
    now: i64,
    cache: &mut TemplateCache,
)
    requires
        old(cache).wf(),
    ensures
        final(cache).wf(),
        final(cache)@ == learned(
            old(cache)@,
            v9_templates(body@),
            exporter@,
            obs_domain,
            now,
        ),
{
    let mut c = Cursor::new(body);
    let ghost want = learned(old(cache)@, v9_templates(body@), exporter@, obs_domain, now);
    loop
        invariant_except_break
            learned(cache@, v9_templates(c@), exporter@, obs_domain, now) == want,
        invariant
            cache.wf(),
            c.wf(),
        ensures
            cache@ == want,
        decreases c@.len(),
    {
        let ghost rest = c@;
        let (template_id, field_count) = match (c.u16(), c.u16()) {
            (Some(a), Some(b)) => (a, b),
            _ => {
                break;
            },
        };
        let fields = match read_fields(&mut c, 0, field_count as usize) {
            Some(f) => f,
            None => {
                break;
            },
        };
        if template_id == 0 {
            break;
        }
        proof {
            let def = (v9_template(rest)->0).0;
            assert(v9_templates(rest) =~= seq![def] + v9_templates(c@));
            assert(v9_templates(rest).drop_first() =~= v9_templates(c@));
        }
        learn_one(cache, exporter, obs_domain, now, template_id, TemplateKind::Data, fields, 0);
    }
}

/// Parse an Options Template FlowSet body (RFC 3954 §6.2).
fn parse_options_templates(
    body: &[u8],
    exporter: &str,
    obs_domain: u32,
    now: i64,
    cache: &mut TemplateCache,
)
    requires
        old(cache).wf(),
    ensures
        final(cache).wf(),
        final(cache)@ == learned(
            old(cache)@,
            v9_options_templates(body@),
            exporter@,
            obs_domain,
            now,
        ),
{
    let mut c = Cursor::new(body);
    let ghost want = learned(
        old(cache)@,
        v9_options_templates(body@),
        exporter@,
        obs_domain,
        now,
    );
    loop
        invariant_except_break
            learned(cache@, v9_options_templates(c@), exporter@, obs_domain, now) == want,
        invariant
            cache.wf(),
            c.wf(),
        ensures
            cache@ == want,
        decreases c@.len(),
    {
        let ghost rest = c@;
        if c.remaining() < 6 {
            break;
        }
        let (template_id, scope_len, option_len) = match (c.u16(), c.u16(), c.u16()) {
            (Some(a), Some(b), Some(d)) => (a, b, d),
            _ => {
                break;
            },
        };
        let scope_count: usize = (scope_len / 4) as usize;
        let option_count: usize = (option_len / 4) as usize;
        let fields = match read_fields(&mut c, scope_count, scope_count + option_count) {
            Some(f) => f,
            None => {
                break;
            },
        };
        if template_id == 0 {
            break;
        }
        let ghost def = (v9_options_template(rest)->0).0;
        learn_one(
            cache,
            exporter,
            obs_domain,
            now,
            template_id,
            TemplateKind::Options,
            fields,
            scope_len / 4,
        );
        // Options Template FlowSets are commonly padded; stop on an all-zero tail.
        if at_zero_tail(&c) {
            proof {
                let defs = v9_options_templates(rest);
                assert(defs =~= seq![def]);
                assert(defs.drop_first() =~= Seq::<TemplateDef>::empty());
                assert(learned(cache@, defs.drop_first(), exporter@, obs_domain, now) == cache@);
            }
            break;
        }
        proof {
            assert(v9_options_templates(rest).drop_first() =~= v9_options_templates(c@));
        }
    }
}

fn scope_name(ty: u16) -> (r: &'static str)
    ensures
        r@ == scope_text(ty),
{
    match ty {
        1 => "system",
        2 => "interface",
        3 => "linecard",
        4 => "cache",
        5 => "template",
        _ => "other",
    }
}

} // verus!
