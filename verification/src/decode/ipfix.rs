//! IPFIX (RFC 7011, version 10): 16-byte header + a sequence of Sets: id 2 =
//! Template, id 3 = Options Template, id ≥ 256 = Data. Adds variable-length
//! elements (`0xFFFF` marker) and enterprise elements (high bit of the element id
//! set, then a 4-byte Private Enterprise Number follows).

use vstd::prelude::*;
use vstd::slice::slice_subrange;

use crate::buf::{front16, front32, Cursor};
use crate::cache::{CacheView, FieldSpec, FieldView, TemplateCache, TemplateKind};
use crate::decode::header::{header_of, parse_header, ExportHeader};
use crate::decode::record::{field_of, field_spec, Ctx, CtxView};
use crate::decode::sets::{
    after_header, at_zero_tail, decode_sets, domain_of, learn_one, learned, lemma_learned_add,
    one_row, pick_domain, sets_of, sets_outcome, split_region, zero_tail, RawSet, SetView,
    TemplateDef,
};
use crate::normalize::{diagnostic_row, FlowRecord, FlowView};
use crate::text::views;

verus! {

broadcast use crate::text::lemma_views_push;

/// The field specifier at the front and what follows it: element id, length, and
/// where the id's high bit is set, the enterprise number.
pub open spec fn ipfix_field(rest: Seq<u8>) -> Option<(FieldView, Seq<u8>)> {
    let raw = front16(rest);
    let length = front16(rest.skip(2));
    let after = rest.skip(2).skip(2);
    if rest.len() < 4 {
        None
    } else if raw < 0x8000 {
        Some((field_of(0, raw, length), after))
    } else if after.len() < 4 {
        None
    } else {
        Some((field_of(front32(after), (raw - 0x8000) as u16, length), after.skip(4)))
    }
}

/// The first `n` field specifiers and what follows them.
pub open spec fn ipfix_fields(rest: Seq<u8>, n: nat) -> Option<(Seq<FieldView>, Seq<u8>)>
    decreases n,
{
    if n == 0 {
        Some((Seq::empty(), rest))
    } else {
        match ipfix_fields(rest, (n - 1) as nat) {
            Some((fields, mid)) => match ipfix_field(mid) {
                Some((f, after)) => Some((fields.push(f), after)),
                None => None,
            },
            None => None,
        }
    }
}

/// The template at the front of a (possibly Options) Template Set body and what
/// follows it: template id, field count, for options the scope field count, and
/// the field specifiers. A template id or field count of 0 is a withdrawal or
/// padding.
pub open spec fn ipfix_template(rest: Seq<u8>, options: bool) -> Option<(TemplateDef, Seq<u8>)> {
    let id = front16(rest);
    let n = front16(rest.skip(2));
    let body = rest.skip(2).skip(2);
    if rest.len() < 4 || id == 0 || n == 0 || (options && body.len() < 2) {
        None
    } else {
        let specs = if options {
            body.skip(2)
        } else {
            body
        };
        match ipfix_fields(specs, n as nat) {
            Some((fields, after)) => Some(
                (
                    TemplateDef {
                        id,
                        kind: if options {
                            TemplateKind::Options
                        } else {
                            TemplateKind::Data
                        },
                        fields,
                        scope_field_count: if options {
                            front16(body)
                        } else {
                            0
                        },
                    },
                    after,
                ),
            ),
            None => None,
        }
    }
}

/// The templates of a (possibly Options) Template Set body, up to the first that
/// is not whole or to the padding.
pub open spec fn ipfix_templates(rest: Seq<u8>, options: bool) -> Seq<TemplateDef>
    decreases rest.len(),
{
    match ipfix_template(rest, options) {
        Some((def, after)) => if after.len() < rest.len() && !zero_tail(after) {
            seq![def] + ipfix_templates(after, options)
        } else {
            seq![def]
        },
        None => Seq::empty(),
    }
}

/// The templates of a Set.
pub open spec fn ipfix_set_templates(set: SetView) -> Seq<TemplateDef> {
    if set.id == 2 {
        ipfix_templates(set.body, false)
    } else if set.id == 3 {
        ipfix_templates(set.body, true)
    } else {
        Seq::empty()
    }
}

/// The templates of all Sets, in order.
pub open spec fn ipfix_defs(sets: Seq<SetView>) -> Seq<TemplateDef>
    decreases sets.len(),
{
    if sets.len() == 0 {
        Seq::empty()
    } else {
        ipfix_set_templates(sets[0]) + ipfix_defs(sets.drop_first())
    }
}

/// The header context of an IPFIX datagram: flow timestamps are absolute, so no
/// sysUptime goes with it.
pub open spec fn ipfix_ctx(exporter: Seq<char>, obs_domain: u32, hdr: ExportHeader) -> CtxView {
    CtxView {
        exporter,
        obs_domain,
        version: "10"@,
        export_time: hdr.export_time,
        sequence: hdr.sequence,
        sys_uptime_ms: None,
        template_id: 0,
    }
}

/// The rows of an IPFIX datagram and the cache after it: every template of the
/// datagram is learned first, so that data resolves even if its template follows
/// it in the same datagram.
pub open spec fn ipfix_outcome(
    data: Seq<u8>,
    exporter: Seq<char>,
    over: Option<u32>,
    cache: CacheView,
    now: i64,
    flows_only: bool,
) -> (Seq<FlowView>, CacheView) {
    match header_of(data) {
        None => (
            seq![diagnostic_row(exporter, "10"@, 0, None, None, "decode-error:bad-ipfix-header"@)],
            cache,
        ),
        Some(hdr) => {
            let obs_domain = domain_of(over, hdr);
            match sets_of(after_header(data, 16)) {
                None => (
                    seq![
                        diagnostic_row(
                            exporter,
                            "10"@,
                            obs_domain,
                            hdr.export_time,
                            hdr.sequence,
                            "bad-ipfix-set"@,
                        ),
                    ],
                    cache,
                ),
                Some(sets) => sets_outcome(
                    learned(cache, ipfix_defs(sets), exporter, obs_domain, now),
                    sets,
                    ipfix_ctx(exporter, obs_domain, hdr),
                    now,
                    flows_only,
                ),
            }
        },
    }
}

/// Decode an IPFIX datagram. Upserts templates/options templates into `cache`,
/// decodes data sets against cached layouts, and buffers data preceding its
/// template for cross-batch retry.
pub fn decode(
    data: &[u8],
    exporter: &str,
    obs_override: Option<u32>,
    cache: &mut TemplateCache,
    now: i64,
    mode_flows_only: bool,
) -> (r: Vec<FlowRecord>)
    requires
        old(cache).wf(),
    ensures
        final(cache).wf(),
        (views(r@), final(cache)@) == ipfix_outcome(
            data@,
            exporter@,
            obs_override,
            old(cache)@,
            now,
            mode_flows_only,
        ),
{
    let hdr = match parse_header(data) {
        Some(h) => h,
        None => {
            return one_row(
                FlowRecord::diagnostic(
                    exporter,
                    "10",
                    0,
                    None,
                    None,
                    "decode-error:bad-ipfix-header".to_string(),
                ),
            );
        },
    };
    let obs_domain: u32 = pick_domain(obs_override, &hdr);
    let ctx_base = Ctx {
        exporter: exporter.to_string(),
        obs_domain,
        version: "10",
        export_time: hdr.export_time,
        sequence: hdr.sequence,
        sys_uptime_ms: None,
        template_id: 0,
    };
    let start: usize = if data.len() < 16 {
        data.len()
    } else {
        16
    };
    let region = slice_subrange(data, start, data.len());
    assert(region@ =~= after_header(data@, 16));
    let sets = match split_sets(region) {
        Ok(s) => s,
        Err(diag) => {
            return one_row(
                FlowRecord::diagnostic(
                    exporter,
                    "10",
                    obs_domain,
                    hdr.export_time,
                    hdr.sequence,
                    diag,
                ),
            );
        },
    };
    // Pass 1: learn templates.
    learn_sets(&sets, exporter, obs_domain, now, cache);
    // Pass 2: decode data sets.
    decode_sets(&sets, &ctx_base, cache, now, mode_flows_only)
}

/// Learn every template among Sets.
fn learn_sets(
    sets: &Vec<RawSet>,
    exporter: &str,
    obs_domain: u32,
    now: i64,
    cache: &mut TemplateCache,
)
    requires
        old(cache).wf(),
    ensures
        final(cache).wf(),
        final(cache)@ == learned(
            old(cache)@,
            ipfix_defs(views(sets@)),
            exporter@,
            obs_domain,
            now,
        ),
{
    let ghost all = views(sets@);
    let mut i: usize = 0;
    assert(all.skip(0) =~= all);
    while i < sets.len()
        invariant
            cache.wf(),
            all == views(sets@),
            i <= sets@.len(),
            learned(cache@, ipfix_defs(all.skip(i as int)), exporter@, obs_domain, now) == learned(
                old(cache)@,
                ipfix_defs(all),
                exporter@,
                obs_domain,
                now,
            ),
        decreases sets.len() - i,
    {
        let set = &sets[i];
        proof {
            assert(all.skip(i as int).drop_first() =~= all.skip(i + 1));
            assert(all.skip(i as int)[0] == set@);
            lemma_learned_add(
                cache@,
                ipfix_set_templates(set@),
                ipfix_defs(all.skip(i + 1)),
                exporter@,
                obs_domain,
                now,
            );
        }
        if set.id == 2 {
            parse_templates(set.body, exporter, obs_domain, now, false, cache);
        } else if set.id == 3 {
            parse_templates(set.body, exporter, obs_domain, now, true, cache);
        }
        i = i + 1;
    }
    assert(all.skip(i as int) =~= Seq::<SetView>::empty());
}

/// Split a Set region into `{id, body}`, validating each declared length against
/// the remaining buffer (a length out of range is rejected as `bad-ipfix-set`).
fn split_sets<'a>(region: &'a [u8]) -> (r: Result<Vec<RawSet<'a>>, String>)
    ensures
        match r {
            Ok(sets) => sets_of(region@) == Some(views(sets@)),
            Err(diag) => sets_of(region@) is None && diag@ == "bad-ipfix-set"@,
        },
{
    match split_region(region) {
        Some(sets) => Ok(sets),
        None => Err("bad-ipfix-set".to_string()),
    }
}

/// Read one field specifier; `None` if it is not all there.
fn read_field(c: &mut Cursor) -> (r: Option<FieldSpec>)
    requires
        old(c).wf(),
    ensures
        final(c).wf(),
        match r {
            Some(f) => ipfix_field(old(c)@) == Some((f@, final(c)@)),
            None => ipfix_field(old(c)@) is None,
        },
{
    let raw_id: u16 = c.u16()?;
    let length: u16 = c.u16()?;
    if raw_id >= 0x8000 {
        let pen: u32 = c.u32()?;
        Some(field_spec(pen, raw_id - 0x8000, length))
    } else {
        Some(field_spec(0, raw_id, length))
    }
}

/// Nothing is read past a specifier that is not there.
proof fn lemma_fields_stuck(rest: Seq<u8>, n: nat, m: nat)
    requires
        n <= m,
        ipfix_fields(rest, n) is None,
    ensures
        ipfix_fields(rest, m) is None,
    decreases m,
{
    if n < m {
        lemma_fields_stuck(rest, n, (m - 1) as nat);
    }
}

/// Specifiers take bytes off the front.
proof fn lemma_fields_shrink(rest: Seq<u8>, n: nat)
    ensures
        ipfix_fields(rest, n) matches Some((fields, after)) ==> after.len() + 4 * n <= rest.len()
            && fields.len() == n,
    decreases n,
{
    if n > 0 {
        lemma_fields_shrink(rest, (n - 1) as nat);
    }
}

/// Read `n` field specifiers; `None` if they are not all there.
fn read_fields(c: &mut Cursor, n: u16) -> (r: Option<Vec<FieldSpec>>)
    requires
        old(c).wf(),
    ensures
        final(c).wf(),
        match r {
            Some(fields) => ipfix_fields(old(c)@, n as nat) == Some((views(fields@), final(c)@)),
            None => ipfix_fields(old(c)@, n as nat) is None,
        },
{
    let mut fields: Vec<FieldSpec> = Vec::new();
    let mut i: u16 = 0;
    assert(views(fields@) =~= Seq::<FieldView>::empty());
    while i < n
        invariant
            c.wf(),
            i <= n,
            ipfix_fields(old(c)@, i as nat) == Some((views(fields@), c@)),
        decreases n - i,
    {
        match read_field(c) {
            Some(f) => {
                fields.push(f);
            },
            None => {
                proof {
                    lemma_fields_stuck(old(c)@, (i + 1) as nat, n as nat);
                }
                return None;
            },
        }
        i = i + 1;
    }
    Some(fields)
}

/// Parse a (possibly Options) Template Set body, upserting each template.
fn parse_templates(
    body: &[u8],
    exporter: &str,
    obs_domain: u32,
    now: i64,
    options: bool,
    cache: &mut TemplateCache,
)
    requires
        old(cache).wf(),
    ensures
        final(cache).wf(),
        final(cache)@ == learned(
            old(cache)@,
            ipfix_templates(body@, options),
            exporter@,
            obs_domain,
            now,
        ),
{
    let mut c = Cursor::new(body);
    let ghost want = learned(
        old(cache)@,
        ipfix_templates(body@, options),
        exporter@,
        obs_domain,
        now,
    );
    loop
        invariant_except_break
            learned(cache@, ipfix_templates(c@, options), exporter@, obs_domain, now) == want,
        invariant
            cache.wf(),
            c.wf(),
        ensures
            cache@ == want,
        decreases c@.len(),
    {
        let ghost rest = c@;
        let (template_id, field_count) = match (c.u16(), c.u16()) {
            (Some(a), Some(b)) => (a, b),
            _ => {
                break;
            },
        };
        if template_id == 0 || field_count == 0 {
            // Withdrawal templates (field_count == 0) are skipped; padding tail.
            break;
        }
        let scope_field_count: u16 = if options {
            match c.u16() {
                Some(v) => v,
                None => {
                    break;
                },
            }
        } else {
            0
        };
        let ghost specs = c@;
        let fields = match read_fields(&mut c, field_count) {
            Some(f) => f,
            None => {
                break;
            },
        };
        let ghost def = (ipfix_template(rest, options)->0).0;
        proof {
            lemma_fields_shrink(specs, field_count as nat);
        }
        learn_one(
            cache,
            exporter,
            obs_domain,
            now,
            template_id,
            if options {
                TemplateKind::Options
            } else {
                TemplateKind::Data
            },
            fields,
            scope_field_count,
        );
        // Stop on an all-zero padding tail.
        if at_zero_tail(&c) {
            proof {
                let defs = ipfix_templates(rest, options);
                assert(defs =~= seq![def]);
                assert(defs.drop_first() =~= Seq::<TemplateDef>::empty());
                assert(learned(cache@, defs.drop_first(), exporter@, obs_domain, now) == cache@);
            }
            break;
        }
        proof {
            assert(ipfix_templates(rest, options).drop_first() =~= ipfix_templates(c@, options));
        }
    }
}

} // verus!
