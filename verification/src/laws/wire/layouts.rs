//! Sets and templates of NetFlow v9 and IPFIX on the wire.

use vstd::prelude::*;

use crate::buf::at16;
use crate::cache::{FieldView, TemplateKind};
use crate::decode::ipfix::{
    ipfix_field, ipfix_fields, ipfix_set_templates, ipfix_template, ipfix_templates,
};
use crate::decode::record::field_of;
use crate::decode::sets::{sets_of, SetView, TemplateDef};
use crate::decode::v9::{
    scope_field, v9_fields, v9_options_template, v9_options_templates, v9_set_templates,
    v9_template, v9_templates,
};
use crate::laws::wire::{lemma_at16, lemma_front16, lemma_front32, w16, w32};

verus! {

/// A field specifier of IPFIX: the element, whose it is, and how many bytes it takes.
pub struct Element {
    /// The enterprise that defined it; none for a standard element.
    pub enterprise: Option<u32>,
    pub id: u16,
    pub length: u16,
}

/// A template of IPFIX.
pub struct Layout {
    pub id: u16,
    pub elements: Seq<Element>,
    /// How many elements come first as scope; it is written for options only.
    pub scopes: u16,
}

/// A field specifier on the wire: the highest bit of the id marks an enterprise, whose
/// number follows.
pub open spec fn element_bytes(e: Element) -> Seq<u8> {
    match e.enterprise {
        None => w16(e.id) + w16(e.length),
        Some(pen) => w16((e.id + 32_768) as u16) + w16(e.length) + w32(pen),
    }
}

/// Field specifiers, one after another.
pub open spec fn elements_bytes(es: Seq<Element>) -> Seq<u8>
    decreases es.len(),
{
    if es.len() == 0 {
        Seq::empty()
    } else {
        elements_bytes(es.drop_last()) + element_bytes(es.last())
    }
}

/// A template on the wire.
pub open spec fn layout_bytes(l: Layout, options: bool) -> Seq<u8> {
    w16(l.id) + w16(l.elements.len() as u16) + (if options {
        w16(l.scopes)
    } else {
        Seq::empty()
    }) + elements_bytes(l.elements)
}

/// Templates, one after another.
pub open spec fn layouts_bytes(ls: Seq<Layout>, options: bool) -> Seq<u8>
    decreases ls.len(),
{
    if ls.len() == 0 {
        Seq::empty()
    } else {
        layout_bytes(ls[0], options) + layouts_bytes(ls.drop_first(), options)
    }
}

/// Bytes that are all zero.
pub open spec fn zeros(b: Seq<u8>) -> bool {
    forall|i: int| 0 <= i < b.len() ==> #[trigger] b[i] == 0
}

/// A template that can be written: its id is not zero, it has a field, and every id
/// leaves the highest bit free.
pub open spec fn writable(l: Layout) -> bool {
    &&& l.id != 0
    &&& 0 < l.elements.len() <= 65_535
    &&& forall|i: int| 0 <= i < l.elements.len() ==> (#[trigger] l.elements[i]).id < 32_768
}

/// Templates that can all be written.
pub open spec fn all_writable(ls: Seq<Layout>) -> bool {
    forall|i: int| 0 <= i < ls.len() ==> writable(#[trigger] ls[i])
}

/// A field that was understood as it was written.
pub open spec fn tells(f: FieldView, e: Element) -> bool {
    &&& f.ie_id == e.id
    &&& f.enterprise_number == match e.enterprise {
        Some(pen) => pen,
        None => 0,
    }
    &&& f.length == e.length
}

/// A template that was understood as it was written: id, kind, every field in order,
/// and the number of scope fields.
pub open spec fn tells_layout(d: TemplateDef, l: Layout, options: bool) -> bool {
    &&& d.id == l.id
    &&& d.kind == if options {
        TemplateKind::Options
    } else {
        TemplateKind::Data
    }
    &&& d.scope_field_count == if options {
        l.scopes
    } else {
        0
    }
    &&& d.fields.len() == l.elements.len()
    &&& forall|i: int| 0 <= i < d.fields.len() ==> tells(#[trigger] d.fields[i], l.elements[i])
}

/// The field of an element.
pub open spec fn element_field(e: Element) -> FieldView {
    field_of(
        match e.enterprise {
            Some(pen) => pen,
            None => 0,
        },
        e.id,
        e.length,
    )
}

/// The template of a layout.
pub open spec fn layout_def(l: Layout, options: bool) -> TemplateDef {
    TemplateDef {
        id: l.id,
        kind: if options {
            TemplateKind::Options
        } else {
            TemplateKind::Data
        },
        fields: Seq::new(l.elements.len(), |i: int| element_field(l.elements[i])),
        scope_field_count: if options {
            l.scopes
        } else {
            0
        },
    }
}

/// One field specifier reads back.
proof fn lemma_element(e: Element, rest: Seq<u8>)
    requires
        e.id < 32_768,
    ensures
        ipfix_field(element_bytes(e) + rest) == Some((element_field(e), rest)),
{
    let s = element_bytes(e) + rest;
    match e.enterprise {
        None => {
            assert(s =~= w16(e.id) + (w16(e.length) + rest));
            lemma_front16(e.id, w16(e.length) + rest);
            lemma_front16(e.length, rest);
        },
        Some(pen) => {
            let raw = (e.id + 32_768) as u16;
            assert(s =~= w16(raw) + (w16(e.length) + (w32(pen) + rest)));
            lemma_front16(raw, w16(e.length) + (w32(pen) + rest));
            lemma_front16(e.length, w32(pen) + rest);
            lemma_front32(pen, rest);
        },
    }
}

/// Field specifiers read back.
proof fn lemma_elements(es: Seq<Element>, rest: Seq<u8>)
    requires
        forall|i: int| 0 <= i < es.len() ==> (#[trigger] es[i]).id < 32_768,
    ensures
        ipfix_fields(elements_bytes(es) + rest, es.len()) == Some(
            (Seq::new(es.len(), |i: int| element_field(es[i])), rest),
        ),
    decreases es.len(),
{
    let s = elements_bytes(es) + rest;
    let want = Seq::new(es.len(), |i: int| element_field(es[i]));
    if es.len() == 0 {
        assert(s =~= rest);
        assert(want =~= Seq::<FieldView>::empty());
    } else {
        let most = es.drop_last();
        let mid = element_bytes(es.last()) + rest;
        assert forall|i: int| 0 <= i < most.len() implies (#[trigger] most[i]).id < 32_768 by {
            assert(most[i] == es[i]);
        }
        assert(es[es.len() - 1].id < 32_768);
        lemma_elements(most, mid);
        assert(s =~= elements_bytes(most) + mid);
        lemma_element(es.last(), rest);
        assert(Seq::new(most.len(), |i: int| element_field(most[i])).push(element_field(es.last()))
            =~= want);
    }
}

/// One template reads back.
proof fn lemma_layout(l: Layout, options: bool, rest: Seq<u8>)
    requires
        writable(l),
    ensures
        ipfix_template(layout_bytes(l, options) + rest, options) == Some(
            (layout_def(l, options), rest),
        ),
        layout_bytes(l, options).len() >= 4,
        w16(l.id) == layout_bytes(l, options).take(2),
{
    let s = layout_bytes(l, options) + rest;
    let n = l.elements.len() as u16;
    let specs = elements_bytes(l.elements) + rest;
    let body = if options {
        w16(l.scopes) + specs
    } else {
        specs
    };
    assert(s =~= w16(l.id) + (w16(n) + body));
    assert(layout_bytes(l, options).take(2) =~= w16(l.id));
    lemma_front16(l.id, w16(n) + body);
    lemma_front16(n, body);
    if options {
        lemma_front16(l.scopes, specs);
    }
    lemma_elements(l.elements, specs.skip(elements_bytes(l.elements).len() as int));
    assert(specs.skip(elements_bytes(l.elements).len() as int) =~= rest);
}

/// Templates and padding read back as the templates.
#[verifier::rlimit(40)]
pub proof fn lemma_layouts(ls: Seq<Layout>, options: bool, pad: Seq<u8>)
    requires
        all_writable(ls),
        zeros(pad),
    ensures
        ipfix_templates(layouts_bytes(ls, options) + pad, options) == Seq::new(
            ls.len(),
            |i: int| layout_def(ls[i], options),
        ),
    decreases ls.len(),
{
    let s = layouts_bytes(ls, options) + pad;
    let want = Seq::new(ls.len(), |i: int| layout_def(ls[i], options));
    if ls.len() == 0 {
        assert(s =~= pad);
        if pad.len() >= 4 {
            assert(pad[0] == 0 && pad[1] == 0);
            assert(w16(0)[0] == 0 && w16(0)[1] == 0);
            lemma_at16(pad, 0, 0);
            assert(pad.take(2) =~= pad.subrange(0, 2));
        }
        assert(want =~= Seq::<TemplateDef>::empty());
    } else {
        let tail = ls.drop_first();
        let rest = layouts_bytes(tail, options) + pad;
        assert(writable(ls[0]));
        assert forall|i: int| 0 <= i < tail.len() implies writable(#[trigger] tail[i]) by {
            assert(tail[i] == ls[i + 1]);
        }
        lemma_layout(ls[0], options, rest);
        lemma_layouts(tail, options, pad);
        assert(s =~= layout_bytes(ls[0], options) + rest);
        if tail.len() > 0 {
            assert(writable(tail[0]));
            lemma_layout(tail[0], options, Seq::empty());
            let next = layout_bytes(tail[0], options);
            assert(rest[0] == next[0] && rest[1] == next[1]);
            assert(next.take(2)[0] == next[0] && next.take(2)[1] == next[1]);
            assert(tail[0].id == (tail[0].id / 256) * 256 + tail[0].id % 256);
        } else {
            assert(rest =~= pad);
        }
        assert(seq![layout_def(ls[0], options)] + Seq::new(
            tail.len(),
            |i: int| layout_def(tail[i], options),
        ) =~= want);
        if tail.len() == 0 {
            assert(want =~= seq![layout_def(ls[0], options)]);
        }
    }
}

/// Every template that is written into an IPFIX Template Set (or Options Template Set)
/// is learned, in order, with every field as it was written and none besides, whatever
/// padding follows.
pub proof fn lemma_ipfix_templates_read_back(ls: Seq<Layout>, options: bool, pad: Seq<u8>)
    requires
        all_writable(ls),
        zeros(pad),
    ensures
        ({
            let set = SetView {
                id: if options {
                    3
                } else {
                    2
                },
                body: layouts_bytes(ls, options) + pad,
            };
            let found = ipfix_set_templates(set);
            &&& found.len() == ls.len()
            &&& forall|i: int|
                0 <= i < ls.len() ==> tells_layout(#[trigger] found[i], ls[i], options)
        }),
{
    lemma_layouts(ls, options, pad);
}

/// A field specifier of v9: type and length.
pub struct Plain {
    pub id: u16,
    pub length: u16,
}

/// v9 field specifiers, one after another.
pub open spec fn plains_bytes(ps: Seq<Plain>) -> Seq<u8>
    decreases ps.len(),
{
    if ps.len() == 0 {
        Seq::empty()
    } else {
        plains_bytes(ps.drop_last()) + (w16(ps.last().id) + w16(ps.last().length))
    }
}

/// A template of v9: for options, some scope fields come first.
pub struct Plan {
    pub id: u16,
    pub scopes: Seq<Plain>,
    pub fields: Seq<Plain>,
}

/// A v9 template on the wire: id, number of fields, fields.
pub open spec fn plan_bytes(p: Plan) -> Seq<u8> {
    w16(p.id) + w16(p.fields.len() as u16) + plains_bytes(p.fields)
}

/// A v9 options template on the wire: id, byte length of the scope fields, byte length
/// of the others, and both.
pub open spec fn options_plan_bytes(p: Plan) -> Seq<u8> {
    w16(p.id) + w16((4 * p.scopes.len()) as u16) + w16((4 * p.fields.len()) as u16) + plains_bytes(
        p.scopes,
    ) + plains_bytes(p.fields)
}

/// v9 templates, one after another.
pub open spec fn plans_bytes(ps: Seq<Plan>, options: bool) -> Seq<u8>
    decreases ps.len(),
{
    if ps.len() == 0 {
        Seq::empty()
    } else {
        (if options {
            options_plan_bytes(ps[0])
        } else {
            plan_bytes(ps[0])
        }) + plans_bytes(ps.drop_first(), options)
    }
}

/// A v9 template that can be written.
pub open spec fn plan_writable(p: Plan, options: bool) -> bool {
    &&& p.id != 0
    &&& if options {
        4 * p.scopes.len() <= 65_535 && 4 * p.fields.len() <= 65_535
    } else {
        p.scopes.len() == 0 && p.fields.len() <= 65_535
    }
}

/// v9 templates that can all be written.
pub open spec fn plans_writable(ps: Seq<Plan>, options: bool) -> bool {
    forall|i: int| 0 <= i < ps.len() ==> plan_writable(#[trigger] ps[i], options)
}

/// A v9 field that was understood as it was written. A scope field is marked by an
/// enterprise number that no enterprise has, so that it is not taken for the standard
/// element of its number, and is kept as bytes.
pub open spec fn tells_plain(f: FieldView, p: Plain, scope: bool) -> bool {
    &&& f.ie_id == p.id
    &&& f.length == p.length
    &&& f.enterprise_number == if scope {
        0xFFFF_FFFFu32
    } else {
        0
    }
    &&& scope ==> f.ie_type == "octetArray"@ && f.name == "scope_"@ + (if p.id == 1 {
        "system"@
    } else if p.id == 2 {
        "interface"@
    } else if p.id == 3 {
        "linecard"@
    } else if p.id == 4 {
        "cache"@
    } else if p.id == 5 {
        "template"@
    } else {
        "other"@
    })
}

/// A v9 template that was understood as it was written.
pub open spec fn tells_plan(d: TemplateDef, p: Plan, options: bool) -> bool {
    let n = p.scopes.len() as int;
    &&& d.id == p.id
    &&& d.kind == if options {
        TemplateKind::Options
    } else {
        TemplateKind::Data
    }
    &&& d.scope_field_count == n
    &&& d.fields.len() == n + p.fields.len()
    &&& forall|i: int|
        0 <= i < d.fields.len() ==> if i < n {
            tells_plain(#[trigger] d.fields[i], p.scopes[i], true)
        } else {
            tells_plain(d.fields[i], p.fields[i - n], false)
        }
}

/// v9 field specifiers stand four bytes apart.
pub proof fn lemma_plains(ps: Seq<Plain>, i: int)
    requires
        0 <= i < ps.len(),
    ensures
        plains_bytes(ps).len() == 4 * ps.len(),
        at16(plains_bytes(ps), 4 * i) == ps[i].id,
        at16(plains_bytes(ps), 4 * i + 2) == ps[i].length,
    decreases ps.len(),
{
    let most = ps.drop_last();
    let b = plains_bytes(ps);
    lemma_plains_len(ps);
    lemma_plains_len(most);
    if i == ps.len() - 1 {
        lemma_at16(b, 4 * i, ps[i].id);
        lemma_at16(b, 4 * i + 2, ps[i].length);
    } else {
        lemma_plains(most, i);
        let m = plains_bytes(most);
        assert(b.subrange(4 * i, 4 * i + 2) =~= m.subrange(4 * i, 4 * i + 2));
        assert(b.subrange(4 * i + 2, 4 * i + 4) =~= m.subrange(4 * i + 2, 4 * i + 4));
    }
}

/// v9 field specifiers take four bytes each.
pub proof fn lemma_plains_len(ps: Seq<Plain>)
    ensures
        plains_bytes(ps).len() == 4 * ps.len(),
    decreases ps.len(),
{
    if ps.len() > 0 {
        lemma_plains_len(ps.drop_last());
    }
}

/// The fields of a v9 template.
pub open spec fn plan_fields(p: Plan) -> Seq<FieldView> {
    Seq::new(
        p.scopes.len() + p.fields.len(),
        |i: int|
            if i < p.scopes.len() {
                scope_field(p.scopes[i].id, p.scopes[i].length)
            } else {
                field_of(
                    0,
                    p.fields[i - p.scopes.len()].id,
                    p.fields[i - p.scopes.len()].length,
                )
            },
    )
}

/// The template of a v9 plan.
pub open spec fn plan_def(p: Plan, options: bool) -> TemplateDef {
    TemplateDef {
        id: p.id,
        kind: if options {
            TemplateKind::Options
        } else {
            TemplateKind::Data
        },
        fields: plan_fields(p),
        scope_field_count: p.scopes.len() as u16,
    }
}

/// The field specifiers of a v9 template read back.
proof fn lemma_plan_fields(p: Plan, rest: Seq<u8>)
    ensures
        v9_fields(
            plains_bytes(p.scopes) + plains_bytes(p.fields) + rest,
            p.scopes.len(),
            p.scopes.len() + p.fields.len(),
        ) == plan_fields(p),
{
    let (a, b) = (plains_bytes(p.scopes), plains_bytes(p.fields));
    let s = a + b + rest;
    let n = p.scopes.len();
    let got = v9_fields(s, n, n + p.fields.len());
    lemma_plains_len(p.scopes);
    lemma_plains_len(p.fields);
    assert forall|i: int| 0 <= i < got.len() implies #[trigger] got[i] == plan_fields(p)[i] by {
        if i < n {
            lemma_plains(p.scopes, i);
            assert(s.subrange(4 * i, 4 * i + 2) =~= a.subrange(4 * i, 4 * i + 2));
            assert(s.subrange(4 * i + 2, 4 * i + 2 + 2) =~= a.subrange(4 * i + 2, 4 * i + 2 + 2));
        } else {
            let j = i - n;
            lemma_plains(p.fields, j);
            assert(s.subrange(4 * i, 4 * i + 2) =~= b.subrange(4 * j, 4 * j + 2));
            assert(s.subrange(4 * i + 2, 4 * i + 2 + 2) =~= b.subrange(4 * j + 2, 4 * j + 2 + 2));
        }
    }
    assert(got =~= plan_fields(p));
}

/// One v9 template reads back.
proof fn lemma_plan(p: Plan, rest: Seq<u8>)
    requires
        plan_writable(p, false),
    ensures
        v9_template(plan_bytes(p) + rest) == Some((plan_def(p, false), rest)),
        plan_bytes(p).len() >= 4,
{
    let s = plan_bytes(p) + rest;
    let n = p.fields.len() as u16;
    let body = plains_bytes(p.fields) + rest;
    lemma_plains_len(p.fields);
    lemma_at16(s, 0, p.id);
    lemma_at16(s, 2, n);
    assert(s.skip(4) =~= body);
    assert(body =~= plains_bytes(p.scopes) + plains_bytes(p.fields) + rest);
    lemma_plan_fields(p, rest);
    assert(body.skip(4 * n as int) =~= rest);
}

/// One v9 options template reads back.
proof fn lemma_options_plan(p: Plan, rest: Seq<u8>)
    requires
        plan_writable(p, true),
    ensures
        v9_options_template(options_plan_bytes(p) + rest) == Some((plan_def(p, true), rest)),
        options_plan_bytes(p).len() >= 6,
        at16(options_plan_bytes(p), 0) == p.id,
{
    let s = options_plan_bytes(p) + rest;
    let (a, b) = ((4 * p.scopes.len()) as u16, (4 * p.fields.len()) as u16);
    let body = plains_bytes(p.scopes) + plains_bytes(p.fields) + rest;
    lemma_plains_len(p.scopes);
    lemma_plains_len(p.fields);
    lemma_at16(s, 0, p.id);
    lemma_at16(s, 2, a);
    lemma_at16(s, 4, b);
    lemma_at16(options_plan_bytes(p), 0, p.id);
    assert(s.skip(6) =~= body);
    lemma_plan_fields(p, rest);
    assert(body.skip(4 * (p.scopes.len() + p.fields.len()) as int) =~= rest);
}

/// v9 templates and padding read back as the templates.
#[verifier::rlimit(40)]
pub proof fn lemma_plans(ps: Seq<Plan>, options: bool, pad: Seq<u8>)
    requires
        plans_writable(ps, options),
        zeros(pad),
    ensures
        (if options {
            v9_options_templates(plans_bytes(ps, options) + pad)
        } else {
            v9_templates(plans_bytes(ps, options) + pad)
        }) == Seq::new(ps.len(), |i: int| plan_def(ps[i], options)),
    decreases ps.len(),
{
    let s = plans_bytes(ps, options) + pad;
    let want = Seq::new(ps.len(), |i: int| plan_def(ps[i], options));
    if ps.len() == 0 {
        assert(s =~= pad);
        if pad.len() >= 4 {
            assert(pad[0] == 0 && pad[1] == 0);
            lemma_at16(pad, 0, 0);
        }
        assert(want =~= Seq::<TemplateDef>::empty());
    } else {
        let tail = ps.drop_first();
        let rest = plans_bytes(tail, options) + pad;
        assert(plan_writable(ps[0], options));
        assert forall|i: int| 0 <= i < tail.len() implies plan_writable(
            #[trigger] tail[i],
            options,
        ) by {
            assert(tail[i] == ps[i + 1]);
        }
        lemma_plans(tail, options, pad);
        let later = Seq::new(tail.len(), |i: int| plan_def(tail[i], options));
        assert(seq![plan_def(ps[0], options)] + later =~= want);
        if options {
            lemma_options_plan(ps[0], rest);
            assert(s =~= options_plan_bytes(ps[0]) + rest);
            if tail.len() > 0 {
                assert(plan_writable(tail[0], options));
                lemma_options_plan(tail[0], Seq::empty());
                let next = options_plan_bytes(tail[0]);
                assert(rest[0] == next[0] && rest[1] == next[1]);
                if rest[0] == 0 && rest[1] == 0 {
                    lemma_at16(next, 0, 0);
                }
            } else {
                assert(rest =~= pad);
                assert(want =~= seq![plan_def(ps[0], options)]);
            }
        } else {
            lemma_plan(ps[0], rest);
            assert(s =~= plan_bytes(ps[0]) + rest);
        }
    }
}

/// Every template that is written into a v9 Template FlowSet (or Options Template
/// FlowSet) is learned, in order, with every field as it was written and none besides,
/// whatever padding follows.
pub proof fn lemma_v9_templates_read_back(ps: Seq<Plan>, options: bool, pad: Seq<u8>)
    requires
        plans_writable(ps, options),
        zeros(pad),
    ensures
        ({
            let set = SetView {
                id: if options {
                    1
                } else {
                    0
                },
                body: plans_bytes(ps, options) + pad,
            };
            let found = v9_set_templates(set);
            &&& found.len() == ps.len()
            &&& forall|i: int|
                0 <= i < ps.len() ==> tells_plan(#[trigger] found[i], ps[i], options)
        }),
{
    lemma_plans(ps, options, pad);
    let found = Seq::new(ps.len(), |i: int| plan_def(ps[i], options));
    assert forall|i: int| 0 <= i < ps.len() implies tells_plan(
        #[trigger] found[i],
        ps[i],
        options,
    ) by {
        assert(plan_writable(ps[i], options));
    }
}

/// Sets on the wire: id, length with its own four bytes, body.
pub open spec fn sets_bytes(sets: Seq<SetView>) -> Seq<u8>
    decreases sets.len(),
{
    if sets.len() == 0 {
        Seq::empty()
    } else {
        w16(sets[0].id) + w16((sets[0].body.len() + 4) as u16) + sets[0].body + sets_bytes(
            sets.drop_first(),
        )
    }
}

/// Sets whose lengths can be written.
pub open spec fn sets_writable(sets: Seq<SetView>) -> bool {
    forall|i: int| 0 <= i < sets.len() ==> (#[trigger] sets[i]).body.len() <= 65_531
}

/// The set at the front reads back.
pub proof fn lemma_set_at_front(set: SetView, rest: Seq<u8>)
    requires
        set.body.len() <= 65_531,
    ensures
        ({
            let n = (set.body.len() + 4) as u16;
            let s = w16(set.id) + w16(n) + set.body + rest;
            sets_of(s) == match sets_of(rest) {
                Some(more) => Some(seq![set] + more),
                None => None,
            }
        }),
{
    let n = (set.body.len() + 4) as u16;
    let s = w16(set.id) + w16(n) + set.body + rest;
    lemma_at16(s, 0, set.id);
    lemma_at16(s, 2, n);
    assert(s.subrange(4, n as int) =~= set.body);
    assert(s.skip(n as int) =~= rest);
    assert((SetView { id: at16(s, 0), body: s.subrange(4, n as int) }) == set);
}

/// Sets read back, all of them and in order; a tail that is too short for one more
/// does not matter.
#[verifier::rlimit(40)]
pub proof fn lemma_sets_read_back(sets: Seq<SetView>, tail: Seq<u8>)
    requires
        sets_writable(sets),
        tail.len() < 4,
    ensures
        sets_of(sets_bytes(sets) + tail) == Some(sets),
    decreases sets.len(),
{
    let s = sets_bytes(sets) + tail;
    if sets.len() == 0 {
        assert(s =~= tail);
        assert(sets =~= Seq::<SetView>::empty());
    } else {
        let more = sets.drop_first();
        let n = (sets[0].body.len() + 4) as u16;
        assert(sets[0].body.len() <= 65_531);
        assert forall|i: int| 0 <= i < more.len() implies (#[trigger] more[i]).body.len()
            <= 65_531 by {
            assert(more[i] == sets[i + 1]);
        }
        lemma_sets_read_back(more, tail);
        let rest = sets_bytes(more) + tail;
        lemma_set_at_front(sets[0], rest);
        assert(s =~= w16(sets[0].id) + w16(n) + sets[0].body + rest);
        assert(seq![sets[0]] + more =~= sets);
    }
}

/// A set in front of sets, as it was written.
#[verifier::rlimit(40)]
pub proof fn lemma_front_set(region: Seq<u8>, more: Seq<SetView>)
    requires
        region.len() >= 4,
        4 <= at16(region, 2) <= region.len(),
        sets_writable(more),
    ensures
        ({
            let n = at16(region, 2) as int;
            let set = SetView { id: at16(region, 0), body: region.subrange(4, n) };
            &&& sets_writable(seq![set] + more)
            &&& sets_bytes(seq![set] + more) == region.take(n) + sets_bytes(more)
        }),
{
    let n = at16(region, 2) as int;
    let set = SetView { id: at16(region, 0), body: region.subrange(4, n) };
    let sets = seq![set] + more;
    assert(sets.drop_first() =~= more);
    assert forall|i: int| 0 <= i < sets.len() implies (#[trigger] sets[i]).body.len()
        <= 65_531 by {
        if i > 0 {
            assert(sets[i] == more[i - 1]);
        }
    }
    lemma_written16(region, 0);
    lemma_written16(region, 2);
    assert(region.take(n) =~= region.subrange(0, 2) + region.subrange(2, 4) + region.subrange(
        4,
        n,
    ));
}

/// What splits into sets is those sets, one after another, and a tail too short for
/// one more.
#[verifier::rlimit(40)]
pub proof fn lemma_sets_written(region: Seq<u8>)
    requires
        sets_of(region) is Some,
    ensures
        ({
            let sets = sets_of(region)->0;
            &&& sets_writable(sets)
            &&& sets_bytes(sets).len() <= region.len() < sets_bytes(sets).len() + 4
            &&& sets_bytes(sets) == region.take(sets_bytes(sets).len() as int)
        }),
    decreases region.len(),
{
    if region.len() < 4 {
        assert(region.take(0) =~= Seq::<u8>::empty());
    } else {
        let length = at16(region, 2) as int;
        let rest = region.skip(length);
        lemma_sets_written(rest);
        let more = sets_of(rest)->0;
        let n = sets_bytes(more).len() as int;
        lemma_front_set(region, more);
        assert(region.take(length) + rest.take(n) =~= region.take(length + n));
    }
}

/// Two bytes are how the number that they stand for is written.
pub proof fn lemma_written16(s: Seq<u8>, i: int)
    requires
        0 <= i,
        i + 2 <= s.len(),
    ensures
        w16(at16(s, i)) == s.subrange(i, i + 2),
{
    crate::buf::lemma_be2(s.subrange(i, i + 2));
    let v = at16(s, i);
    assert(v == s[i] * 256 + s[i + 1]);
    assert(v / 256 == s[i] && v % 256 == s[i + 1]);
    assert(w16(v) =~= s.subrange(i, i + 2));
}

} // verus!
