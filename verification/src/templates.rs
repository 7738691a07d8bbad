//! `templates()`: a read-only projection of the template cache, one row per
//! learned template with the field layout that it decodes to.

use std::sync::Arc;

use arrow_schema::{DataType, Field, Schema};
use vstd::prelude::*;

use crate::arrow_map::{col, commented_field, plain_field, UTC};
use crate::cache::{EntryView, FieldView, KeyView, TemplateCache, TemplateEntry, TemplateKey};
use crate::columns::{
    batch_columns, batch_fields, batch_ok, cells_bytes, columns_of, field_desc, field_descs, joined,
    leaf_type, lemma_cells_bytes_prefix, lemma_cells_bytes_push, lemma_joined_prefix,
    lemma_joined_slice, lemma_joined_step, lemma_starts_ascend, list_cells, list_type, max_offset,
    micros_cell, micros_cells, micros_type, new_batch, new_field, new_schema, no_columns, push_list,
    push_micros, push_struct, push_text, push_u16, push_u32, push_u64, schema_fields, start_of,
    struct_cells, struct_type, text_cell, text_cells, texts_fit, type_desc, u16_cell, u16_cells,
    u32_cell, u32_cells, u64_cell, u64_cells, values_of, Batch, Cell, ColumnView, Columns,
    FieldDesc, Leaf, TypeView, MAX_OFFSET,
};
use crate::fault::Fault;
use crate::keymap::{ordered_keys, pairs};
use crate::meta::{
    object_tags, object_tags_view, one_example_json, one_example_text, push_tag, DocView,
    FunctionDoc, SAMPLE_IPFIX_HEX,
};
use crate::num::low32;
use crate::text::{concat3, opt_view, same_text, views};

verus! {

/// The function's name.
pub const NAME: &'static str = "templates";

/// The title of `templates()`.
pub const TITLE: &'static str = "Template Cache Introspection";

/// `templates()` in prose.
pub const DOC_LLM: &'static str =
    "Project the live v9/IPFIX template cache: one row per learned template, with its \
    exporter, observation domain, template id, kind (data/options), the ordered field \
    specifiers it decodes to, and first/last-seen and use-count stats. The debugging \
    surface for 'which templates have I learned and what do they decode to'. Optionally \
    filter by exporter. Reflects templates learned by prior \
    flows()/netflow_decode()/ipfix_decode() calls in this session.";

/// `templates()` in short.
pub const DOC_MD: &'static str =
    "List the learned v9/IPFIX templates and their field layouts. Optional `exporter` filter.";

/// The keywords of `templates()`.
pub const KEYWORDS: &'static str =
    "templates, template cache, introspection, ipfix, netflow, v9, fields, debug, layout";

/// `templates()` in one line.
pub const DESCRIPTION: &'static str = "Project the live v9/IPFIX template cache";

/// The result columns as a Markdown table.
pub const RESULT_COLUMNS_MD: &'static str =
    "| column | type | description |\n|---|---|---|\n| `exporter` | VARCHAR | Device the \
    template came from. |\n| `obs_domain` | UINTEGER | Observation domain. |\n| \
    `template_id` | USMALLINT | Template id. |\n| `kind` | VARCHAR | 'data' / 'options'. \
    |\n| `field_count` | UINTEGER | Field specifier count. |\n| `fields` | STRUCT[] | \
    Ordered field specifiers. |\n| `first_seen` / `last_seen` | TIMESTAMPTZ | Seen stats. \
    |\n| `use_count` | UBIGINT | Decode count. |";

/// What the runnable example shows.
pub const RUNNABLE: &'static str =
    "Learn an IPFIX template by decoding a datagram, then list it (template id, kind, field \
    count).";

/// The runnable example, up to the datagram.
pub const RUNNABLE_HEAD: &'static str =
    "SELECT count(*) FROM netflow.main.ipfix_decode((SELECT from_hex('";

/// The runnable example, from the datagram on.
pub const RUNNABLE_TAIL: &'static str =
    "') AS datagram, 'doc-exporter' AS exporter));\nSELECT exporter, template_id, kind, \
    field_count FROM netflow.main.templates(exporter => 'doc-exporter');";

/// What the `exporter` argument is.
pub const ARGUMENT: &'static str =
    "Filter to templates learned from this exporter (source device id). Omit for all.";

/// What `templates()` says of itself. It shows no further example: on a cold cache
/// it returns no rows.
pub open spec fn doc_view() -> DocView {
    DocView {
        description: DESCRIPTION@,
        examples: Seq::empty(),
        tags: object_tags_view(TITLE@, DOC_LLM@, DOC_MD@, KEYWORDS@) + seq![
            ("vgi.result_columns_md"@, RESULT_COLUMNS_MD@),
            (
                "vgi.executable_examples"@,
                one_example_text(RUNNABLE@, RUNNABLE_HEAD@ + SAMPLE_IPFIX_HEX@ + RUNNABLE_TAIL@),
            ),
        ],
    }
}

/// The columns of a listed template.
#[derive(Clone, Copy, Debug, PartialEq, Eq, Structural)]
pub enum TemplateColumn {
    Exporter,
    ObsDomain,
    TemplateId,
    Kind,
    FieldCount,
    Fields,
    ScopeFieldCount,
    FirstSeen,
    LastSeen,
    UseCount,
}

/// The columns of `templates()` in order: name, column and comment.
pub const TEMPLATE_COLUMNS: [(&'static str, TemplateColumn, &'static str); 10] = [
    ("exporter", TemplateColumn::Exporter, "Source device the template was learned from."),
    (
        "obs_domain",
        TemplateColumn::ObsDomain,
        "Observation domain (v9 source-id / IPFIX) the template id is scoped to.",
    ),
    ("template_id", TemplateColumn::TemplateId, "The template id a Data Set references."),
    ("kind", TemplateColumn::Kind, "'data' or 'options'."),
    ("field_count", TemplateColumn::FieldCount, "Number of field specifiers in the template."),
    (
        "fields",
        TemplateColumn::Fields,
        "The ordered field specifiers (ie_id, enterprise, length, name, ie_type).",
    ),
    (
        "scope_field_count",
        TemplateColumn::ScopeFieldCount,
        "Leading scope fields (options templates); 0 for data.",
    ),
    ("first_seen", TemplateColumn::FirstSeen, "When this template id was first seen."),
    ("last_seen", TemplateColumn::LastSeen, "When this template was most recently seen/used."),
    (
        "use_count",
        TemplateColumn::UseCount,
        "How many data records have been decoded against it.",
    ),
];

/// The five child fields of a field specifier.
pub open spec fn spec_fields() -> Seq<FieldDesc> {
    seq![
        plain_field("ie_id"@, TypeView::U16, false),
        plain_field("enterprise"@, TypeView::U32, false),
        plain_field("length"@, TypeView::U16, false),
        plain_field("name"@, TypeView::Utf8, false),
        plain_field("ie_type"@, TypeView::Utf8, false),
    ]
}

/// The field of the items of `fields`.
pub open spec fn item_desc() -> FieldDesc {
    plain_field("item"@, TypeView::Struct(spec_fields()), false)
}

impl TemplateColumn {
    /// The Arrow type of the column.
    pub open spec fn ty(self) -> TypeView {
        match self {
            TemplateColumn::Exporter | TemplateColumn::Kind => TypeView::Utf8,
            TemplateColumn::ObsDomain | TemplateColumn::FieldCount => TypeView::U32,
            TemplateColumn::TemplateId | TemplateColumn::ScopeFieldCount => TypeView::U16,
            TemplateColumn::FirstSeen | TemplateColumn::LastSeen => TypeView::Micros(UTC@),
            TemplateColumn::UseCount => TypeView::U64,
            TemplateColumn::Fields => TypeView::List(Box::new(item_desc())),
        }
    }
}

/// The cell of a field specifier.
pub open spec fn spec_cell(f: FieldView) -> Cell {
    Cell::Struct(
        seq![
            Cell::Num(f.ie_id as int),
            Cell::Num(f.enterprise_number as int),
            Cell::Num(f.length as int),
            Cell::Text(f.name),
            Cell::Text(f.ie_type),
        ],
    )
}

/// The cells of field specifiers, in order.
pub open spec fn spec_cells(fields: Seq<FieldView>) -> Seq<Cell> {
    Seq::new(fields.len(), |i: int| spec_cell(fields[i]))
}

/// What a listed template has in a column. The number of fields is counted in 32
/// bits.
pub open spec fn template_cell(t: (KeyView, EntryView), c: TemplateColumn) -> Cell {
    let (key, entry) = t;
    match c {
        TemplateColumn::Exporter => Cell::Text(key.exporter),
        TemplateColumn::ObsDomain => Cell::Num(key.obs_domain as int),
        TemplateColumn::TemplateId => Cell::Num(key.template_id as int),
        TemplateColumn::Kind => Cell::Text(entry.kind.label()),
        TemplateColumn::FieldCount => Cell::Num((entry.fields.len() % 0x1_0000_0000) as int),
        TemplateColumn::Fields => Cell::List(spec_cells(entry.fields)),
        TemplateColumn::ScopeFieldCount => Cell::Num(entry.scope_field_count as int),
        TemplateColumn::FirstSeen => Cell::Num(entry.first_seen as int),
        TemplateColumn::LastSeen => Cell::Num(entry.last_seen as int),
        TemplateColumn::UseCount => Cell::Num(entry.use_count as int),
    }
}

/// What listed templates have in a column.
pub open spec fn template_cells(ts: Seq<(KeyView, EntryView)>, c: TemplateColumn) -> Seq<Cell> {
    Seq::new(ts.len(), |i: int| template_cell(ts[i], c))
}

/// The columns that listed templates fill.
pub open spec fn template_columns(ts: Seq<(KeyView, EntryView)>) -> Seq<ColumnView> {
    Seq::new(
        TEMPLATE_COLUMNS@.len(),
        |i: int|
            ColumnView {
                ty: TEMPLATE_COLUMNS@[i].1.ty(),
                cells: template_cells(ts, TEMPLATE_COLUMNS@[i].1),
            },
    )
}

/// The fields of the schema of `templates()`.
pub open spec fn template_fields() -> Seq<FieldDesc> {
    Seq::new(
        TEMPLATE_COLUMNS@.len(),
        |i: int|
            commented_field(
                TEMPLATE_COLUMNS@[i].0@,
                TEMPLATE_COLUMNS@[i].1.ty(),
                TEMPLATE_COLUMNS@[i].2@,
            ),
    )
}

/// A template of the wanted exporter; without a wish, any.
pub open spec fn is_wanted(t: (KeyView, EntryView), exporter: Option<Seq<char>>) -> bool {
    match exporter {
        Some(e) => t.0.exporter == e,
        None => true,
    }
}

/// The templates that are listed: those wanted, in key order.
pub open spec fn listed(
    entries: Map<KeyView, EntryView>,
    exporter: Option<Seq<char>>,
) -> Seq<(KeyView, EntryView)> {
    pairs(entries).filter(|t: (KeyView, EntryView)| is_wanted(t, exporter))
}

/// The field specifiers of each template.
pub open spec fn spec_parts(ts: Seq<(KeyView, EntryView)>) -> Seq<Seq<FieldView>> {
    Seq::new(ts.len(), |i: int| ts[i].1.fields)
}

/// The names of field specifiers.
pub open spec fn name_cells(fields: Seq<FieldView>) -> Seq<Cell> {
    Seq::new(fields.len(), |i: int| Cell::Text(fields[i].name))
}

/// The types of field specifiers.
pub open spec fn type_cells(fields: Seq<FieldView>) -> Seq<Cell> {
    Seq::new(fields.len(), |i: int| Cell::Text(fields[i].ie_type))
}

/// Templates whose strings and field specifiers each fit the 32-bit offsets of
/// one Arrow array.
pub open spec fn fit_one_listing(ts: Seq<(KeyView, EntryView)>) -> bool {
    let fields = joined(spec_parts(ts));
    &&& cells_bytes(template_cells(ts, TemplateColumn::Exporter)) <= max_offset()
    &&& cells_bytes(template_cells(ts, TemplateColumn::Kind)) <= max_offset()
    &&& fields.len() <= max_offset()
    &&& cells_bytes(name_cells(fields)) <= max_offset()
    &&& cells_bytes(type_cells(fields)) <= max_offset()
}

/// The child fields of a field specifier.
fn field_struct_fields() -> (r: Vec<Field>)
    ensures
        field_descs(r@) == spec_fields(),
{
    let mut r: Vec<Field> = Vec::new();
    r.push(new_field("ie_id", leaf_type(Leaf::U16), false));
    r.push(new_field("enterprise", leaf_type(Leaf::U32), false));
    r.push(new_field("length", leaf_type(Leaf::U16), false));
    r.push(new_field("name", leaf_type(Leaf::Utf8), false));
    r.push(new_field("ie_type", leaf_type(Leaf::Utf8), false));
    assert(field_descs(r@) =~= spec_fields());
    r
}

/// The field of the items of `fields`.
fn item_field() -> (r: Field)
    ensures
        field_desc(r) == item_desc(),
{
    new_field("item", struct_type(field_struct_fields()), false)
}

/// The Arrow type of a column.
fn column_type(c: TemplateColumn) -> (r: DataType)
    ensures
        type_desc(r) == c.ty(),
{
    match c {
        TemplateColumn::Exporter | TemplateColumn::Kind => leaf_type(Leaf::Utf8),
        TemplateColumn::ObsDomain | TemplateColumn::FieldCount => leaf_type(Leaf::U32),
        TemplateColumn::TemplateId | TemplateColumn::ScopeFieldCount => leaf_type(Leaf::U16),
        TemplateColumn::FirstSeen | TemplateColumn::LastSeen => micros_type(UTC),
        TemplateColumn::UseCount => leaf_type(Leaf::U64),
        TemplateColumn::Fields => list_type(item_field()),
    }
}

/// The output schema of `templates()`.
pub fn output_schema() -> (r: Arc<Schema>)
    ensures
        schema_fields(*r) == template_fields(),
{
    let mut fields: Vec<Field> = Vec::new();
    let columns = TEMPLATE_COLUMNS;
    let mut i: usize = 0;
    while i < columns.len()
        invariant
            columns == TEMPLATE_COLUMNS,
            i <= columns@.len(),
            field_descs(fields@) == template_fields().take(i as int),
        decreases columns.len() - i,
    {
        let (name, column, comment) = columns[i];
        let ghost before = fields@;
        let field = col(name, column_type(column), comment);
        fields.push(field);
        i = i + 1;
        assert(field_descs(fields@) =~= field_descs(before).push(field_desc(field)));
        assert(template_fields().take(i as int) =~= template_fields().take(i - 1).push(
            template_fields()[i - 1],
        ));
    }
    assert(template_fields().take(i as int) =~= template_fields());
    new_schema(fields)
}

/// What references to cached templates show.
pub open spec fn refs_view(ts: Seq<(&TemplateKey, &TemplateEntry)>) -> Seq<(KeyView, EntryView)> {
    Seq::new(ts.len(), |i: int| (ts[i].0@, ts[i].1@))
}

/// The cached templates of an exporter, or all of them.
pub fn wanted_templates<'a>(cache: &'a TemplateCache, exporter: &Option<String>) -> (r: Vec<
    (&'a TemplateKey, &'a TemplateEntry),
>)
    requires
        cache.wf(),
    ensures
        refs_view(r@) == listed(cache@.entries, opt_view(*exporter)),
{
    let mut r: Vec<(&'a TemplateKey, &'a TemplateEntry)> = Vec::new();
    let ghost all = pairs(cache@.entries);
    let ghost wish = opt_view(*exporter);
    let ghost pred = |t: (KeyView, EntryView)| is_wanted(t, wish);
    let n: usize = cache.entry_count();
    let mut i: usize = 0;
    proof {
        assert(all.take(0) =~= Seq::empty());
        reveal(Seq::filter);
    }
    while i < n
        invariant
            cache.wf(),
            all == pairs(cache@.entries),
            wish == opt_view(*exporter),
            pred == |t: (KeyView, EntryView)| is_wanted(t, wish),
            n == all.len(),
            n == ordered_keys(cache@.entries.dom()).len(),
            i <= n,
            refs_view(r@) == all.take(i as int).filter(pred),
        decreases n - i,
    {
        let (key, entry) = cache.entry_at(i);
        let wanted = match exporter {
            Some(e) => same_text(key.exporter.as_str(), e.as_str()),
            None => true,
        };
        let ghost before = r@;
        if wanted {
            r.push((key, entry));
        }
        proof {
            reveal(Seq::filter);
            assert(all.take(i + 1).drop_last() =~= all.take(i as int));
            assert(all.take(i + 1).last() == all[i as int]);
            assert(pred(all[i as int]) == wanted);
            if wanted {
                assert(refs_view(r@) =~= refs_view(before).push((key@, entry@)));
            }
        }
        i = i + 1;
    }
    assert(all.take(i as int) =~= all);
    r
}

/// What a template has in one of the text columns.
fn text_of(t: &(&TemplateKey, &TemplateEntry), c: TemplateColumn) -> (v: Option<String>)
    requires
        c.ty() == TypeView::Utf8,
    ensures
        text_cell(v) == template_cell((t.0@, t.1@), c),
{
    match c {
        TemplateColumn::Exporter => Some(t.0.exporter.clone()),
        TemplateColumn::Kind => Some(t.1.kind.as_str().to_string()),
        _ => None,
    }
}

/// What templates have in one of the text columns.
fn text_values(ts: &Vec<(&TemplateKey, &TemplateEntry)>, c: TemplateColumn) -> (v: Vec<
    Option<String>,
>)
    requires
        c.ty() == TypeView::Utf8,
    ensures
        text_cells(v@) == template_cells(refs_view(ts@), c),
{
    let pick = |t: &(&TemplateKey, &TemplateEntry)| -> (o: Option<String>)
        requires
            c.ty() == TypeView::Utf8,
        ensures
            text_cell(o) == template_cell((t.0@, t.1@), c),
    {
        text_of(t, c)
    };
    let v = values_of(ts, pick);
    assert(text_cells(v@) =~= template_cells(refs_view(ts@), c));
    v
}

/// What a template has in one of the 32-bit columns.
fn u32_of(t: &(&TemplateKey, &TemplateEntry), c: TemplateColumn) -> (v: Option<u32>)
    requires
        c.ty() == TypeView::U32,
    ensures
        u32_cell(v) == template_cell((t.0@, t.1@), c),
{
    match c {
        TemplateColumn::ObsDomain => Some(t.0.obs_domain),
        TemplateColumn::FieldCount => Some(low32(t.1.fields.len() as u64)),
        _ => None,
    }
}

/// What templates have in one of the 32-bit columns.
fn u32_values(ts: &Vec<(&TemplateKey, &TemplateEntry)>, c: TemplateColumn) -> (v: Vec<
    Option<u32>,
>)
    requires
        c.ty() == TypeView::U32,
    ensures
        u32_cells(v@) == template_cells(refs_view(ts@), c),
{
    let pick = |t: &(&TemplateKey, &TemplateEntry)| -> (o: Option<u32>)
        requires
            c.ty() == TypeView::U32,
        ensures
            u32_cell(o) == template_cell((t.0@, t.1@), c),
    {
        u32_of(t, c)
    };
    let v = values_of(ts, pick);
    assert(u32_cells(v@) =~= template_cells(refs_view(ts@), c));
    v
}

/// What a template has in one of the 16-bit columns.
fn u16_of(t: &(&TemplateKey, &TemplateEntry), c: TemplateColumn) -> (v: Option<u16>)
    requires
        c.ty() == TypeView::U16,
    ensures
        u16_cell(v) == template_cell((t.0@, t.1@), c),
{
    match c {
        TemplateColumn::TemplateId => Some(t.0.template_id),
        TemplateColumn::ScopeFieldCount => Some(t.1.scope_field_count),
        _ => None,
    }
}

/// What templates have in one of the 16-bit columns.
fn u16_values(ts: &Vec<(&TemplateKey, &TemplateEntry)>, c: TemplateColumn) -> (v: Vec<
    Option<u16>,
>)
    requires
        c.ty() == TypeView::U16,
    ensures
        u16_cells(v@) == template_cells(refs_view(ts@), c),
{
    let pick = |t: &(&TemplateKey, &TemplateEntry)| -> (o: Option<u16>)
        requires
            c.ty() == TypeView::U16,
        ensures
            u16_cell(o) == template_cell((t.0@, t.1@), c),
    {
        u16_of(t, c)
    };
    let v = values_of(ts, pick);
    assert(u16_cells(v@) =~= template_cells(refs_view(ts@), c));
    v
}

/// What a template has in one of the timestamp columns.
fn micros_of(t: &(&TemplateKey, &TemplateEntry), c: TemplateColumn) -> (v: Option<i64>)
    requires
        c.ty() == TypeView::Micros(UTC@),
    ensures
        micros_cell(v) == template_cell((t.0@, t.1@), c),
{
    match c {
        TemplateColumn::FirstSeen => Some(t.1.first_seen),
        TemplateColumn::LastSeen => Some(t.1.last_seen),
        _ => None,
    }
}

/// What templates have in one of the timestamp columns.
fn micros_values(ts: &Vec<(&TemplateKey, &TemplateEntry)>, c: TemplateColumn) -> (v: Vec<
    Option<i64>,
>)
    requires
        c.ty() == TypeView::Micros(UTC@),
    ensures
        micros_cells(v@) == template_cells(refs_view(ts@), c),
{
    let pick = |t: &(&TemplateKey, &TemplateEntry)| -> (o: Option<i64>)
        requires
            c.ty() == TypeView::Micros(UTC@),
        ensures
            micros_cell(o) == template_cell((t.0@, t.1@), c),
    {
        micros_of(t, c)
    };
    let v = values_of(ts, pick);
    assert(micros_cells(v@) =~= template_cells(refs_view(ts@), c));
    v
}

/// What a template has in one of the 64-bit columns.
fn u64_of(t: &(&TemplateKey, &TemplateEntry), c: TemplateColumn) -> (v: Option<u64>)
    requires
        c.ty() == TypeView::U64,
    ensures
        u64_cell(v) == template_cell((t.0@, t.1@), c),
{
    match c {
        TemplateColumn::UseCount => Some(t.1.use_count),
        _ => None,
    }
}

/// What templates have in one of the 64-bit columns.
fn u64_values(ts: &Vec<(&TemplateKey, &TemplateEntry)>, c: TemplateColumn) -> (v: Vec<
    Option<u64>,
>)
    requires
        c.ty() == TypeView::U64,
    ensures
        u64_cells(v@) == template_cells(refs_view(ts@), c),
{
    let pick = |t: &(&TemplateKey, &TemplateEntry)| -> (o: Option<u64>)
        requires
            c.ty() == TypeView::U64,
        ensures
            u64_cell(o) == template_cell((t.0@, t.1@), c),
    {
        u64_of(t, c)
    };
    let v = values_of(ts, pick);
    assert(u64_cells(v@) =~= template_cells(refs_view(ts@), c));
    v
}

/// The parts of field specifiers, each in a column of its own.
struct SpecColumns {
    ie_id: Vec<Option<u16>>,
    enterprise: Vec<Option<u32>>,
    length: Vec<Option<u16>>,
    name: Vec<Option<String>>,
    ie_type: Vec<Option<String>>,
    valid: Vec<bool>,
}

impl SpecColumns {
    /// The columns hold these field specifiers.
    spec fn hold(&self, fields: Seq<FieldView>) -> bool {
        &&& self.ie_id@.len() == fields.len()
        &&& self.enterprise@.len() == fields.len()
        &&& self.length@.len() == fields.len()
        &&& self.name@.len() == fields.len()
        &&& self.ie_type@.len() == fields.len()
        &&& self.valid@.len() == fields.len()
        &&& forall|k: int|
            #![trigger fields[k]]
            0 <= k < fields.len() ==> {
                &&& self.ie_id@[k] == Some(fields[k].ie_id)
                &&& self.enterprise@[k] == Some(fields[k].enterprise_number)
                &&& self.length@[k] == Some(fields[k].length)
                &&& text_cell(self.name@[k]) == Cell::Text(fields[k].name)
                &&& text_cell(self.ie_type@[k]) == Cell::Text(fields[k].ie_type)
                &&& self.valid@[k]
            }
    }
}

/// Takes the field specifiers of one more template.
fn add_specs(s: &mut SpecColumns, entry: &TemplateEntry, Ghost(before): Ghost<Seq<FieldView>>)
    requires
        old(s).hold(before),
    ensures
        final(s).hold(before + entry@.fields),
{
    let fields = &entry.fields;
    let ghost all = entry@.fields;
    let mut j: usize = 0;
    assert(before + all.take(0) =~= before);
    while j < fields.len()
        invariant
            all == views(fields@),
            j <= fields@.len(),
            s.hold(before + all.take(j as int)),
        decreases fields.len() - j,
    {
        let f = &fields[j];
        s.ie_id.push(Some(f.ie_id));
        s.enterprise.push(Some(f.enterprise_number));
        s.length.push(Some(f.length));
        s.name.push(Some(f.name.clone()));
        s.ie_type.push(Some(f.ie_type.clone()));
        s.valid.push(true);
        assert(before + all.take(j + 1) =~= (before + all.take(j as int)).push(f@));
        j = j + 1;
    }
    assert(all.take(j as int) =~= all);
}

/// The struct column of field specifiers.
fn build_specs(s: SpecColumns, Ghost(fields): Ghost<Seq<FieldView>>) -> (r: Columns)
    requires
        s.hold(fields),
        cells_bytes(name_cells(fields)) <= max_offset(),
        cells_bytes(type_cells(fields)) <= max_offset(),
    ensures
        columns_of(r) == seq![
            ColumnView { ty: TypeView::Struct(spec_fields()), cells: spec_cells(fields) },
        ],
{
    proof {
        assert forall|k: int| 0 <= k < fields.len() implies #[trigger] text_cells(s.name@)[k]
            == Cell::Text(fields[k].name) by {}
        assert forall|k: int| 0 <= k < fields.len() implies #[trigger] text_cells(s.ie_type@)[k]
            == Cell::Text(fields[k].ie_type) by {}
        assert(text_cells(s.name@) =~= name_cells(fields));
        assert(text_cells(s.ie_type@) =~= type_cells(fields));
    }
    let mut parts = no_columns();
    push_u16(&mut parts, s.ie_id);
    push_u32(&mut parts, s.enterprise);
    push_u16(&mut parts, s.length);
    push_text(&mut parts, s.name);
    push_text(&mut parts, s.ie_type);
    let mut r = no_columns();
    proof {
        let ch = columns_of(parts);
        assert forall|k: int| 0 <= k < fields.len() implies #[trigger] ch[0].cells[k] == Cell::Num(
            fields[k].ie_id as int,
        ) by {}
        assert forall|k: int| 0 <= k < fields.len() implies #[trigger] ch[1].cells[k] == Cell::Num(
            fields[k].enterprise_number as int,
        ) by {}
        assert forall|k: int| 0 <= k < fields.len() implies #[trigger] ch[2].cells[k] == Cell::Num(
            fields[k].length as int,
        ) by {}
        assert forall|k: int| 0 <= k < fields.len() implies #[trigger] struct_cells(
            ch,
            s.valid@,
        )[k] == spec_cell(fields[k]) by {
            assert(s.valid@[k]);
            assert(Seq::new(ch.len(), |j: int| ch[j].cells[k]) =~= seq![
                Cell::Num(fields[k].ie_id as int),
                Cell::Num(fields[k].enterprise_number as int),
                Cell::Num(fields[k].length as int),
                Cell::Text(fields[k].name),
                Cell::Text(fields[k].ie_type),
            ]);
        }
        assert(struct_cells(ch, s.valid@) =~= spec_cells(fields));
    }
    push_struct(&mut r, field_struct_fields(), parts, s.valid);
    r
}

/// Appends the `fields` list column: the field specifiers of each template.
fn build_fields(out: &mut Columns, ts: &Vec<(&TemplateKey, &TemplateEntry)>)
    requires
        fit_one_listing(refs_view(ts@)),
    ensures
        columns_of(*final(out)) == columns_of(*old(out)).push(
            ColumnView {
                ty: TemplateColumn::Fields.ty(),
                cells: template_cells(refs_view(ts@), TemplateColumn::Fields),
            },
        ),
{
    let ghost rows = refs_view(ts@);
    let ghost parts = spec_parts(rows);
    let mut s = SpecColumns {
        ie_id: Vec::new(),
        enterprise: Vec::new(),
        length: Vec::new(),
        name: Vec::new(),
        ie_type: Vec::new(),
        valid: Vec::new(),
    };
    let mut offsets: Vec<i32> = Vec::new();
    offsets.push(0);
    let mut i: usize = 0;
    assert(parts.take(0) =~= Seq::empty());
    while i < ts.len()
        invariant
            rows == refs_view(ts@),
            parts == spec_parts(rows),
            joined(parts).len() <= max_offset(),
            i <= ts@.len(),
            s.hold(joined(parts.take(i as int))),
            offsets@.len() == i + 1,
            forall|k: int| 0 <= k <= i ==> offsets@[k] == #[trigger] start_of(parts, k),
        decreases ts.len() - i,
    {
        proof {
            lemma_joined_step(parts, i as int);
            lemma_joined_prefix(parts, i + 1);
            assert(rows[i as int].1 == ts@[i as int].1@);
        }
        add_specs(&mut s, ts[i].1, Ghost(joined(parts.take(i as int))));
        assert(s.name@.len() == start_of(parts, i + 1));
        offsets.push(s.name.len() as i32);
        i = i + 1;
    }
    let ghost all = joined(parts);
    proof {
        assert(parts.take(i as int) =~= parts);
        assert(offsets@[0] == start_of(parts, 0));
        assert forall|a: int, b: int| 0 <= a < b < offsets@.len() implies offsets@[a]
            <= offsets@[b] by {
            lemma_starts_ascend(parts, a, b);
        }
        assert(offsets@.last() == start_of(parts, i as int));
    }
    let items = build_specs(s, Ghost(all));
    proof {
        let cells = columns_of(items)[0].cells;
        assert forall|k: int| 0 <= k < rows.len() implies #[trigger] list_cells(
            cells,
            offsets@,
        )[k] == template_cell(rows[k], TemplateColumn::Fields) by {
            lemma_joined_slice(parts, k);
            assert(offsets@[k] == start_of(parts, k));
            assert(offsets@[k + 1] == start_of(parts, k + 1));
            let (a, b) = (start_of(parts, k), start_of(parts, k + 1));
            assert forall|x: int| 0 <= x < b - a implies #[trigger] cells.subrange(a, b)[x]
                == spec_cells(rows[k].1.fields)[x] by {
                assert(all.subrange(a, b)[x] == all[a + x]);
            }
            assert(cells.subrange(a, b) =~= spec_cells(rows[k].1.fields));
        }
        assert(list_cells(cells, offsets@) =~= template_cells(rows, TemplateColumn::Fields));
    }
    push_list(out, item_field(), offsets, items);
}

/// Appends one column of listed templates.
fn push_column(out: &mut Columns, ts: &Vec<(&TemplateKey, &TemplateEntry)>, c: TemplateColumn)
    requires
        fit_one_listing(refs_view(ts@)),
    ensures
        columns_of(*final(out)) == columns_of(*old(out)).push(
            ColumnView { ty: c.ty(), cells: template_cells(refs_view(ts@), c) },
        ),
{
    match c {
        TemplateColumn::Exporter | TemplateColumn::Kind => push_text(out, text_values(ts, c)),
        TemplateColumn::ObsDomain | TemplateColumn::FieldCount => push_u32(out, u32_values(ts, c)),
        TemplateColumn::TemplateId | TemplateColumn::ScopeFieldCount => push_u16(
            out,
            u16_values(ts, c),
        ),
        TemplateColumn::FirstSeen | TemplateColumn::LastSeen => push_micros(
            out,
            micros_values(ts, c),
            UTC,
        ),
        TemplateColumn::UseCount => push_u64(out, u64_values(ts, c)),
        TemplateColumn::Fields => build_fields(out, ts),
    }
}

/// The batch of the cached templates of an exporter, or of all. It is refused
/// exactly where the schema does not fit the columns.
pub fn templates_batch(cache: &TemplateCache, exporter: &Option<String>, schema: &Arc<Schema>) -> (r:
    Result<Batch, Fault>)
    requires
        cache.wf(),
        fit_one_listing(listed(cache@.entries, opt_view(*exporter))),
    ensures
        ({
            let columns = template_columns(listed(cache@.entries, opt_view(*exporter)));
            &&& r is Ok <==> batch_ok(schema_fields(**schema), columns)
            &&& r matches Ok(b) ==> batch_columns(b) == columns
            &&& r matches Ok(b) ==> batch_fields(b) == schema_fields(**schema)
            &&& r matches Err(e) ==> e is Arrow
        }),
{
    let ts = wanted_templates(cache, exporter);
    let ghost want = template_columns(refs_view(ts@));
    let mut out = no_columns();
    let columns = TEMPLATE_COLUMNS;
    let mut i: usize = 0;
    while i < columns.len()
        invariant
            fit_one_listing(refs_view(ts@)),
            want == template_columns(refs_view(ts@)),
            columns == TEMPLATE_COLUMNS,
            i <= columns@.len(),
            columns_of(out) == want.take(i as int),
        decreases columns.len() - i,
    {
        push_column(&mut out, &ts, columns[i].1);
        i = i + 1;
        assert(want.take(i as int) =~= want.take(i - 1).push(want[i - 1]));
    }
    assert(want.take(i as int) =~= want);
    match new_batch(schema, out) {
        Ok(b) => Ok(b),
        Err(e) => Err(Fault::Arrow(e)),
    }
}

/// Listed templates always make up a batch under the schema of `templates()`.
pub proof fn lemma_listing_fits_schema(ts: Seq<(KeyView, EntryView)>)
    ensures
        batch_ok(template_fields(), template_columns(ts)),
{
}

/// Whether the field specifiers of all templates fit one Arrow array.
fn specs_fit(ts: &Vec<(&TemplateKey, &TemplateEntry)>) -> (r: bool)
    ensures
        r == {
            let fields = joined(spec_parts(refs_view(ts@)));
            &&& fields.len() <= max_offset()
            &&& cells_bytes(name_cells(fields)) <= max_offset()
            &&& cells_bytes(type_cells(fields)) <= max_offset()
        },
{
    let ghost parts = spec_parts(refs_view(ts@));
    let ghost all = joined(parts);
    let mut count: u64 = 0;
    let mut names: u64 = 0;
    let mut types: u64 = 0;
    let mut i: usize = 0;
    assert(parts.take(0) =~= Seq::empty());
    assert(name_cells(Seq::empty()) =~= Seq::empty());
    assert(type_cells(Seq::empty()) =~= Seq::empty());
    while i < ts.len()
        invariant
            parts == spec_parts(refs_view(ts@)),
            all == joined(parts),
            i <= ts@.len(),
            count == joined(parts.take(i as int)).len(),
            names == cells_bytes(name_cells(joined(parts.take(i as int)))),
            types == cells_bytes(type_cells(joined(parts.take(i as int)))),
            count <= max_offset(),
            names <= max_offset(),
            types <= max_offset(),
        decreases ts.len() - i,
    {
        let ghost before = joined(parts.take(i as int));
        let fields = &ts[i].1.fields;
        let ghost part = views(fields@);
        proof {
            lemma_joined_step(parts, i as int);
            lemma_joined_prefix(parts, i + 1);
            assert(parts[i as int] == part);
            assert(before + part.take(0) =~= before);
        }
        let mut j: usize = 0;
        while j < fields.len()
            invariant
                part == views(fields@),
                j <= fields@.len(),
                all.take((before + part).len() as int) == before + part,
                (before + part).len() <= all.len(),
                all == joined(spec_parts(refs_view(ts@))),
                count == before.len() + j,
                names == cells_bytes(name_cells(before + part.take(j as int))),
                types == cells_bytes(type_cells(before + part.take(j as int))),
                count <= max_offset(),
                names <= max_offset(),
                types <= max_offset(),
            decreases fields.len() - j,
        {
            let n: usize = fields[j].name.as_str().as_bytes().len();
            let t: usize = fields[j].ie_type.as_str().as_bytes().len();
            proof {
                let now = before + part.take(j as int);
                let next = before + part.take(j + 1);
                assert(next =~= now.push(part[j as int]));
                assert(name_cells(next) =~= name_cells(now).push(Cell::Text(part[j as int].name)));
                assert(type_cells(next) =~= type_cells(now).push(
                    Cell::Text(part[j as int].ie_type),
                ));
                lemma_cells_bytes_push(name_cells(now), Cell::Text(part[j as int].name));
                lemma_cells_bytes_push(type_cells(now), Cell::Text(part[j as int].ie_type));
                let len = next.len() as int;
                assert(all.take(len) =~= next) by {
                    assert forall|x: int| 0 <= x < len implies all[x] == #[trigger] next[x] by {
                        assert(all.take((before + part).len() as int)[x] == (before + part)[x]);
                    }
                }
                assert(name_cells(all).take(len) =~= name_cells(next));
                assert(type_cells(all).take(len) =~= type_cells(next));
                lemma_cells_bytes_prefix(name_cells(all), len);
                lemma_cells_bytes_prefix(type_cells(all), len);
            }
            if count >= MAX_OFFSET || n as u64 > MAX_OFFSET - names || t as u64 > MAX_OFFSET
                - types {
                return false;
            }
            count = count + 1;
            names = names + n as u64;
            types = types + t as u64;
            j = j + 1;
        }
        assert(part.take(j as int) =~= part);
        i = i + 1;
    }
    assert(parts.take(i as int) =~= parts);
    true
}

/// Whether the cached templates of an exporter, or all, fit one batch.
pub fn templates_fit(cache: &TemplateCache, exporter: &Option<String>) -> (r: bool)
    requires
        cache.wf(),
    ensures
        r == fit_one_listing(listed(cache@.entries, opt_view(*exporter))),
{
    let ts = wanted_templates(cache, exporter);
    texts_fit(&text_values(&ts, TemplateColumn::Exporter)) && texts_fit(
        &text_values(&ts, TemplateColumn::Kind),
    ) && specs_fit(&ts)
}

/// Produces the listing of a cache once, then nothing.
pub struct TemplatesProducer {
    pub schema: Arc<Schema>,
    pub cache: TemplateCache,
    /// The exporter whose templates are listed; without one, all are.
    pub filter: Option<String>,
    pub done: bool,
}

impl TemplatesProducer {
    /// A producer that has produced nothing yet.
    pub fn new(schema: Arc<Schema>, cache: TemplateCache, filter: Option<String>) -> (r: Self)
        requires
            cache.wf(),
        ensures
            r.cache.wf(),
            !r.done,
            r.cache@ == cache@,
            opt_view(r.filter) == opt_view(filter),
            r.schema == schema,
    {
        TemplatesProducer { schema, cache, filter, done: false }
    }

    /// The templates that the producer lists.
    pub open spec fn rows(&self) -> Seq<(KeyView, EntryView)> {
        listed(self.cache@.entries, opt_view(self.filter))
    }

    /// The whole listing on the first call, nothing from then on.
    pub fn next_batch(&mut self) -> (r: Result<Option<Batch>, Fault>)
        requires
            old(self).cache.wf(),
            !old(self).done ==> fit_one_listing(old(self).rows()),
        ensures
            final(self).done,
            final(self).cache == old(self).cache,
            final(self).filter == old(self).filter,
            final(self).schema == old(self).schema,
            old(self).done ==> r matches Ok(None),
            !old(self).done ==> {
                let columns = template_columns(old(self).rows());
                &&& r is Ok <==> batch_ok(schema_fields(*old(self).schema), columns)
                &&& r matches Ok(b) ==> b matches Some(b) && batch_columns(b) == columns
                    && batch_fields(b) == schema_fields(*old(self).schema)
                &&& r matches Err(e) ==> e is Arrow
            },
    {
        if self.done {
            return Ok(None);
        }
        self.done = true;
        match templates_batch(&self.cache, &self.filter, &self.schema) {
            Ok(b) => Ok(Some(b)),
            Err(e) => Err(e),
        }
    }
}

/// The table function `templates`.
#[derive(Clone, Copy, Debug)]
pub struct Templates;

impl Templates {
    /// The function's name.
    pub fn name(&self) -> (r: &'static str)
        ensures
            r@ == NAME@,
    {
        NAME
    }

    /// What `templates()` says of itself.
    pub fn metadata(&self) -> (r: FunctionDoc)
        ensures
            r@ == doc_view(),
    {
        let mut tags = object_tags(TITLE, DOC_LLM, DOC_MD, KEYWORDS);
        push_tag(&mut tags, "vgi.result_columns_md", RESULT_COLUMNS_MD);
        let sql = concat3(RUNNABLE_HEAD, SAMPLE_IPFIX_HEX, RUNNABLE_TAIL);
        push_tag(
            &mut tags,
            "vgi.executable_examples",
            one_example_json(RUNNABLE, sql.as_str()).as_str(),
        );
        let r = FunctionDoc { description: DESCRIPTION.to_string(), examples: Vec::new(), tags };
        assert(r@ =~= doc_view());
        r
    }
}

} // verus!
