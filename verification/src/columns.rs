//! Arrow columns, schemas and record batches.
//!
//! What a column holds is modelled as its type and one cell per row. The Arrow
//! crates build the arrays; the functions here that call them say what goes in
//! and what the result holds, and everything above is proved from that.

use std::sync::Arc;

use arrow_array::cast::AsArray;
use arrow_array::types::{
    Int16Type, Int32Type, Int64Type, Int8Type, UInt16Type, UInt32Type, UInt64Type, UInt8Type,
};
use arrow_array::{
    Array, ArrayRef, BinaryArray, BooleanArray, FixedSizeBinaryArray, ListArray, MapArray,
    RecordBatch, StringArray, StructArray, TimestampMicrosecondArray, UInt16Array, UInt32Array,
    UInt64Array, UInt8Array,
};
use arrow_buffer::{Buffer, NullBuffer, OffsetBuffer};
use arrow_schema::{ArrowError, DataType, Field, Fields, Schema, TimeUnit};
use vstd::prelude::*;
use vstd::utf8::encode_utf8;

verus! {

/// The type of a column.
pub enum TypeView {
    Bool,
    U8,
    U16,
    U32,
    U64,
    I8,
    I16,
    I32,
    I64,
    Utf8,
    LargeUtf8,
    Binary,
    LargeBinary,
    /// So many bytes.
    Fixed(int),
    /// Microseconds since the Unix epoch, in a time zone.
    Micros(Seq<char>),
    Struct(Seq<FieldDesc>),
    List(Box<FieldDesc>),
    /// A list of entries, each a struct of key and value.
    MapOf(Box<FieldDesc>),
    /// Any other type, told apart by a number.
    Other(int),
}

/// A named column or child column.
pub struct FieldDesc {
    pub name: Seq<char>,
    pub ty: TypeView,
    pub nullable: bool,
    pub metadata: Map<Seq<char>, Seq<char>>,
}

/// What a column holds in one row: null where the array's validity says so.
pub enum Cell {
    Null,
    Bool(bool),
    Num(int),
    Text(Seq<char>),
    Bytes(Seq<u8>),
    Struct(Seq<Cell>),
    List(Seq<Cell>),
}

/// What a column holds.
pub struct ColumnView {
    pub ty: TypeView,
    pub cells: Seq<Cell>,
}

/// What a column can be read as.
#[derive(Clone, Copy, Debug, PartialEq, Eq, Structural)]
pub enum Kind {
    Binary,
    LargeBinary,
    Utf8,
    LargeUtf8,
    /// A signed or unsigned integer of 8 to 64 bits.
    Integer,
    Other,
}

impl TypeView {
    /// What a column of the type can be read as.
    pub open spec fn kind(self) -> Kind {
        match self {
            TypeView::Binary => Kind::Binary,
            TypeView::LargeBinary => Kind::LargeBinary,
            TypeView::Utf8 => Kind::Utf8,
            TypeView::LargeUtf8 => Kind::LargeUtf8,
            TypeView::U8 | TypeView::U16 | TypeView::U32 | TypeView::U64 | TypeView::I8
            | TypeView::I16 | TypeView::I32 | TypeView::I64 => Kind::Integer,
            _ => Kind::Other,
        }
    }
}

/// No cell is null.
pub open spec fn null_free(cells: Seq<Cell>) -> bool {
    forall|i: int| 0 <= i < cells.len() ==> #[trigger] cells[i] != Cell::Null
}

/// A type without children.
#[derive(Clone, Copy, Debug, PartialEq, Eq, Structural)]
pub enum Leaf {
    Bool,
    U8,
    U16,
    U32,
    U64,
    Utf8,
    Binary,
}

impl Leaf {
    /// The type.
    pub open spec fn desc(self) -> TypeView {
        match self {
            Leaf::Bool => TypeView::Bool,
            Leaf::U8 => TypeView::U8,
            Leaf::U16 => TypeView::U16,
            Leaf::U32 => TypeView::U32,
            Leaf::U64 => TypeView::U64,
            Leaf::Utf8 => TypeView::Utf8,
            Leaf::Binary => TypeView::Binary,
        }
    }
}

/// `arrow_schema::DataType`: the type of an Arrow array.
#[verifier::external_type_specification]
#[verifier::external_body]
pub struct ExDataType(DataType);

/// `arrow_schema::Field`: a name, a type, whether nulls may occur, and metadata.
#[verifier::external_type_specification]
#[verifier::external_body]
pub struct ExField(Field);

/// `arrow_schema::Schema`: the fields of a record batch.
#[verifier::external_type_specification]
#[verifier::external_body]
pub struct ExSchema(Schema);

/// `arrow_schema::ArrowError`: why Arrow refused what it was given.
#[verifier::external_type_specification]
#[verifier::external_body]
pub struct ExArrowError(ArrowError);

/// What a `DataType` describes. Two of them are equal exactly where this is:
/// their equality compares the variant, its parameters and its child fields.
pub uninterp spec fn type_desc(t: DataType) -> TypeView;

/// What a `Field` describes. Two of them are equal exactly where this is: their
/// equality compares name, type, nullability and metadata.
pub uninterp spec fn field_desc(f: Field) -> FieldDesc;

/// The fields of a `Schema`, in order.
pub uninterp spec fn schema_fields(s: Schema) -> Seq<FieldDesc>;

/// What a list of fields describes.
pub open spec fn field_descs(fields: Seq<Field>) -> Seq<FieldDesc> {
    Seq::new(fields.len(), |i: int| field_desc(fields[i]))
}

/// The map that pairs of strings build up, the last of several with one key
/// counting.
pub open spec fn text_map(ps: Seq<(String, String)>) -> Map<Seq<char>, Seq<char>>
    decreases ps.len(),
{
    if ps.len() == 0 {
        Map::empty()
    } else {
        text_map(ps.drop_last()).insert(ps.last().0@, ps.last().1@)
    }
}

/// `DataType`'s variants without children: the one that corresponds to `leaf`.
#[verifier::external_body]
pub(crate) fn leaf_type(leaf: Leaf) -> (r: DataType)
    ensures
        type_desc(r) == leaf.desc(),
{
    match leaf {
        Leaf::Bool => DataType::Boolean,
        Leaf::U8 => DataType::UInt8,
        Leaf::U16 => DataType::UInt16,
        Leaf::U32 => DataType::UInt32,
        Leaf::U64 => DataType::UInt64,
        Leaf::Utf8 => DataType::Utf8,
        Leaf::Binary => DataType::Binary,
    }
}

/// `DataType::FixedSizeBinary`: values of `n` bytes each.
#[verifier::external_body]
pub(crate) fn fixed_type(n: i32) -> (r: DataType)
    ensures
        type_desc(r) == TypeView::Fixed(n as int),
{
    DataType::FixedSizeBinary(n)
}

/// `DataType::Timestamp` with `TimeUnit::Microsecond` and a time zone.
#[verifier::external_body]
pub(crate) fn micros_type(zone: &str) -> (r: DataType)
    ensures
        type_desc(r) == TypeView::Micros(zone@),
{
    DataType::Timestamp(TimeUnit::Microsecond, Some(zone.into()))
}

/// `DataType::Struct`, of child fields that `Fields::from` puts in order.
#[verifier::external_body]
pub(crate) fn struct_type(fields: Vec<Field>) -> (r: DataType)
    ensures
        type_desc(r) == TypeView::Struct(field_descs(fields@)),
{
    DataType::Struct(Fields::from(fields))
}

/// `DataType::List`, whose items are as `item` says.
#[verifier::external_body]
pub(crate) fn list_type(item: Field) -> (r: DataType)
    ensures
        type_desc(r) == TypeView::List(Box::new(field_desc(item))),
{
    DataType::List(Arc::new(item))
}

/// `DataType::Map`, whose entries are as `entries` says and not sorted by key.
#[verifier::external_body]
pub(crate) fn map_type(entries: Field) -> (r: DataType)
    ensures
        type_desc(r) == TypeView::MapOf(Box::new(field_desc(entries))),
{
    DataType::Map(Arc::new(entries), false)
}

/// `Field::new`: a field without metadata.
#[verifier::external_body]
pub(crate) fn new_field(name: &str, ty: DataType, nullable: bool) -> (r: Field)
    ensures
        field_desc(r) == (FieldDesc {
            name: name@,
            ty: type_desc(ty),
            nullable,
            metadata: Map::empty(),
        }),
{
    Field::new(name, ty, nullable)
}

/// `Field::with_metadata`: the field with metadata in place of what it had.
#[verifier::external_body]
pub(crate) fn annotated(field: Field, metadata: Vec<(String, String)>) -> (r: Field)
    ensures
        field_desc(r) == (FieldDesc { metadata: text_map(metadata@), ..field_desc(field) }),
{
    field.with_metadata(metadata.into_iter().collect())
}

/// `Schema::new`: a schema of fields, in order.
#[verifier::external_body]
pub(crate) fn new_schema(fields: Vec<Field>) -> (r: Arc<Schema>)
    ensures
        schema_fields(*r) == field_descs(fields@),
{
    Arc::new(Schema::new(fields))
}

/// A list of Arrow arrays, the columns of a batch or of a struct.
#[verifier::external_body]
pub struct Columns {
    arrays: Vec<ArrayRef>,
}

/// What each array of a list holds.
pub uninterp spec fn columns_of(c: Columns) -> Seq<ColumnView>;

/// An Arrow `RecordBatch`: columns of equal length under a schema.
#[verifier::external_body]
pub struct Batch {
    pub record_batch: RecordBatch,
}

/// What each column of a batch holds.
pub uninterp spec fn batch_columns(b: Batch) -> Seq<ColumnView>;

/// The fields of a batch's schema.
pub uninterp spec fn batch_fields(b: Batch) -> Seq<FieldDesc>;

/// The number of rows of a batch.
pub uninterp spec fn batch_rows(b: Batch) -> nat;

/// The cell of a boolean.
pub open spec fn bool_cell(o: Option<bool>) -> Cell {
    match o {
        Some(x) => Cell::Bool(x),
        None => Cell::Null,
    }
}

/// The cells of booleans.
pub open spec fn bool_cells(v: Seq<Option<bool>>) -> Seq<Cell> {
    Seq::new(v.len(), |i: int| bool_cell(v[i]))
}

/// The cell of an 8-bit number.
pub open spec fn u8_cell(o: Option<u8>) -> Cell {
    match o {
        Some(x) => Cell::Num(x as int),
        None => Cell::Null,
    }
}

/// The cells of 8-bit numbers.
pub open spec fn u8_cells(v: Seq<Option<u8>>) -> Seq<Cell> {
    Seq::new(v.len(), |i: int| u8_cell(v[i]))
}

/// The cell of a 16-bit number.
pub open spec fn u16_cell(o: Option<u16>) -> Cell {
    match o {
        Some(x) => Cell::Num(x as int),
        None => Cell::Null,
    }
}

/// The cells of 16-bit numbers.
pub open spec fn u16_cells(v: Seq<Option<u16>>) -> Seq<Cell> {
    Seq::new(v.len(), |i: int| u16_cell(v[i]))
}

/// The cell of a 32-bit number.
pub open spec fn u32_cell(o: Option<u32>) -> Cell {
    match o {
        Some(x) => Cell::Num(x as int),
        None => Cell::Null,
    }
}

/// The cells of 32-bit numbers.
pub open spec fn u32_cells(v: Seq<Option<u32>>) -> Seq<Cell> {
    Seq::new(v.len(), |i: int| u32_cell(v[i]))
}

/// The cell of a 64-bit number.
pub open spec fn u64_cell(o: Option<u64>) -> Cell {
    match o {
        Some(x) => Cell::Num(x as int),
        None => Cell::Null,
    }
}

/// The cells of 64-bit numbers.
pub open spec fn u64_cells(v: Seq<Option<u64>>) -> Seq<Cell> {
    Seq::new(v.len(), |i: int| u64_cell(v[i]))
}

/// The cell of a timestamp.
pub open spec fn micros_cell(o: Option<i64>) -> Cell {
    match o {
        Some(x) => Cell::Num(x as int),
        None => Cell::Null,
    }
}

/// The cells of timestamps.
pub open spec fn micros_cells(v: Seq<Option<i64>>) -> Seq<Cell> {
    Seq::new(v.len(), |i: int| micros_cell(v[i]))
}

/// The cell of a string.
pub open spec fn text_cell(o: Option<String>) -> Cell {
    match o {
        Some(x) => Cell::Text(x@),
        None => Cell::Null,
    }
}

/// The cells of strings.
pub open spec fn text_cells(v: Seq<Option<String>>) -> Seq<Cell> {
    Seq::new(v.len(), |i: int| text_cell(v[i]))
}

/// The cells of byte strings.
pub open spec fn bytes_cells(v: Seq<Vec<u8>>) -> Seq<Cell> {
    Seq::new(v.len(), |i: int| Cell::Bytes(v[i]@))
}

/// What a function gives for each of some items, in order: the values of a column.
pub fn values_of<R, T, F: Fn(&R) -> T>(items: &[R], f: F) -> (v: Vec<T>)
    requires
        forall|i: int| 0 <= i < items@.len() ==> call_requires(f, (&#[trigger] items@[i],)),
    ensures
        v@.len() == items@.len(),
        forall|i: int|
            0 <= i < items@.len() ==> call_ensures(f, (&items@[i],), #[trigger] v@[i]),
{
    let mut v: Vec<T> = Vec::new();
    let mut i: usize = 0;
    while i < items.len()
        invariant
            forall|k: int| 0 <= k < items@.len() ==> call_requires(f, (&#[trigger] items@[k],)),
            i <= items@.len(),
            v@.len() == i,
            forall|k: int| 0 <= k < i ==> call_ensures(f, (&items@[k],), #[trigger] v@[k]),
        decreases items.len() - i,
    {
        v.push(f(&items[i]));
        i = i + 1;
    }
    v
}

/// The cells of byte strings of sixteen bytes.
pub open spec fn fixed_cells(v: Seq<[u8; 16]>) -> Seq<Cell> {
    Seq::new(v.len(), |i: int| Cell::Bytes(v[i]@))
}

/// The bytes that a cell of a string or byte string column takes.
pub open spec fn cell_bytes(c: Cell) -> nat {
    match c {
        Cell::Text(s) => encode_utf8(s).len(),
        Cell::Bytes(b) => b.len(),
        _ => 0,
    }
}

/// The bytes that the cells of a string or byte string column take together.
pub open spec fn cells_bytes(cells: Seq<Cell>) -> nat
    decreases cells.len(),
{
    if cells.len() == 0 {
        0
    } else {
        cells_bytes(cells.drop_last()) + cell_bytes(cells.last())
    }
}

/// The most that a 32-bit Arrow offset reaches.
pub const MAX_OFFSET: u64 = 0x7fff_ffff;

/// The most that a 32-bit Arrow offset reaches.
pub open spec fn max_offset() -> nat {
    MAX_OFFSET as nat
}

/// One more cell takes its bytes more.
pub proof fn lemma_cells_bytes_push(cells: Seq<Cell>, c: Cell)
    ensures
        cells_bytes(cells.push(c)) == cells_bytes(cells) + cell_bytes(c),
{
    assert(cells.push(c).drop_last() =~= cells);
}

/// The first cells take no more bytes than all.
pub proof fn lemma_cells_bytes_prefix(cells: Seq<Cell>, i: int)
    requires
        0 <= i <= cells.len(),
    ensures
        cells_bytes(cells.take(i)) <= cells_bytes(cells),
    decreases cells.len() - i,
{
    if i == cells.len() {
        assert(cells.take(i) =~= cells);
    } else {
        lemma_cells_bytes_prefix(cells, i + 1);
        lemma_cells_bytes_push(cells.take(i), cells[i]);
        assert(cells.take(i + 1) =~= cells.take(i).push(cells[i]));
    }
}

/// An empty list of arrays.
#[verifier::external_body]
pub(crate) fn no_columns() -> (r: Columns)
    ensures
        columns_of(r) == Seq::<ColumnView>::empty(),
{
    Columns { arrays: Vec::<ArrayRef>::new() }
}

/// `BooleanArray::from` on optional booleans: one cell each, in order.
#[verifier::external_body]
pub(crate) fn push_bool(c: &mut Columns, v: Vec<Option<bool>>)
    ensures
        columns_of(*final(c)) == columns_of(*old(c)).push(
            ColumnView { ty: TypeView::Bool, cells: bool_cells(v@) },
        ),
{
    c.arrays.push(Arc::new(BooleanArray::from(v)));
}

/// `UInt8Array::from` on optional numbers: one cell each, in order.
#[verifier::external_body]
pub(crate) fn push_u8(c: &mut Columns, v: Vec<Option<u8>>)
    ensures
        columns_of(*final(c)) == columns_of(*old(c)).push(
            ColumnView { ty: TypeView::U8, cells: u8_cells(v@) },
        ),
{
    c.arrays.push(Arc::new(UInt8Array::from(v)));
}

/// `UInt16Array::from` on optional numbers: one cell each, in order.
#[verifier::external_body]
pub(crate) fn push_u16(c: &mut Columns, v: Vec<Option<u16>>)
    ensures
        columns_of(*final(c)) == columns_of(*old(c)).push(
            ColumnView { ty: TypeView::U16, cells: u16_cells(v@) },
        ),
{
    c.arrays.push(Arc::new(UInt16Array::from(v)));
}

/// `UInt32Array::from` on optional numbers: one cell each, in order.
#[verifier::external_body]
pub(crate) fn push_u32(c: &mut Columns, v: Vec<Option<u32>>)
    ensures
        columns_of(*final(c)) == columns_of(*old(c)).push(
            ColumnView { ty: TypeView::U32, cells: u32_cells(v@) },
        ),
{
    c.arrays.push(Arc::new(UInt32Array::from(v)));
}

/// `UInt64Array::from` on optional numbers: one cell each, in order.
#[verifier::external_body]
pub(crate) fn push_u64(c: &mut Columns, v: Vec<Option<u64>>)
    ensures
        columns_of(*final(c)) == columns_of(*old(c)).push(
            ColumnView { ty: TypeView::U64, cells: u64_cells(v@) },
        ),
{
    c.arrays.push(Arc::new(UInt64Array::from(v)));
}

/// `TimestampMicrosecondArray::from` on optional timestamps and `with_timezone`:
/// one cell each, in order, in the given time zone.
#[verifier::external_body]
pub(crate) fn push_micros(c: &mut Columns, v: Vec<Option<i64>>, zone: &str)
    ensures
        columns_of(*final(c)) == columns_of(*old(c)).push(
            ColumnView { ty: TypeView::Micros(zone@), cells: micros_cells(v@) },
        ),
{
    c.arrays.push(Arc::new(TimestampMicrosecondArray::from(v).with_timezone(zone)));
}

/// `StringArray::from` on optional strings: one cell each, in order. It panics
/// where the bytes of all of them do not fit a 32-bit offset.
#[verifier::external_body]
pub(crate) fn push_text(c: &mut Columns, v: Vec<Option<String>>)
    requires
        cells_bytes(text_cells(v@)) <= max_offset(),
    ensures
        columns_of(*final(c)) == columns_of(*old(c)).push(
            ColumnView { ty: TypeView::Utf8, cells: text_cells(v@) },
        ),
{
    c.arrays.push(Arc::new(StringArray::from(v)));
}

/// `BinaryArray::from_iter_values` on byte strings: one cell each, in order. It
/// panics where the bytes of all of them do not fit a 32-bit offset.
#[verifier::external_body]
pub(crate) fn push_bytes(c: &mut Columns, v: Vec<Vec<u8>>)
    requires
        cells_bytes(bytes_cells(v@)) <= max_offset(),
    ensures
        columns_of(*final(c)) == columns_of(*old(c)).push(
            ColumnView { ty: TypeView::Binary, cells: bytes_cells(v@) },
        ),
{
    c.arrays.push(Arc::new(BinaryArray::from_iter_values(v)));
}

/// `FixedSizeBinaryArray::new` on byte strings of sixteen bytes, one behind
/// another in a buffer: one cell each, in order.
#[verifier::external_body]
pub(crate) fn push_fixed(c: &mut Columns, v: Vec<[u8; 16]>)
    ensures
        columns_of(*final(c)) == columns_of(*old(c)).push(
            ColumnView { ty: TypeView::Fixed(16), cells: fixed_cells(v@) },
        ),
{
    let bytes = Buffer::from(v.into_flattened());
    c.arrays.push(Arc::new(FixedSizeBinaryArray::new(16, bytes, None)));
}

/// What child columns make up a struct column: as many as there are fields, at
/// least one, of the fields' types, as long as the validity, without nulls where
/// the field does not allow them.
pub open spec fn struct_ok(
    fields: Seq<FieldDesc>,
    children: Seq<ColumnView>,
    valid: Seq<bool>,
) -> bool {
    &&& children.len() > 0
    &&& fields.len() == children.len()
    &&& forall|i: int|
        #![trigger fields[i]]
        #![trigger children[i]]
        0 <= i < fields.len() ==> {
            &&& fields[i].ty == children[i].ty
            &&& children[i].cells.len() == valid.len()
            &&& fields[i].nullable || null_free(children[i].cells)
        }
}

/// The cells of a struct column: in each valid row those of the children.
pub open spec fn struct_cells(children: Seq<ColumnView>, valid: Seq<bool>) -> Seq<Cell> {
    Seq::new(
        valid.len(),
        |i: int|
            if valid[i] {
                Cell::Struct(Seq::new(children.len(), |j: int| children[j].cells[i]))
            } else {
                Cell::Null
            },
    )
}

/// `StructArray::new`: a struct column of child columns, null where `valid` says
/// so. It panics on children that do not fit the fields (`struct_ok`).
#[verifier::external_body]
pub(crate) fn push_struct(
    c: &mut Columns,
    fields: Vec<Field>,
    children: Columns,
    valid: Vec<bool>,
)
    requires
        struct_ok(field_descs(fields@), columns_of(children), valid@),
    ensures
        columns_of(*final(c)) == columns_of(*old(c)).push(
            ColumnView {
                ty: TypeView::Struct(field_descs(fields@)),
                cells: struct_cells(columns_of(children), valid@),
            },
        ),
{
    let nulls = Some(NullBuffer::from(valid));
    let array = StructArray::new(Fields::from(fields), children.arrays, nulls);
    c.arrays.push(Arc::new(array));
}

/// Lists one behind another.
pub open spec fn joined<T>(parts: Seq<Seq<T>>) -> Seq<T>
    decreases parts.len(),
{
    if parts.len() == 0 {
        Seq::empty()
    } else {
        joined(parts.drop_last()) + parts.last()
    }
}

/// Where a list starts among lists one behind another.
pub open spec fn start_of<T>(parts: Seq<Seq<T>>, i: int) -> int {
    joined(parts.take(i)).len() as int
}

/// One more list comes behind those before.
pub proof fn lemma_joined_step<T>(parts: Seq<Seq<T>>, i: int)
    requires
        0 <= i < parts.len(),
    ensures
        joined(parts.take(i + 1)) == joined(parts.take(i)) + parts[i],
{
    assert(parts.take(i + 1).drop_last() =~= parts.take(i));
}

/// Lists one behind another begin with the first of them.
pub proof fn lemma_joined_prefix<T>(parts: Seq<Seq<T>>, i: int)
    requires
        0 <= i <= parts.len(),
    ensures
        joined(parts.take(i)).len() <= joined(parts).len(),
        joined(parts).take(joined(parts.take(i)).len() as int) == joined(parts.take(i)),
    decreases parts.len() - i,
{
    let part = joined(parts.take(i));
    if i == parts.len() {
        assert(parts.take(i) =~= parts);
        assert(part.take(part.len() as int) =~= part);
    } else {
        lemma_joined_prefix(parts, i + 1);
        lemma_joined_step(parts, i);
        let next = joined(parts.take(i + 1));
        assert(joined(parts).take(part.len() as int) =~= next.take(part.len() as int));
        assert(next.take(part.len() as int) =~= part);
    }
}

/// Later lists start no earlier.
pub proof fn lemma_starts_ascend<T>(parts: Seq<Seq<T>>, a: int, b: int)
    requires
        0 <= a <= b <= parts.len(),
    ensures
        0 <= start_of(parts, a) <= start_of(parts, b) <= joined(parts).len(),
    decreases b - a,
{
    if a < b {
        lemma_starts_ascend(parts, a, b - 1);
        lemma_joined_step(parts, b - 1);
    }
    lemma_joined_prefix(parts, b);
}

/// A list stands between where it starts and where the next one starts.
pub proof fn lemma_joined_slice<T>(parts: Seq<Seq<T>>, i: int)
    requires
        0 <= i < parts.len(),
    ensures
        0 <= start_of(parts, i) <= start_of(parts, i + 1) <= joined(parts).len(),
        joined(parts).subrange(start_of(parts, i), start_of(parts, i + 1)) == parts[i],
{
    lemma_starts_ascend(parts, i, i + 1);
    lemma_joined_step(parts, i);
    lemma_joined_prefix(parts, i + 1);
    let (a, b) = (start_of(parts, i), start_of(parts, i + 1));
    let next = joined(parts.take(i + 1));
    assert(joined(parts).subrange(a, b) =~= joined(parts).take(b).subrange(a, b));
    assert(next.subrange(a, b) =~= parts[i]);
}

/// Offsets of lists one behind another: at least one, from 0 on, ascending.
pub open spec fn offsets_ok(offsets: Seq<i32>) -> bool {
    &&& offsets.len() > 0
    &&& offsets[0] >= 0
    &&& forall|i: int, j: int| 0 <= i < j < offsets.len() ==> offsets[i] <= offsets[j]
}

/// The cells of a list column: in each row the items between two offsets.
pub open spec fn list_cells(items: Seq<Cell>, offsets: Seq<i32>) -> Seq<Cell> {
    Seq::new(
        (offsets.len() - 1) as nat,
        |i: int| Cell::List(items.subrange(offsets[i] as int, offsets[i + 1] as int)),
    )
}

/// Items of a list column: of the field's type, without nulls where the field
/// does not allow them.
pub open spec fn items_ok(item: FieldDesc, items: ColumnView) -> bool {
    &&& item.ty == items.ty
    &&& item.nullable || null_free(items.cells)
}

/// `ListArray::new`, with offsets that `OffsetBuffer::new` takes: a list column,
/// without nulls, whose items are those of the only child column. It panics on
/// items other than `items_ok` says or that do not reach as far as the offsets.
#[verifier::external_body]
pub(crate) fn push_list(c: &mut Columns, item: Field, offsets: Vec<i32>, children: Columns)
    requires
        offsets_ok(offsets@),
        columns_of(children).len() == 1,
        items_ok(field_desc(item), columns_of(children)[0]),
        offsets@.last() <= columns_of(children)[0].cells.len(),
    ensures
        columns_of(*final(c)) == columns_of(*old(c)).push(
            ColumnView {
                ty: TypeView::List(Box::new(field_desc(item))),
                cells: list_cells(columns_of(children)[0].cells, offsets@),
            },
        ),
{
    let items = children.arrays[0].clone();
    let offsets = OffsetBuffer::new(offsets.into());
    c.arrays.push(Arc::new(ListArray::new(Arc::new(item), offsets, items, None)));
}

/// Entries of a map column: never null, structs of a key that is never null and
/// a value.
pub open spec fn entries_ok(entries: FieldDesc, items: ColumnView) -> bool {
    &&& entries.ty == items.ty
    &&& !entries.nullable
    &&& null_free(items.cells)
    &&& items.ty matches TypeView::Struct(fields) && fields.len() == 2 && !fields[0].nullable
}

/// `MapArray::new`, with offsets that `OffsetBuffer::new` takes: a map column,
/// without nulls, whose entries are those of the only child column. It panics on
/// entries other than `entries_ok` says or that do not reach as far as the
/// offsets.
#[verifier::external_body]
pub(crate) fn push_map(c: &mut Columns, entries: Field, offsets: Vec<i32>, children: Columns)
    requires
        offsets_ok(offsets@),
        columns_of(children).len() == 1,
        entries_ok(field_desc(entries), columns_of(children)[0]),
        offsets@.last() <= columns_of(children)[0].cells.len(),
    ensures
        columns_of(*final(c)) == columns_of(*old(c)).push(
            ColumnView {
                ty: TypeView::MapOf(Box::new(field_desc(entries))),
                cells: list_cells(columns_of(children)[0].cells, offsets@),
            },
        ),
{
    let items = children.arrays[0].as_struct().clone();
    let offsets = OffsetBuffer::new(offsets.into());
    let array = MapArray::new(Arc::new(entries), offsets, items, None, false);
    c.arrays.push(Arc::new(array));
}

/// What columns make up a batch under a schema: as many as there are fields, at
/// least one, of equal length, of the fields' types, without nulls where the
/// field does not allow them.
pub open spec fn batch_ok(fields: Seq<FieldDesc>, columns: Seq<ColumnView>) -> bool {
    &&& columns.len() > 0
    &&& fields.len() == columns.len()
    &&& forall|i: int|
        #![trigger fields[i]]
        #![trigger columns[i]]
        0 <= i < fields.len() ==> {
            &&& fields[i].ty == columns[i].ty
            &&& columns[i].cells.len() == columns[0].cells.len()
            &&& fields[i].nullable || null_free(columns[i].cells)
        }
}

/// `RecordBatch::try_new`: a batch of columns under a schema. It succeeds exactly
/// where the columns fit the schema (`batch_ok`).
#[verifier::external_body]
pub(crate) fn new_batch(schema: &Arc<Schema>, columns: Columns) -> (r: Result<Batch, ArrowError>)
    ensures
        r is Ok <==> batch_ok(schema_fields(**schema), columns_of(columns)),
        r matches Ok(b) ==> batch_columns(b) == columns_of(columns),
        r matches Ok(b) ==> batch_fields(b) == schema_fields(**schema),
        r matches Ok(b) ==> batch_rows(b) == columns_of(columns)[0].cells.len(),
{
    let record_batch = RecordBatch::try_new(schema.clone(), columns.arrays)?;
    Ok(Batch { record_batch })
}

/// Whether the strings of a column fit one Arrow array.
pub fn texts_fit(v: &Vec<Option<String>>) -> (r: bool)
    ensures
        r == (cells_bytes(text_cells(v@)) <= max_offset()),
{
    let ghost cells = text_cells(v@);
    let mut total: u64 = 0;
    let mut i: usize = 0;
    while i < v.len()
        invariant
            cells == text_cells(v@),
            i <= v@.len(),
            total == cells_bytes(cells.take(i as int)),
            total <= max_offset(),
        decreases v.len() - i,
    {
        let n: usize = match &v[i] {
            Some(s) => s.as_str().as_bytes().len(),
            None => 0,
        };
        proof {
            lemma_cells_bytes_push(cells.take(i as int), cells[i as int]);
            assert(cells.take(i + 1) =~= cells.take(i as int).push(cells[i as int]));
            lemma_cells_bytes_prefix(cells, i + 1);
        }
        if n as u64 > MAX_OFFSET - total {
            return false;
        }
        total = total + n as u64;
        i = i + 1;
    }
    assert(cells.take(i as int) =~= cells);
    true
}

/// `RecordBatch::num_rows`: the number of rows.
#[verifier::external_body]
pub(crate) fn row_count(b: &Batch) -> (n: usize)
    ensures
        n == batch_rows(*b),
        forall|i: int|
            0 <= i < batch_columns(*b).len() ==> (#[trigger] batch_columns(*b)[i]).cells.len() == n,
{
    b.record_batch.num_rows()
}

/// `RecordBatch::schema`: the schema, which has a field for each column, of a type
/// that reads as the column's does. Nested fields may differ, as where a batch was
/// given another schema that allows more nulls.
#[verifier::external_body]
pub(crate) fn schema_of(b: &Batch) -> (r: Arc<Schema>)
    ensures
        schema_fields(*r) == batch_fields(*b),
        schema_fields(*r).len() == batch_columns(*b).len(),
        forall|i: int|
            0 <= i < batch_columns(*b).len() ==> (#[trigger] schema_fields(*r)[i]).ty.kind()
                == batch_columns(*b)[i].ty.kind(),
{
    b.record_batch.schema()
}

/// `Schema::fields`: how many there are.
#[verifier::external_body]
pub(crate) fn field_count(s: &Schema) -> (n: usize)
    ensures
        n == schema_fields(*s).len(),
{
    s.fields().len()
}

/// `Field::name`: the name of a field of a schema.
#[verifier::external_body]
pub(crate) fn field_name(s: &Schema, i: usize) -> (r: String)
    requires
        i < schema_fields(*s).len(),
    ensures
        r@ == schema_fields(*s)[i as int].name,
{
    s.field(i).name().clone()
}

/// `Field::data_type`: what a field of a schema can be read as.
#[verifier::external_body]
pub(crate) fn field_kind(s: &Schema, i: usize) -> (r: Kind)
    requires
        i < schema_fields(*s).len(),
    ensures
        r == schema_fields(*s)[i as int].ty.kind(),
{
    match s.field(i).data_type() {
        DataType::Binary => Kind::Binary,
        DataType::LargeBinary => Kind::LargeBinary,
        DataType::Utf8 => Kind::Utf8,
        DataType::LargeUtf8 => Kind::LargeUtf8,
        DataType::UInt64 | DataType::UInt32 | DataType::UInt16 | DataType::UInt8
        | DataType::Int64 | DataType::Int32 | DataType::Int16 | DataType::Int8 => Kind::Integer,
        _ => Kind::Other,
    }
}

/// A cell of a batch.
pub open spec fn cell_at(b: Batch, col: usize, row: usize) -> Cell {
    batch_columns(b)[col as int].cells[row as int]
}

/// A batch has this column and this row.
pub open spec fn has_cell(b: Batch, col: usize, row: usize) -> bool {
    &&& col < batch_columns(b).len()
    &&& row < batch_columns(b)[col as int].cells.len()
}

/// `Array::is_null`: whether a cell is null.
#[verifier::external_body]
pub(crate) fn is_null(b: &Batch, col: usize, row: usize) -> (r: bool)
    requires
        has_cell(*b, col, row),
    ensures
        r == (cell_at(*b, col, row) == Cell::Null),
{
    b.record_batch.column(col).is_null(row)
}

/// `BinaryArray::value`: the bytes of a cell.
#[verifier::external_body]
pub(crate) fn binary_at(b: &Batch, col: usize, row: usize) -> (r: &[u8])
    requires
        has_cell(*b, col, row),
        batch_columns(*b)[col as int].ty.kind() == Kind::Binary,
        cell_at(*b, col, row) != Cell::Null,
    ensures
        cell_at(*b, col, row) == Cell::Bytes(r@),
{
    b.record_batch.column(col).as_binary::<i32>().value(row)
}

/// `LargeBinaryArray::value`: the bytes of a cell.
#[verifier::external_body]
pub(crate) fn large_binary_at(b: &Batch, col: usize, row: usize) -> (r: &[u8])
    requires
        has_cell(*b, col, row),
        batch_columns(*b)[col as int].ty.kind() == Kind::LargeBinary,
        cell_at(*b, col, row) != Cell::Null,
    ensures
        cell_at(*b, col, row) == Cell::Bytes(r@),
{
    b.record_batch.column(col).as_binary::<i64>().value(row)
}

/// `StringArray::value`: the text of a cell.
#[verifier::external_body]
pub(crate) fn string_at(b: &Batch, col: usize, row: usize) -> (r: &str)
    requires
        has_cell(*b, col, row),
        batch_columns(*b)[col as int].ty.kind() == Kind::Utf8,
        cell_at(*b, col, row) != Cell::Null,
    ensures
        cell_at(*b, col, row) == Cell::Text(r@),
{
    b.record_batch.column(col).as_string::<i32>().value(row)
}

/// `LargeStringArray::value`: the text of a cell.
#[verifier::external_body]
pub(crate) fn large_string_at(b: &Batch, col: usize, row: usize) -> (r: &str)
    requires
        has_cell(*b, col, row),
        batch_columns(*b)[col as int].ty.kind() == Kind::LargeUtf8,
        cell_at(*b, col, row) != Cell::Null,
    ensures
        cell_at(*b, col, row) == Cell::Text(r@),
{
    b.record_batch.column(col).as_string::<i64>().value(row)
}

/// `PrimitiveArray::value` on an array of integers of 8 to 64 bits: the number of
/// a cell.
#[verifier::external_body]
pub(crate) fn integer_at(b: &Batch, col: usize, row: usize) -> (r: i128)
    requires
        has_cell(*b, col, row),
        batch_columns(*b)[col as int].ty.kind() == Kind::Integer,
        cell_at(*b, col, row) != Cell::Null,
    ensures
        cell_at(*b, col, row) == Cell::Num(r as int),
{
    let column = b.record_batch.column(col);
    match column.data_type() {
        DataType::UInt64 => column.as_primitive::<UInt64Type>().value(row) as i128,
        DataType::UInt32 => column.as_primitive::<UInt32Type>().value(row) as i128,
        DataType::UInt16 => column.as_primitive::<UInt16Type>().value(row) as i128,
        DataType::UInt8 => column.as_primitive::<UInt8Type>().value(row) as i128,
        DataType::Int64 => column.as_primitive::<Int64Type>().value(row) as i128,
        DataType::Int32 => column.as_primitive::<Int32Type>().value(row) as i128,
        DataType::Int16 => column.as_primitive::<Int16Type>().value(row) as i128,
        _ => column.as_primitive::<Int8Type>().value(row) as i128,
    }
}

/// The `Debug` text of a column's `DataType`. Nothing is claimed of it: the
/// metadata of child fields is printed in the order of a hash map.
#[verifier::external_body]
pub(crate) fn type_text(b: &Batch, col: usize) -> (r: String)
    requires
        col < batch_columns(*b).len(),
{
    format!("{:?}", b.record_batch.column(col).data_type())
}

} // verus!
