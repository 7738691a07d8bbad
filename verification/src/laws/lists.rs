//! Lists in texts: keywords between commas, and what is said of the result columns.

use vstd::prelude::*;

use crate::arrow_map::{flow_fields, FLOW_COLUMNS};
use crate::columns::TypeView;
use crate::flows::docs::{FLOW_RESULT_COLUMNS, INET_STRUCT};
use crate::meta::{comma_parts, is_white, keywords_text, object_tags_view, trimmed};

verus! {

/// Texts with commas between them.
pub open spec fn comma_joined(parts: Seq<Seq<char>>) -> Seq<char>
    decreases parts.len(),
{
    if parts.len() == 0 {
        Seq::empty()
    } else if parts.len() == 1 {
        parts[0]
    } else {
        comma_joined(parts.drop_last()) + seq![','] + parts.last()
    }
}

/// A text falls apart at its commas: no part holds one, and the parts with commas between
/// them are the text again.
pub proof fn lemma_parts_join(s: Seq<char>)
    ensures
        comma_parts(s).len() > 0,
        comma_joined(comma_parts(s)) == s,
        forall|i: int, k: int|
            0 <= i < comma_parts(s).len() && 0 <= k < comma_parts(s)[i].len()
                ==> #[trigger] comma_parts(s)[i][k] != ',',
    decreases s.len(),
{
    let parts = comma_parts(s);
    if s.len() > 0 {
        let front = s.drop_last();
        let before = comma_parts(front);
        lemma_parts_join(front);
        if s.last() == ',' {
            assert(parts.drop_last() =~= before);
            assert(comma_joined(parts) == comma_joined(before) + seq![','] + Seq::<char>::empty());
            assert(comma_joined(parts) =~= s);
        } else {
            let last = before.last().push(s.last());
            assert(parts.drop_last() =~= before.drop_last());
            assert(parts.last() == last);
            if before.len() > 1 {
                let head = comma_joined(before.drop_last());
                assert(front == head + seq![','] + before.last());
                assert(comma_joined(parts) == head + seq![','] + last);
                assert(comma_joined(parts) =~= front.push(s.last()));
            } else {
                assert(parts =~= seq![last]);
                assert(front == before[0] && before.last() == before[0]);
                assert(comma_joined(parts) == front.push(s.last()));
            }
            assert(front.push(s.last()) =~= s);
            assert forall|i: int, k: int|
                0 <= i < parts.len() && 0 <= k < parts[i].len() implies #[trigger] parts[i][k]
                != ',' by {
                if i < parts.len() - 1 {
                    assert(parts[i] == before[i]);
                    assert(before[i][k] != ',');
                } else if k < before.last().len() {
                    assert(before[before.len() - 1][k] != ',');
                }
            }
        }
    }
}

/// The part of a text between two places, with nothing but white space around it.
pub open spec fn stands_alone(s: Seq<char>, i: int, j: int) -> bool {
    &&& 0 <= i <= j <= s.len()
    &&& forall|k: int| 0 <= k < i ==> is_white(#[trigger] s[k])
    &&& forall|k: int| j <= k < s.len() ==> is_white(#[trigger] s[k])
}

/// Trimming takes white space off both ends and nothing else: what is left begins and ends
/// with something else, and stands in the text between the two places that are given.
pub proof fn lemma_trimmed(s: Seq<char>) -> (r: (int, int))
    ensures
        stands_alone(s, r.0, r.1),
        trimmed(s) == s.subrange(r.0, r.1),
        trimmed(s).len() > 0 ==> !is_white(trimmed(s)[0]) && !is_white(trimmed(s).last()),
    decreases s.len(),
{
    if s.len() == 0 {
        assert(s.subrange(0, 0) =~= s);
        (0, 0)
    } else if is_white(s[0]) {
        let rest = s.drop_first();
        let (i, j) = lemma_trimmed(rest);
        lemma_white_before(s, i, j);
        (i + 1, j + 1)
    } else if is_white(s.last()) {
        let rest = s.drop_last();
        let (i, j) = lemma_trimmed(rest);
        lemma_white_behind(s, i, j);
        (i, j)
    } else {
        assert(s.subrange(0, s.len() as int) =~= s);
        (0, s.len() as int)
    }
}

/// White space in front changes nothing.
proof fn lemma_white_before(s: Seq<char>, i: int, j: int)
    requires
        s.len() > 0,
        is_white(s[0]),
        stands_alone(s.drop_first(), i, j),
    ensures
        stands_alone(s, i + 1, j + 1),
        s.subrange(i + 1, j + 1) == s.drop_first().subrange(i, j),
{
    let rest = s.drop_first();
    assert(s.subrange(i + 1, j + 1) =~= rest.subrange(i, j));
    assert forall|k: int| 0 <= k < i + 1 implies is_white(#[trigger] s[k]) by {
        if k > 0 {
            assert(s[k] == rest[k - 1]);
        }
    }
    assert forall|k: int| j + 1 <= k < s.len() implies is_white(#[trigger] s[k]) by {
        assert(s[k] == rest[k - 1]);
    }
}

/// White space behind changes nothing.
proof fn lemma_white_behind(s: Seq<char>, i: int, j: int)
    requires
        s.len() > 0,
        is_white(s.last()),
        stands_alone(s.drop_last(), i, j),
    ensures
        stands_alone(s, i, j),
        s.subrange(i, j) == s.drop_last().subrange(i, j),
{
    let rest = s.drop_last();
    assert(s.subrange(i, j) =~= rest.subrange(i, j));
    assert forall|k: int| 0 <= k < i implies is_white(#[trigger] s[k]) by {
        assert(s[k] == rest[k]);
    }
    assert forall|k: int| j <= k < s.len() implies is_white(#[trigger] s[k]) by {
        if k < rest.len() {
            assert(s[k] == rest[k]);
        }
    }
}

/// Each text about an object goes under its own tag.
pub proof fn lemma_object_tags(
    title: Seq<char>,
    doc_llm: Seq<char>,
    doc_md: Seq<char>,
    keywords: Seq<char>,
)
    ensures
        ({
            let tags = object_tags_view(title, doc_llm, doc_md, keywords);
            &&& tags.len() == 4
            &&& tags[0] == ("vgi.title"@, title)
            &&& tags[1] == ("vgi.doc_llm"@, doc_llm)
            &&& tags[2] == ("vgi.doc_md"@, doc_md)
            &&& tags[3] == ("vgi.keywords"@, keywords_text(keywords))
        }),
{
}

/// How DuckDB calls an Arrow type.
pub open spec fn duckdb_name(ty: TypeView) -> Seq<char> {
    match ty {
        TypeView::Utf8 => "VARCHAR"@,
        TypeView::U8 => "UTINYINT"@,
        TypeView::U16 => "USMALLINT"@,
        TypeView::U32 => "UINTEGER"@,
        TypeView::U64 => "UBIGINT"@,
        TypeView::Micros(_) => "TIMESTAMP WITH TIME ZONE"@,
        TypeView::Struct(_) => "STRUCT(ip_type UTINYINT, address HUGEINT, mask USMALLINT)"@,
        _ => "MAP(VARCHAR, BLOB)"@,
    }
}

/// The result columns are described as they come: the same names in the same order, each
/// with the type that it has.
pub proof fn lemma_described_columns(i: int)
    requires
        0 <= i < 28,
    ensures
        FLOW_RESULT_COLUMNS@.len() == 28,
        flow_fields().len() == 28,
        FLOW_RESULT_COLUMNS@[i].0@ == flow_fields()[i].name,
        FLOW_RESULT_COLUMNS@[i].1@ == duckdb_name(flow_fields()[i].ty),
{
    assert(FLOW_COLUMNS@.len() == 28);
    assert(INET_STRUCT@ == "STRUCT(ip_type UTINYINT, address HUGEINT, mask USMALLINT)"@);
}

} // verus!
