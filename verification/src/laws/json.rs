//! The JSON texts of the tags read back as what they were written from.

use vstd::prelude::*;

use crate::meta::{
    array_text, column_text, columns_text, comma_parts, escaped, escaped_char, example_object,
    example_text, examples_text, keyword_char, keyword_escaped, keyword_items, keywords_text,
    lemma_with_commas_push, quoted, statements_text, task_text, tasks_text, trimmed, with_commas,
    TaskView,
};

verus! {

/// A JSON value of the kinds that the tags hold.
pub enum Json {
    Text(Seq<char>),
    Flag(bool),
    List(Seq<Json>),
    Record(Seq<(Seq<char>, Json)>),
}

/// A character that may not stand in a JSON string as it is.
pub open spec fn is_control(c: char) -> bool {
    c <= '\u{1f}'
}

/// What an escape in a JSON string stands for: the character behind the backslash
/// tells.
pub open spec fn unescaped(c: char) -> Option<char> {
    if c == '"' || c == '\\' || c == '/' {
        Some(c)
    } else if c == 'b' {
        Some('\u{8}')
    } else if c == 'f' {
        Some('\u{c}')
    } else if c == 'n' {
        Some('\n')
    } else if c == 'r' {
        Some('\r')
    } else if c == 't' {
        Some('\t')
    } else {
        None
    }
}

/// The text of a JSON string, from behind its opening quote, and what follows its
/// closing quote. A control character may not stand in it unescaped; escapes by
/// number are not read.
pub open spec fn read_chars(s: Seq<char>) -> Option<(Seq<char>, Seq<char>)>
    decreases s.len(),
{
    if s.len() == 0 || is_control(s[0]) {
        None
    } else if s[0] == '"' {
        Some((Seq::empty(), s.skip(1)))
    } else if s[0] != '\\' {
        match read_chars(s.skip(1)) {
            Some((t, rest)) => Some((seq![s[0]] + t, rest)),
            None => None,
        }
    } else if s.len() < 2 {
        None
    } else {
        match (unescaped(s[1]), read_chars(s.skip(2))) {
            (Some(c), Some((t, rest))) => Some((seq![c] + t, rest)),
            _ => None,
        }
    }
}

/// Whether text starts with other text.
pub open spec fn starts(s: Seq<char>, with: Seq<char>) -> bool {
    with.is_prefix_of(s)
}

/// The JSON value at the front of a text without white space between its tokens,
/// and what follows it. Numbers and `null` are not read.
pub open spec fn read_value(s: Seq<char>) -> Option<(Json, Seq<char>)>
    decreases s.len(), 0nat,
{
    if s.len() == 0 {
        None
    } else if s[0] == '"' {
        match read_chars(s.skip(1)) {
            Some((t, rest)) => Some((Json::Text(t), rest)),
            None => None,
        }
    } else if s[0] == '[' {
        if s.len() >= 2 && s[1] == ']' {
            Some((Json::List(Seq::empty()), s.skip(2)))
        } else {
            match read_items(s.skip(1)) {
                Some((items, rest)) => Some((Json::List(items), rest)),
                None => None,
            }
        }
    } else if s[0] == '{' {
        if s.len() >= 2 && s[1] == '}' {
            Some((Json::Record(Seq::empty()), s.skip(2)))
        } else {
            match read_members(s.skip(1)) {
                Some((members, rest)) => Some((Json::Record(members), rest)),
                None => None,
            }
        }
    } else if starts(s, "true"@) {
        Some((Json::Flag(true), s.skip(4)))
    } else if starts(s, "false"@) {
        Some((Json::Flag(false), s.skip(5)))
    } else {
        None
    }
}

/// The items of a JSON array, up to its closing bracket, and what follows it.
pub open spec fn read_items(s: Seq<char>) -> Option<(Seq<Json>, Seq<char>)>
    decreases s.len(), 1nat,
{
    match read_value(s) {
        None => None,
        Some((v, rest)) => if rest.len() == 0 || rest.len() > s.len() {
            None
        } else if rest[0] == ']' {
            Some((seq![v], rest.skip(1)))
        } else if rest[0] == ',' {
            match read_items(rest.skip(1)) {
                Some((more, end)) => Some((seq![v] + more, end)),
                None => None,
            }
        } else {
            None
        },
    }
}

/// The members of a JSON object, up to its closing brace, and what follows it.
pub open spec fn read_members(s: Seq<char>) -> Option<(Seq<(Seq<char>, Json)>, Seq<char>)>
    decreases s.len(), 1nat,
{
    if s.len() == 0 || s[0] != '"' {
        None
    } else {
        match read_chars(s.skip(1)) {
            None => None,
            Some((key, colon)) => if colon.len() == 0 || colon.len() > s.len() || colon[0] != ':' {
                None
            } else {
                match read_value(colon.skip(1)) {
                    None => None,
                    Some((v, rest)) => if rest.len() == 0 || rest.len() > s.len() {
                        None
                    } else if rest[0] == '}' {
                        Some((seq![(key, v)], rest.skip(1)))
                    } else if rest[0] == ',' {
                        match read_members(rest.skip(1)) {
                            Some((more, end)) => Some((seq![(key, v)] + more, end)),
                            None => None,
                        }
                    } else {
                        None
                    },
                }
            },
        }
    }
}

/// The JSON value that a text is.
pub open spec fn read_json(s: Seq<char>) -> Option<Json> {
    match read_value(s) {
        Some((v, rest)) => if rest.len() == 0 {
            Some(v)
        } else {
            None
        },
        None => None,
    }
}

/// Text with no control character but newlines.
pub open spec fn plain(t: Seq<char>) -> bool {
    forall|i: int| 0 <= i < t.len() ==> !is_control(#[trigger] t[i]) || t[i] == '\n'
}

/// A value whose texts are all plain.
pub open spec fn plain_value(v: Json) -> bool
    decreases v,
{
    match v {
        Json::Text(t) => plain(t),
        Json::Flag(_) => true,
        Json::List(items) => plain_items(items),
        Json::Record(members) => plain_members(members),
    }
}

/// Items whose texts are all plain.
pub open spec fn plain_items(items: Seq<Json>) -> bool
    decreases items,
{
    items.len() > 0 ==> plain_value(items[0]) && plain_items(items.drop_first())
}

/// Members whose names and texts are all plain.
pub open spec fn plain_members(members: Seq<(Seq<char>, Json)>) -> bool
    decreases members,
{
    members.len() > 0 ==> plain(members[0].0) && plain_value(members[0].1) && plain_members(
        members.drop_first(),
    )
}

/// The text of a value.
pub open spec fn json_text(v: Json) -> Seq<char>
    decreases v,
{
    match v {
        Json::Text(t) => quoted(t),
        Json::Flag(b) => if b {
            "true"@
        } else {
            "false"@
        },
        Json::List(items) => array_text(items_text(items)),
        Json::Record(members) => seq!['{'] + with_commas(members_text(members)) + seq!['}'],
    }
}

/// The texts of items.
pub open spec fn items_text(items: Seq<Json>) -> Seq<Seq<char>>
    decreases items,
{
    if items.len() == 0 {
        Seq::empty()
    } else {
        seq![json_text(items[0])] + items_text(items.drop_first())
    }
}

/// The text of a member with its name.
pub open spec fn member_text(name: Seq<char>, value: Seq<char>) -> Seq<char> {
    quoted(name) + seq![':'] + value
}

/// The texts of members.
pub open spec fn members_text(members: Seq<(Seq<char>, Json)>) -> Seq<Seq<char>>
    decreases members,
{
    if members.len() == 0 {
        Seq::empty()
    } else {
        seq![member_text(members[0].0, json_text(members[0].1))] + members_text(
            members.drop_first(),
        )
    }
}

/// Text is escaped character by character, from the front too.
proof fn lemma_escaped_front(t: Seq<char>)
    requires
        t.len() > 0,
    ensures
        escaped(t) == escaped_char(t[0]) + escaped(t.drop_first()),
    decreases t.len(),
{
    if t.len() == 1 {
        assert(t.drop_last() =~= Seq::<char>::empty());
        assert(t.drop_first() =~= Seq::<char>::empty());
        assert(escaped(Seq::<char>::empty()) =~= Seq::<char>::empty());
        assert(escaped(t) =~= escaped_char(t[0]) + escaped(t.drop_first()));
    } else {
        lemma_escaped_front(t.drop_last());
        assert(t.drop_last().drop_first() =~= t.drop_first().drop_last());
        assert(escaped(t) =~= escaped_char(t[0]) + escaped(t.drop_first()));
    }
}

/// Items with commas between them start with the first item.
proof fn lemma_with_commas_front(items: Seq<Seq<char>>)
    requires
        items.len() > 1,
    ensures
        with_commas(items) == items[0] + seq![','] + with_commas(items.drop_first()),
    decreases items.len(),
{
    if items.len() == 2 {
        assert(items.drop_last() =~= seq![items[0]]);
        assert(items.drop_first() =~= seq![items[1]]);
        assert(with_commas(items.drop_last()) == items[0]);
        assert(with_commas(items.drop_first()) == items[1]);
    } else {
        lemma_with_commas_front(items.drop_last());
        assert(items.drop_last().drop_first() =~= items.drop_first().drop_last());
        assert(with_commas(items) =~= items[0] + seq![','] + with_commas(items.drop_first()));
    }
}

/// Escaped text reads back.
proof fn lemma_read_chars(t: Seq<char>, rest: Seq<char>)
    requires
        plain(t),
    ensures
        read_chars(escaped(t) + seq!['"'] + rest) == Some((t, rest)),
    decreases t.len(),
{
    let s = escaped(t) + seq!['"'] + rest;
    if t.len() == 0 {
        assert(s.skip(1) =~= rest);
        assert(t =~= Seq::<char>::empty());
    } else {
        let tail = t.drop_first();
        let after = escaped(tail) + seq!['"'] + rest;
        lemma_escaped_front(t);
        assert forall|i: int| 0 <= i < tail.len() implies !is_control(#[trigger] tail[i])
            || tail[i] == '\n' by {
            assert(tail[i] == t[i + 1]);
        }
        lemma_read_chars(tail, rest);
        assert(!is_control(t[0]) || t[0] == '\n');
        assert(s =~= escaped_char(t[0]) + after);
        assert(s.skip(escaped_char(t[0]).len() as int) =~= after);
        assert(seq![t[0]] + tail =~= t);
    }
}

/// A value's text is not empty and starts with the mark of its kind.
proof fn lemma_text_start(v: Json)
    ensures
        json_text(v).len() > 0,
        json_text(v)[0] != ']',
{
    reveal_strlit("true");
    reveal_strlit("false");
}

/// The text of a plain value reads back as that value.
pub proof fn lemma_read_value(v: Json, rest: Seq<char>)
    requires
        plain_value(v),
    ensures
        read_value(json_text(v) + rest) == Some((v, rest)),
    decreases v,
{
    let s = json_text(v) + rest;
    match v {
        Json::Text(t) => {
            lemma_read_chars(t, rest);
            assert(s.skip(1) =~= escaped(t) + seq!['"'] + rest);
        },
        Json::Flag(b) => {
            reveal_strlit("true");
            reveal_strlit("false");
            if b {
                assert(starts(s, "true"@)) by {
                    assert("true"@ =~= s.take(4));
                }
                assert(s.skip(4) =~= rest);
            } else {
                assert(!starts(s, "true"@)) by {
                    assert(s[0] == 'f');
                    assert("true"@[0] == 't');
                    if starts(s, "true"@) {
                        assert(s.take(4)[0] == s[0]);
                    }
                }
                assert(starts(s, "false"@)) by {
                    assert("false"@ =~= s.take(5));
                }
                assert(s.skip(5) =~= rest);
            }
        },
        Json::List(items) => {
            if items.len() == 0 {
                assert(items_text(items) =~= Seq::<Seq<char>>::empty());
                assert(s.skip(2) =~= rest);
                assert(items =~= Seq::<Json>::empty());
            } else {
                lemma_read_items(items, rest);
                lemma_text_start(items[0]);
                let inner = with_commas(items_text(items));
                lemma_commas_start(items_text(items));
                assert(s.skip(1) =~= inner + seq![']'] + rest);
                assert(s[1] == inner[0]);
            }
        },
        Json::Record(members) => {
            if members.len() == 0 {
                assert(members_text(members) =~= Seq::<Seq<char>>::empty());
                assert(s.skip(2) =~= rest);
                assert(members =~= Seq::<(Seq<char>, Json)>::empty());
            } else {
                lemma_read_members(members, rest);
                let inner = with_commas(members_text(members));
                lemma_commas_start(members_text(members));
                assert(s.skip(1) =~= inner + seq!['}'] + rest);
                assert(s[1] == inner[0]);
            }
        },
    }
}

/// Texts with commas between them start as the first does.
proof fn lemma_commas_start(items: Seq<Seq<char>>)
    requires
        items.len() > 0,
        items[0].len() > 0,
    ensures
        with_commas(items).len() > 0,
        with_commas(items)[0] == items[0][0],
{
    if items.len() > 1 {
        lemma_with_commas_front(items);
    }
}

/// The texts of plain items read back.
proof fn lemma_read_items(items: Seq<Json>, rest: Seq<char>)
    requires
        items.len() > 0,
        plain_items(items),
    ensures
        read_items(with_commas(items_text(items)) + seq![']'] + rest) == Some((items, rest)),
    decreases items,
{
    let texts = items_text(items);
    let s = with_commas(texts) + seq![']'] + rest;
    let tail = items.drop_first();
    let first = json_text(items[0]);
    assert(texts[0] == first);
    assert(texts.drop_first() =~= items_text(tail));
    if items.len() == 1 {
        assert(tail =~= Seq::<Json>::empty());
        let end = seq![']'] + rest;
        lemma_read_value(items[0], end);
        assert(s =~= first + end);
        assert(end.skip(1) =~= rest);
        assert(seq![items[0]] =~= items);
    } else {
        lemma_items_text_len(tail);
        lemma_with_commas_front(texts);
        let more = with_commas(items_text(tail)) + seq![']'] + rest;
        let end = seq![','] + more;
        lemma_read_value(items[0], end);
        lemma_read_items(tail, rest);
        assert(s =~= first + end);
        assert(end.skip(1) =~= more);
        assert(seq![items[0]] + tail =~= items);
    }
}

/// There is a text for each item.
proof fn lemma_items_text_len(items: Seq<Json>)
    ensures
        items_text(items).len() == items.len(),
        forall|i: int|
            0 <= i < items.len() ==> #[trigger] items_text(items)[i] == json_text(items[i]),
    decreases items.len(),
{
    if items.len() > 0 {
        let tail = items.drop_first();
        lemma_items_text_len(tail);
        assert forall|i: int| 0 <= i < items.len() implies #[trigger] items_text(items)[i]
            == json_text(items[i]) by {
            if i > 0 {
                assert(items_text(items)[i] == items_text(tail)[i - 1]);
                assert(tail[i - 1] == items[i]);
            }
        }
    }
}

/// There is a text for each member.
proof fn lemma_members_text_len(members: Seq<(Seq<char>, Json)>)
    ensures
        members_text(members).len() == members.len(),
        forall|i: int|
            0 <= i < members.len() ==> #[trigger] members_text(members)[i] == member_text(
                members[i].0,
                json_text(members[i].1),
            ),
    decreases members.len(),
{
    if members.len() > 0 {
        let tail = members.drop_first();
        lemma_members_text_len(tail);
        assert forall|i: int| 0 <= i < members.len() implies #[trigger] members_text(members)[i]
            == member_text(members[i].0, json_text(members[i].1)) by {
            if i > 0 {
                assert(members_text(members)[i] == members_text(tail)[i - 1]);
                assert(tail[i - 1] == members[i]);
            }
        }
    }
}

/// The texts of plain members read back.
proof fn lemma_read_members(members: Seq<(Seq<char>, Json)>, rest: Seq<char>)
    requires
        members.len() > 0,
        plain_members(members),
    ensures
        read_members(with_commas(members_text(members)) + seq!['}'] + rest) == Some(
            (members, rest),
        ),
    decreases members,
{
    let texts = members_text(members);
    let s = with_commas(texts) + seq!['}'] + rest;
    let tail = members.drop_first();
    let (name, v) = members[0];
    let first = member_text(name, json_text(v));
    assert(texts[0] == first);
    assert(texts.drop_first() =~= members_text(tail));
    let end = if members.len() == 1 {
        seq!['}'] + rest
    } else {
        seq![','] + (with_commas(members_text(tail)) + seq!['}'] + rest)
    };
    if members.len() == 1 {
        assert(tail =~= Seq::<(Seq<char>, Json)>::empty());
        assert(end.skip(1) =~= rest);
        assert(seq![(name, v)] =~= members);
    } else {
        lemma_members_text_len(tail);
        lemma_with_commas_front(texts);
        lemma_read_members(tail, rest);
        assert(end.skip(1) =~= with_commas(members_text(tail)) + seq!['}'] + rest);
        assert(seq![(name, v)] + tail =~= members);
    }
    assert(s =~= first + end);
    let colon = seq![':'] + (json_text(v) + end);
    lemma_read_chars(name, colon);
    assert(s.skip(1) =~= escaped(name) + seq!['"'] + colon);
    assert(colon.skip(1) =~= json_text(v) + end);
    lemma_read_value(v, end);
}

/// A value that a text is whole reads back.
proof fn lemma_read_json(v: Json)
    requires
        plain_value(v),
    ensures
        read_json(json_text(v)) == Some(v),
{
    let none = Seq::<char>::empty();
    lemma_read_value(v, none);
    assert(json_text(v) + none =~= json_text(v));
}

/// Whether a character stands in a JSON string as it is.
pub open spec fn is_bare(c: char) -> bool {
    c != '\\' && c != '"' && !is_control(c)
}

/// Text that needs no escape is not changed.
proof fn lemma_escaped_bare(t: Seq<char>)
    requires
        forall|i: int| 0 <= i < t.len() ==> is_bare(#[trigger] t[i]),
    ensures
        escaped(t) == t,
        plain(t),
    decreases t.len(),
{
    if t.len() > 0 {
        let most = t.drop_last();
        assert forall|i: int| 0 <= i < most.len() implies is_bare(#[trigger] most[i]) by {
            assert(most[i] == t[i]);
        }
        lemma_escaped_bare(most);
        assert(is_bare(t[t.len() - 1]));
        assert(escaped(t) =~= t);
    } else {
        assert(escaped(t) =~= t);
    }
}

/// Items of which each is plain are plain.
proof fn lemma_plain_items(items: Seq<Json>)
    requires
        forall|i: int| 0 <= i < items.len() ==> plain_value(#[trigger] items[i]),
    ensures
        plain_items(items),
    decreases items.len(),
{
    if items.len() > 0 {
        let tail = items.drop_first();
        assert forall|i: int| 0 <= i < tail.len() implies plain_value(#[trigger] tail[i]) by {
            assert(tail[i] == items[i + 1]);
        }
        lemma_plain_items(tail);
    }
}

/// A list of values reads back from the array of their texts.
proof fn lemma_read_list(texts: Seq<Seq<char>>, items: Seq<Json>)
    requires
        texts.len() == items.len(),
        forall|i: int|
            0 <= i < items.len() ==> plain_value(#[trigger] items[i]) && json_text(items[i])
                == texts[i],
    ensures
        read_json(array_text(texts)) == Some(Json::List(items)),
{
    lemma_items_text_len(items);
    assert(items_text(items) =~= texts) by {
        assert forall|i: int| 0 <= i < items.len() implies #[trigger] items_text(items)[i]
            == texts[i] by {
            assert(plain_value(items[i]));
        }
    }
    lemma_plain_items(items);
    lemma_read_json(Json::List(items));
}

/// Members of which each is plain are plain.
proof fn lemma_plain_members(members: Seq<(Seq<char>, Json)>)
    requires
        forall|i: int|
            0 <= i < members.len() ==> plain((#[trigger] members[i]).0) && plain_value(
                members[i].1,
            ),
    ensures
        plain_members(members),
    decreases members.len(),
{
    if members.len() > 0 {
        let tail = members.drop_first();
        assert(plain(members[0].0));
        assert forall|i: int| 0 <= i < tail.len() implies plain((#[trigger] tail[i]).0)
            && plain_value(tail[i].1) by {
            assert(tail[i] == members[i + 1]);
        }
        lemma_plain_members(tail);
    }
}

/// The members of a record as text, without the braces.
spec fn inside(members: Seq<(Seq<char>, Json)>) -> Seq<char> {
    with_commas(members_text(members))
}

/// One more member follows a comma, unless it is the first.
proof fn lemma_inside_push(members: Seq<(Seq<char>, Json)>, name: Seq<char>, v: Json)
    ensures
        inside(members.push((name, v))) == if members.len() == 0 {
            member_text(name, json_text(v))
        } else {
            inside(members) + seq![','] + member_text(name, json_text(v))
        },
{
    let more = members.push((name, v));
    lemma_members_text_len(members);
    lemma_members_text_len(more);
    let text = member_text(name, json_text(v));
    assert(members_text(more) =~= members_text(members).push(text)) by {
        assert forall|i: int| 0 <= i < more.len() implies #[trigger] members_text(more)[i]
            == members_text(members).push(text)[i] by {
            if i < members.len() {
                assert(members_text(members)[i] == member_text(
                    members[i].0,
                    json_text(members[i].1),
                ));
            }
        }
    }
    lemma_with_commas_push(members_text(members), text);
}

/// The value of a `(description, sql)` pair.
pub open spec fn example_value(description: Seq<char>, sql: Seq<char>) -> Json {
    Json::Record(
        seq![("description"@, Json::Text(description)), ("sql"@, Json::Text(sql))],
    )
}

/// The value of examples.
pub open spec fn examples_value(examples: Seq<(&str, &str)>) -> Json {
    Json::List(Seq::new(examples.len(), |i: int| example_value(examples[i].0@, examples[i].1@)))
}

/// The text of an example is that of its value.
proof fn lemma_example_text(description: Seq<char>, sql: Seq<char>)
    ensures
        json_text(example_value(description, sql)) == example_object(description, sql),
        plain(description) && plain(sql) ==> plain_value(example_value(description, sql)),
{
    reveal_strlit("description");
    reveal_strlit("sql");
    lemma_escaped_bare("description"@);
    lemma_escaped_bare("sql"@);
    let none = Seq::<(Seq<char>, Json)>::empty();
    let one = none.push(("description"@, Json::Text(description)));
    let members = one.push(("sql"@, Json::Text(sql)));
    lemma_inside_push(none, "description"@, Json::Text(description));
    lemma_inside_push(one, "sql"@, Json::Text(sql));
    assert(example_value(description, sql) == Json::Record(members)) by {
        assert(seq![("description"@, Json::Text(description)), ("sql"@, Json::Text(sql))]
            =~= members);
    }
    reveal_strlit("{\"description\":");
    reveal_strlit(",\"sql\":");
    reveal_strlit("}");
    assert(json_text(Json::Record(members)) =~= example_object(description, sql));
    if plain(description) && plain(sql) {
        lemma_plain_members(members);
    }
}

/// Examples without control characters but newlines read back from their JSON text:
/// an array with one object for each pair, in order, that has the keys `description`
/// and `sql` and the pair's texts under them. No examples are `[]`.
pub proof fn lemma_examples_read_back(examples: Seq<(&str, &str)>)
    requires
        forall|i: int|
            0 <= i < examples.len() ==> plain((#[trigger] examples[i]).0@) && plain(
                examples[i].1@,
            ),
    ensures
        read_json(examples_text(examples)) == Some(examples_value(examples)),
        examples.len() == 0 ==> examples_text(examples) == "[]"@,
{
    let items = Seq::new(
        examples.len(),
        |i: int| example_value(examples[i].0@, examples[i].1@),
    );
    let texts = Seq::new(examples.len(), |i: int| example_text(examples[i]));
    assert forall|i: int| 0 <= i < items.len() implies plain_value(#[trigger] items[i])
        && json_text(items[i]) == texts[i] by {
        lemma_example_text(examples[i].0@, examples[i].1@);
        assert(plain(examples[i].0@));
    }
    lemma_read_list(texts, items);
    if examples.len() == 0 {
        reveal_strlit("[]");
        assert(texts =~= Seq::<Seq<char>>::empty());
        assert(examples_text(examples) =~= "[]"@);
    }
}

/// The value of a result column.
pub open spec fn column_value(name: Seq<char>, ty: Seq<char>, description: Seq<char>) -> Json {
    Json::Record(
        seq![
            ("name"@, Json::Text(name)),
            ("type"@, Json::Text(ty)),
            ("description"@, Json::Text(description)),
        ],
    )
}

/// The text of a result column is that of its value.
proof fn lemma_column_text(c: (&str, &str, &str))
    ensures
        json_text(column_value(c.0@, c.1@, c.2@)) == column_text(c),
        plain(c.0@) && plain(c.1@) && plain(c.2@) ==> plain_value(
            column_value(c.0@, c.1@, c.2@),
        ),
{
    reveal_strlit("name");
    reveal_strlit("type");
    reveal_strlit("description");
    lemma_escaped_bare("name"@);
    lemma_escaped_bare("type"@);
    lemma_escaped_bare("description"@);
    let none = Seq::<(Seq<char>, Json)>::empty();
    let one = none.push(("name"@, Json::Text(c.0@)));
    let two = one.push(("type"@, Json::Text(c.1@)));
    let members = two.push(("description"@, Json::Text(c.2@)));
    lemma_inside_push(none, "name"@, Json::Text(c.0@));
    lemma_inside_push(one, "type"@, Json::Text(c.1@));
    lemma_inside_push(two, "description"@, Json::Text(c.2@));
    assert(column_value(c.0@, c.1@, c.2@) == Json::Record(members)) by {
        assert(seq![
            ("name"@, Json::Text(c.0@)),
            ("type"@, Json::Text(c.1@)),
            ("description"@, Json::Text(c.2@)),
        ] =~= members);
    }
    reveal_strlit("{\"name\":");
    reveal_strlit(",\"type\":");
    reveal_strlit(",\"description\":");
    reveal_strlit("}");
    assert(json_text(Json::Record(members)) =~= column_text(c));
    if plain(c.0@) && plain(c.1@) && plain(c.2@) {
        lemma_plain_members(members);
    }
}

/// Result columns without control characters but newlines read back from their JSON
/// text: an array with one object for each, in order, that has the keys `name`,
/// `type` and `description`.
pub proof fn lemma_columns_read_back(columns: Seq<(&str, &str, &str)>)
    requires
        forall|i: int|
            0 <= i < columns.len() ==> plain((#[trigger] columns[i]).0@) && plain(columns[i].1@)
                && plain(columns[i].2@),
    ensures
        read_json(columns_text(columns)) == Some(
            Json::List(
                Seq::new(
                    columns.len(),
                    |i: int| column_value(columns[i].0@, columns[i].1@, columns[i].2@),
                ),
            ),
        ),
{
    let items = Seq::new(
        columns.len(),
        |i: int| column_value(columns[i].0@, columns[i].1@, columns[i].2@),
    );
    let texts = Seq::new(columns.len(), |i: int| column_text(columns[i]));
    assert forall|i: int| 0 <= i < items.len() implies plain_value(#[trigger] items[i])
        && json_text(items[i]) == texts[i] by {
        lemma_column_text(columns[i]);
        assert(plain(columns[i].0@));
    }
    lemma_read_list(texts, items);
}

/// The value of a task's statements: a text if there is just one, else a list.
pub open spec fn statements_value(sql: Seq<Seq<char>>) -> Json {
    if sql.len() == 1 {
        Json::Text(sql[0])
    } else {
        Json::List(Seq::new(sql.len(), |i: int| Json::Text(sql[i])))
    }
}

/// The value of a task: what it allows stands in it only where it is allowed.
pub open spec fn task_value(t: TaskView) -> Json {
    let said = seq![
        ("name"@, Json::Text(t.name)),
        ("prompt"@, Json::Text(t.prompt)),
        ("reference_sql"@, statements_value(t.reference_sql)),
    ];
    let named = if t.ignore_column_names {
        said.push(("ignore_column_names"@, Json::Flag(true)))
    } else {
        said
    };
    Json::Record(
        if t.unordered {
            named.push(("unordered"@, Json::Flag(true)))
        } else {
            named
        },
    )
}

/// A task whose texts are all plain.
pub open spec fn plain_task(t: TaskView) -> bool {
    &&& plain(t.name)
    &&& plain(t.prompt)
    &&& forall|i: int| 0 <= i < t.reference_sql.len() ==> plain(#[trigger] t.reference_sql[i])
}

/// The text of statements is that of their value.
proof fn lemma_statements_text(sql: Seq<Seq<char>>)
    requires
        forall|i: int| 0 <= i < sql.len() ==> plain(#[trigger] sql[i]),
    ensures
        json_text(statements_value(sql)) == statements_text(sql),
        plain_value(statements_value(sql)),
{
    if sql.len() == 1 {
        assert(plain(sql[0]));
    } else {
        let items = Seq::new(sql.len(), |i: int| Json::Text(sql[i]));
        lemma_items_text_len(items);
        assert(items_text(items) =~= Seq::new(sql.len(), |i: int| quoted(sql[i])));
        assert forall|i: int| 0 <= i < items.len() implies plain_value(#[trigger] items[i]) by {
            assert(plain(sql[i]));
        }
        lemma_plain_items(items);
    }
}

/// What every task says.
spec fn said_members(t: TaskView) -> Seq<(Seq<char>, Json)> {
    seq![
        ("name"@, Json::Text(t.name)),
        ("prompt"@, Json::Text(t.prompt)),
        ("reference_sql"@, statements_value(t.reference_sql)),
    ]
}

/// What a task says before it says what it allows.
spec fn said_text(t: TaskView) -> Seq<char> {
    "{\"name\":"@ + quoted(t.name) + ",\"prompt\":"@ + quoted(t.prompt) + ",\"reference_sql\":"@
        + statements_text(t.reference_sql)
}

/// What every task says is the text of those members.
proof fn lemma_said_text(t: TaskView)
    requires
        plain_task(t),
    ensures
        seq!['{'] + inside(said_members(t)) == said_text(t),
{
    let sql = statements_value(t.reference_sql);
    lemma_statements_text(t.reference_sql);
    lemma_task_names();
    let none = Seq::<(Seq<char>, Json)>::empty();
    let one = none.push(("name"@, Json::Text(t.name)));
    let two = one.push(("prompt"@, Json::Text(t.prompt)));
    lemma_inside_push(none, "name"@, Json::Text(t.name));
    lemma_inside_push(one, "prompt"@, Json::Text(t.prompt));
    lemma_inside_push(two, "reference_sql"@, sql);
    assert(said_members(t) =~= two.push(("reference_sql"@, sql)));
    let (n, p, q) = (quoted("name"@), quoted("prompt"@), quoted("reference_sql"@));
    let (a, b, c) = (quoted(t.name), quoted(t.prompt), statements_text(t.reference_sql));
    let (colon, comma, brace) = (seq![':'], seq![','], seq!['{']);
    let inner = n + colon + a + comma + (p + colon + b) + comma + (q + colon + c);
    assert(brace + inner =~= (brace + n + colon) + a + (comma + p + colon) + b + (comma + q + colon)
        + c);
}

/// One member that allows something follows what is there.
proof fn lemma_allowed_text(members: Seq<(Seq<char>, Json)>, name: Seq<char>, text: Seq<char>)
    requires
        members.len() > 0,
        seq!['{'] + inside(members) == text,
    ensures
        seq!['{'] + inside(members.push((name, Json::Flag(true)))) == text + (seq![',']
            + member_text(name, "true"@)),
{
    lemma_inside_push(members, name, Json::Flag(true));
    assert(seq!['{'] + inside(members.push((name, Json::Flag(true)))) =~= text + (seq![',']
        + member_text(name, "true"@)));
}

/// One more plain member leaves the members plain.
proof fn lemma_plain_push(members: Seq<(Seq<char>, Json)>, name: Seq<char>, v: Json)
    requires
        plain_members(members),
        plain(name),
        plain_value(v),
    ensures
        plain_members(members.push((name, v))),
    decreases members.len(),
{
    let more = members.push((name, v));
    if members.len() == 0 {
        assert(more.drop_first() =~= Seq::<(Seq<char>, Json)>::empty());
        assert(plain_members(more.drop_first()));
    } else {
        assert(more.drop_first() =~= members.drop_first().push((name, v)));
        lemma_plain_push(members.drop_first(), name, v);
    }
}

/// The text of a task is that of its value.
proof fn lemma_task_text(t: TaskView)
    requires
        plain_task(t),
    ensures
        json_text(task_value(t)) == task_text(t),
        plain_value(task_value(t)),
{
    lemma_said_text(t);
    lemma_task_names();
    lemma_statements_text(t.reference_sql);
    let none = Seq::<char>::empty();
    let said = said_members(t);
    lemma_plain_members(said);
    let (named, first) = if t.ignore_column_names {
        lemma_allowed_text(said, "ignore_column_names"@, said_text(t));
        lemma_plain_push(said, "ignore_column_names"@, Json::Flag(true));
        (
            said.push(("ignore_column_names"@, Json::Flag(true))),
            ",\"ignore_column_names\":true"@,
        )
    } else {
        (said, none)
    };
    assert(said_text(t) + none =~= said_text(t));
    let text = said_text(t) + first;
    let (members, second) = if t.unordered {
        lemma_allowed_text(named, "unordered"@, text);
        lemma_plain_push(named, "unordered"@, Json::Flag(true));
        (named.push(("unordered"@, Json::Flag(true))), ",\"unordered\":true"@)
    } else {
        (named, none)
    };
    assert(text + none =~= text);
    assert(seq!['{'] + inside(members) == text + second);
    assert(task_value(t) == Json::Record(members));
    assert("}"@ =~= seq!['}']) by {
        reveal_strlit("}");
    }
}

/// How the keys of a task stand in its text.
proof fn lemma_task_names()
    ensures
        plain("name"@),
        "{\"name\":"@ == seq!['{'] + quoted("name"@) + seq![':'],
        plain("prompt"@),
        ",\"prompt\":"@ == seq![','] + quoted("prompt"@) + seq![':'],
        plain("reference_sql"@),
        ",\"reference_sql\":"@ == seq![','] + quoted("reference_sql"@) + seq![':'],
        plain("ignore_column_names"@),
        ",\"ignore_column_names\":true"@ == seq![','] + member_text(
            "ignore_column_names"@,
            "true"@,
        ),
        plain("unordered"@),
        ",\"unordered\":true"@ == seq![','] + member_text("unordered"@, "true"@),
{
    assert(plain("name"@) && "{\"name\":"@ == seq!['{'] + quoted("name"@) + seq![':']) by {
        reveal_strlit("name");
        reveal_strlit("{\"name\":");
        lemma_escaped_bare("name"@);
        assert("{\"name\":"@ =~= seq!['{'] + quoted("name"@) + seq![':']);
    }
    assert(plain("prompt"@) && ",\"prompt\":"@ == seq![','] + quoted("prompt"@) + seq![':']) by {
        reveal_strlit("prompt");
        reveal_strlit(",\"prompt\":");
        lemma_escaped_bare("prompt"@);
        assert(",\"prompt\":"@ =~= seq![','] + quoted("prompt"@) + seq![':']);
    }
    assert(plain("reference_sql"@) && ",\"reference_sql\":"@ == seq![','] + quoted(
        "reference_sql"@,
    ) + seq![':']) by {
        reveal_strlit("reference_sql");
        reveal_strlit(",\"reference_sql\":");
        lemma_escaped_bare("reference_sql"@);
        assert(",\"reference_sql\":"@ =~= seq![','] + quoted("reference_sql"@) + seq![':']);
    }
    assert(plain("ignore_column_names"@) && ",\"ignore_column_names\":true"@ == seq![',']
        + member_text("ignore_column_names"@, "true"@)) by {
        reveal_strlit("ignore_column_names");
        reveal_strlit(",\"ignore_column_names\":true");
        reveal_strlit("true");
        lemma_escaped_bare("ignore_column_names"@);
        assert(",\"ignore_column_names\":true"@ =~= seq![','] + member_text(
            "ignore_column_names"@,
            "true"@,
        ));
    }
    assert(plain("unordered"@) && ",\"unordered\":true"@ == seq![','] + member_text(
        "unordered"@,
        "true"@,
    )) by {
        reveal_strlit("unordered");
        reveal_strlit(",\"unordered\":true");
        reveal_strlit("true");
        lemma_escaped_bare("unordered"@);
        assert(",\"unordered\":true"@ =~= seq![','] + member_text("unordered"@, "true"@));
    }
}

/// Tasks without control characters but newlines read back from their JSON text, in
/// order.
pub proof fn lemma_tasks_read_back(tasks: Seq<TaskView>)
    requires
        forall|i: int| 0 <= i < tasks.len() ==> plain_task(#[trigger] tasks[i]),
    ensures
        read_json(tasks_text(tasks)) == Some(
            Json::List(Seq::new(tasks.len(), |i: int| task_value(tasks[i]))),
        ),
{
    let items = Seq::new(tasks.len(), |i: int| task_value(tasks[i]));
    let texts = Seq::new(tasks.len(), |i: int| task_text(tasks[i]));
    assert forall|i: int| 0 <= i < items.len() implies plain_value(#[trigger] items[i])
        && json_text(items[i]) == texts[i] by {
        assert(plain_task(tasks[i]));
        lemma_task_text(tasks[i]);
    }
    lemma_read_list(texts, items);
}

/// Text without control characters.
pub open spec fn without_controls(t: Seq<char>) -> bool {
    forall|i: int| 0 <= i < t.len() ==> !is_control(#[trigger] t[i])
}

/// The keywords among some parts: trimmed, the empty left out.
pub open spec fn keywords_of(parts: Seq<Seq<char>>) -> Seq<Seq<char>>
    decreases parts.len(),
{
    if parts.len() == 0 {
        Seq::empty()
    } else {
        let before = keywords_of(parts.drop_last());
        let k = trimmed(parts.last());
        if k.len() == 0 {
            before
        } else {
            before.push(k)
        }
    }
}

/// Without control characters a keyword is escaped as other text is.
proof fn lemma_keyword_escaped(t: Seq<char>)
    requires
        without_controls(t),
    ensures
        keyword_escaped(t) == escaped(t),
    decreases t.len(),
{
    if t.len() > 0 {
        let most = t.drop_last();
        assert forall|i: int| 0 <= i < most.len() implies !is_control(#[trigger] most[i]) by {
            assert(most[i] == t[i]);
        }
        lemma_keyword_escaped(most);
        assert(!is_control(t[t.len() - 1]));
        assert(keyword_char(t.last()) =~= escaped_char(t.last()));
    }
}

/// The texts of keywords are those of their values.
proof fn lemma_keyword_items(parts: Seq<Seq<char>>)
    requires
        forall|i: int| 0 <= i < parts.len() ==> without_controls(trimmed(#[trigger] parts[i])),
    ensures
        keyword_items(parts).len() == keywords_of(parts).len(),
        forall|i: int|
            0 <= i < keywords_of(parts).len() ==> plain(#[trigger] keywords_of(parts)[i])
                && keyword_items(parts)[i] == quoted(keywords_of(parts)[i]),
    decreases parts.len(),
{
    if parts.len() > 0 {
        let most = parts.drop_last();
        assert forall|i: int| 0 <= i < most.len() implies without_controls(
            trimmed(#[trigger] most[i]),
        ) by {
            assert(most[i] == parts[i]);
        }
        lemma_keyword_items(most);
        let k = trimmed(parts.last());
        assert(without_controls(trimmed(parts[parts.len() - 1])));
        lemma_keyword_escaped(k);
        assert(plain(k));
        assert forall|i: int| 0 <= i < keywords_of(parts).len() implies plain(
            #[trigger] keywords_of(parts)[i],
        ) && keyword_items(parts)[i] == quoted(keywords_of(parts)[i]) by {
            if i < keywords_of(most).len() {
                assert(keywords_of(parts)[i] == keywords_of(most)[i]);
                assert(keyword_items(parts)[i] == keyword_items(most)[i]);
            }
        }
    }
}

/// Keywords without control characters read back from their JSON text: an array of
/// the parts between the commas, trimmed, the empty left out.
pub proof fn lemma_keywords_read_back(keywords: Seq<char>)
    requires
        forall|i: int|
            0 <= i < comma_parts(keywords).len() ==> without_controls(
                trimmed(#[trigger] comma_parts(keywords)[i]),
            ),
    ensures
        read_json(keywords_text(keywords)) == Some(
            Json::List(
                Seq::new(
                    keywords_of(comma_parts(keywords)).len(),
                    |i: int| Json::Text(keywords_of(comma_parts(keywords))[i]),
                ),
            ),
        ),
{
    let kept = keywords_of(comma_parts(keywords));
    let items = Seq::new(kept.len(), |i: int| Json::Text(kept[i]));
    let texts = keyword_items(comma_parts(keywords));
    lemma_keyword_items(comma_parts(keywords));
    assert forall|i: int| 0 <= i < items.len() implies plain_value(#[trigger] items[i])
        && json_text(items[i]) == texts[i] by {
        assert(plain(kept[i]));
    }
    lemma_read_list(texts, items);
}

} // verus!
