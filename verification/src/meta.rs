//! Discovery and description metadata: what the worker tells the database and
//! its tooling about each object, as tags whose structured values are JSON text.
//!
//! - `vgi.title`: a display name
//! - `vgi.doc_llm`: concise prose aimed at language models
//! - `vgi.doc_md`: a short Markdown description
//! - `vgi.keywords`: a JSON array of search terms and synonyms

use vstd::prelude::*;

use crate::text::{chars_of, views};

verus! {

/// NetFlow v5 in hexadecimal, two records: a TCP and a UDP flow.
pub const SAMPLE_V5_HEX: &'static str = "00050002000186a06553f100000000000000000a000100000a0000010a0000020a0000fe000100020000000a000003e800015f900001731804d2005000180600fbf4fbf518180000c0a80101080808080a0000fe0001000200000002000000c800015f900001731814e900350000110000003b4118180000";

/// NetFlow v9 in hexadecimal: a template and one data record.
pub const SAMPLE_V9_HEX: &'static str = "00090002000186a06553f1000000001400000001000000240100000700080004000c000400070002000b000200040001000200040001000401000019ac100001ac100002045700160600000003000000b4";

/// IPFIX in hexadecimal: a template and one fully decodable IPv4/TCP flow.
pub const SAMPLE_IPFIX_HEX: &'static str = "000a006d6553f100000000070000002a0002002c0100000900080004000c000400070002000b0002000400010001000800020008009800080099000801000031cb007105c633640980e801bb06000000000016e36000000000000004b00000018bcfe568000000018bcfe58f10";

/// sFlow v5 in hexadecimal: one flow sample and one counter sample.
pub const SAMPLE_SFLOW_HEX: &'static str = "00000005000000010a0000090000000000000001000003e8000000020000000100000048000000640000000000001000000000000000000000000005000000060000000100000003000000200000004000000006c000020ac00002140000c738000000500000001800000000000000020000006c000000c80000000000000001000000010000005800000000000000000000000000000000000000000000000000000000000000000000000000000000000000000000000000000000000000000000000000000000000000000000000000000000000000000000000000000000";

/// A character as it stands inside a JSON string: backslash, quote and newline
/// are escaped.
pub open spec fn escaped_char(c: char) -> Seq<char> {
    if c == '\\' {
        seq!['\\', '\\']
    } else if c == '"' {
        seq!['\\', '"']
    } else if c == '\n' {
        seq!['\\', 'n']
    } else {
        seq![c]
    }
}

/// Text as it stands inside a JSON string.
pub open spec fn escaped(s: Seq<char>) -> Seq<char>
    decreases s.len(),
{
    if s.len() == 0 {
        Seq::empty()
    } else {
        escaped(s.drop_last()) + escaped_char(s.last())
    }
}

/// Text without newlines stands inside a JSON string on one line, and nothing that
/// it holds ends the string: no newline remains, and every quote follows a
/// backslash.
pub proof fn lemma_escaped_stays_inside(s: Seq<char>)
    ensures
        forall|i: int|
            #![trigger escaped(s)[i]]
            0 <= i < escaped(s).len() ==> escaped(s)[i] != '\n' && (escaped(s)[i] == '"' ==> i > 0
                && escaped(s)[i - 1] == '\\'),
    decreases s.len(),
{
    if s.len() > 0 {
        lemma_escaped_stays_inside(s.drop_last());
        let (a, b) = (escaped(s.drop_last()), escaped_char(s.last()));
        assert forall|i: int| #![trigger escaped(s)[i]] 0 <= i < escaped(s).len() implies escaped(
            s,
        )[i] != '\n' && (escaped(s)[i] == '"' ==> i > 0 && escaped(s)[i - 1] == '\\') by {
            if i < a.len() {
                assert(escaped(s)[i] == a[i]);
            } else {
                assert(escaped(s)[i] == b[i - a.len()]);
            }
        }
    }
}

/// A JSON string.
pub open spec fn quoted(s: Seq<char>) -> Seq<char> {
    seq!['"'] + escaped(s) + seq!['"']
}

/// Texts with commas between them.
pub open spec fn with_commas(items: Seq<Seq<char>>) -> Seq<char>
    decreases items.len(),
{
    if items.len() == 0 {
        Seq::empty()
    } else if items.len() == 1 {
        items[0]
    } else {
        with_commas(items.drop_last()) + seq![','] + items.last()
    }
}

/// A JSON array of texts.
pub open spec fn array_text(items: Seq<Seq<char>>) -> Seq<char> {
    seq!['['] + with_commas(items) + seq![']']
}

/// The JSON object of an example.
pub open spec fn example_object(description: Seq<char>, sql: Seq<char>) -> Seq<char> {
    "{\"description\":"@ + quoted(description) + ",\"sql\":"@ + quoted(sql) + "}"@
}

/// The JSON object of a `(description, sql)` pair.
pub open spec fn example_text(e: (&str, &str)) -> Seq<char> {
    example_object(e.0@, e.1@)
}

/// The JSON array of examples.
pub open spec fn examples_text(examples: Seq<(&str, &str)>) -> Seq<char> {
    array_text(Seq::new(examples.len(), |i: int| example_text(examples[i])))
}

/// The JSON object of a result column.
pub open spec fn column_text(c: (&str, &str, &str)) -> Seq<char> {
    "{\"name\":"@ + quoted(c.0@) + ",\"type\":"@ + quoted(c.1@) + ",\"description\":"@ + quoted(
        c.2@,
    ) + "}"@
}

/// The JSON array of result columns.
pub open spec fn columns_text(columns: Seq<(&str, &str, &str)>) -> Seq<char> {
    array_text(Seq::new(columns.len(), |i: int| column_text(columns[i])))
}

/// A character of the Unicode property White_Space.
pub open spec fn is_white(c: char) -> bool {
    ||| '\u{9}' <= c <= '\u{d}'
    ||| c == ' '
    ||| c == '\u{85}'
    ||| c == '\u{a0}'
    ||| c == '\u{1680}'
    ||| '\u{2000}' <= c <= '\u{200a}'
    ||| c == '\u{2028}'
    ||| c == '\u{2029}'
    ||| c == '\u{202f}'
    ||| c == '\u{205f}'
    ||| c == '\u{3000}'
}

/// Text without white space at either end.
pub open spec fn trimmed(s: Seq<char>) -> Seq<char>
    decreases s.len(),
{
    if s.len() == 0 {
        s
    } else if is_white(s[0]) {
        trimmed(s.drop_first())
    } else if is_white(s.last()) {
        trimmed(s.drop_last())
    } else {
        s
    }
}

/// The parts of a text between commas.
pub open spec fn comma_parts(s: Seq<char>) -> Seq<Seq<char>>
    decreases s.len(),
{
    if s.len() == 0 {
        seq![Seq::empty()]
    } else {
        let before = comma_parts(s.drop_last());
        if s.last() == ',' {
            before.push(Seq::empty())
        } else {
            before.drop_last().push(before.last().push(s.last()))
        }
    }
}

/// The character as it stands inside a keyword: backslash and quote are escaped.
pub open spec fn keyword_char(c: char) -> Seq<char> {
    if c == '\\' || c == '"' {
        seq!['\\', c]
    } else {
        seq![c]
    }
}

/// A keyword's text with its backslashes and quotes escaped.
pub open spec fn keyword_escaped(s: Seq<char>) -> Seq<char>
    decreases s.len(),
{
    if s.len() == 0 {
        Seq::empty()
    } else {
        keyword_escaped(s.drop_last()) + keyword_char(s.last())
    }
}

/// The JSON strings of the keywords among some parts: trimmed, the empty left out.
pub open spec fn keyword_items(parts: Seq<Seq<char>>) -> Seq<Seq<char>>
    decreases parts.len(),
{
    if parts.len() == 0 {
        Seq::empty()
    } else {
        let before = keyword_items(parts.drop_last());
        let k = trimmed(parts.last());
        if k.len() == 0 {
            before
        } else {
            before.push(seq!['"'] + keyword_escaped(k) + seq!['"'])
        }
    }
}

/// The JSON array of comma-separated keywords.
pub open spec fn keywords_text(keywords: Seq<char>) -> Seq<char> {
    array_text(keyword_items(comma_parts(keywords)))
}

/// A tag: what it is called and what it says.
pub open spec fn tag_view(t: (String, String)) -> (Seq<char>, Seq<char>) {
    (t.0@, t.1@)
}

/// What tags say.
pub open spec fn tags_view(tags: Seq<(String, String)>) -> Seq<(Seq<char>, Seq<char>)> {
    Seq::new(tags.len(), |i: int| tag_view(tags[i]))
}

/// One more tag says one thing more.
pub proof fn lemma_tags_push(tags: Seq<(String, String)>, t: (String, String))
    ensures
        tags_view(tags.push(t)) == tags_view(tags).push(tag_view(t)),
{
    assert(tags_view(tags.push(t)) =~= tags_view(tags).push(tag_view(t)));
}

/// Appends text as it stands inside a JSON string.
fn push_escaped(out: &mut String, s: &str)
    ensures
        final(out)@ == old(out)@ + escaped(s@),
{
    let chars = chars_of(s);
    let ghost start = out@;
    let mut i: usize = 0;
    assert(start + escaped(s@.take(0)) =~= start);
    while i < chars.len()
        invariant
            chars@ == s@,
            i <= chars@.len(),
            out@ == start + escaped(s@.take(i as int)),
        decreases chars.len() - i,
    {
        let c = chars[i];
        if c == '\\' {
            out.push('\\');
            out.push('\\');
        } else if c == '"' {
            out.push('\\');
            out.push('"');
        } else if c == '\n' {
            out.push('\\');
            out.push('n');
        } else {
            out.push(c);
        }
        i = i + 1;
        assert(s@.take(i as int).drop_last() =~= s@.take(i - 1));
        assert(out@ =~= start + escaped(s@.take(i as int)));
    }
    assert(s@.take(i as int) =~= s@);
}

/// Appends a JSON string.
fn push_quoted(out: &mut String, s: &str)
    ensures
        final(out)@ == old(out)@ + quoted(s@),
{
    out.push('"');
    push_escaped(out, s);
    out.push('"');
    assert(out@ =~= old(out)@ + quoted(s@));
}

/// The next item of an array follows a comma, unless it is the first.
pub proof fn lemma_with_commas_push(items: Seq<Seq<char>>, item: Seq<char>)
    ensures
        with_commas(items.push(item)) == if items.len() == 0 {
            item
        } else {
            with_commas(items) + seq![','] + item
        },
{
    assert(items.push(item).drop_last() =~= items);
}

/// Encodes `(description, sql)` pairs as the JSON array of a
/// `vgi.executable_examples` tag.
pub fn executable_examples_json(examples: &[(&str, &str)]) -> (r: String)
    ensures
        r@ == examples_text(examples@),
{
    let mut out = String::new();
    out.push('[');
    let ghost items = Seq::new(examples@.len(), |k: int| example_text(examples@[k]));
    let mut i: usize = 0;
    assert(out@ =~= seq!['['] + with_commas(items.take(0)));
    while i < examples.len()
        invariant
            items == Seq::new(examples@.len(), |k: int| example_text(examples@[k])),
            i <= examples@.len(),
            out@ == seq!['['] + with_commas(items.take(i as int)),
        decreases examples.len() - i,
    {
        let (description, sql) = examples[i];
        if i > 0 {
            out.push(',');
        }
        out.append("{\"description\":");
        push_quoted(&mut out, description);
        out.append(",\"sql\":");
        push_quoted(&mut out, sql);
        out.append("}");
        proof {
            lemma_with_commas_push(items.take(i as int), items[i as int]);
            assert(items.take(i + 1) =~= items.take(i as int).push(items[i as int]));
            assert(out@ =~= seq!['['] + with_commas(items.take(i + 1)));
        }
        i = i + 1;
    }
    out.push(']');
    assert(items.take(i as int) =~= items);
    assert(out@ =~= array_text(items));
    out
}

/// Encodes `(name, type, description)` triples as the JSON array of a
/// `vgi.result_columns_schema` tag: one object per returned column, in the order
/// in which the function emits them.
pub fn result_columns_schema_json(cols: &[(&str, &str, &str)]) -> (r: String)
    ensures
        r@ == columns_text(cols@),
{
    let mut out = String::new();
    out.push('[');
    let ghost items = Seq::new(cols@.len(), |k: int| column_text(cols@[k]));
    let mut i: usize = 0;
    assert(out@ =~= seq!['['] + with_commas(items.take(0)));
    while i < cols.len()
        invariant
            items == Seq::new(cols@.len(), |k: int| column_text(cols@[k])),
            i <= cols@.len(),
            out@ == seq!['['] + with_commas(items.take(i as int)),
        decreases cols.len() - i,
    {
        let (name, ty, description) = cols[i];
        if i > 0 {
            out.push(',');
        }
        out.append("{\"name\":");
        push_quoted(&mut out, name);
        out.append(",\"type\":");
        push_quoted(&mut out, ty);
        out.append(",\"description\":");
        push_quoted(&mut out, description);
        out.append("}");
        proof {
            lemma_with_commas_push(items.take(i as int), items[i as int]);
            assert(items.take(i + 1) =~= items.take(i as int).push(items[i as int]));
            assert(out@ =~= seq!['['] + with_commas(items.take(i + 1)));
        }
        i = i + 1;
    }
    out.push(']');
    assert(items.take(i as int) =~= items);
    assert(out@ =~= array_text(items));
    out
}

/// Encodes `(description, sql)` pairs as the JSON array of a
/// `vgi.example_queries` tag: examples that are shown, not run.
pub fn example_queries_json(examples: &[(&str, &str)]) -> (r: String)
    ensures
        r@ == examples_text(examples@),
{
    executable_examples_json(examples)
}

/// Whether a character is white space.
fn white(c: char) -> (r: bool)
    ensures
        r == is_white(c),
{
    ('\u{9}' <= c && c <= '\u{d}') || c == ' ' || c == '\u{85}' || c == '\u{a0}' || c == '\u{1680}'
        || ('\u{2000}' <= c && c <= '\u{200a}') || c == '\u{2028}' || c == '\u{2029}' || c
        == '\u{202f}' || c == '\u{205f}' || c == '\u{3000}'
}

/// Where text without white space at either end starts and ends.
fn trim_bounds(s: &Vec<char>) -> (r: (usize, usize))
    ensures
        r.0 <= r.1 <= s@.len(),
        s@.subrange(r.0 as int, r.1 as int) == trimmed(s@),
{
    let mut a: usize = 0;
    let mut b: usize = s.len();
    assert(s@.subrange(0, b as int) =~= s@);
    while a < b && white(s[a])
        invariant
            a <= b,
            b == s@.len(),
            trimmed(s@.subrange(a as int, b as int)) == trimmed(s@),
        decreases b - a,
    {
        assert(s@.subrange(a as int, b as int).drop_first() =~= s@.subrange(a + 1, b as int));
        a = a + 1;
    }
    while a < b && white(s[b - 1])
        invariant
            a <= b <= s@.len(),
            a < b ==> !is_white(s@[a as int]),
            trimmed(s@.subrange(a as int, b as int)) == trimmed(s@),
        decreases b - a,
    {
        assert(s@.subrange(a as int, b as int).drop_last() =~= s@.subrange(a as int, b - 1));
        b = b - 1;
    }
    (a, b)
}

/// The parts of a text between commas.
fn split_commas(s: &str) -> (r: Vec<Vec<char>>)
    ensures
        views(r@) == comma_parts(s@),
{
    let chars = chars_of(s);
    let mut done: Vec<Vec<char>> = Vec::new();
    let mut part: Vec<char> = Vec::new();
    let mut i: usize = 0;
    assert(comma_parts(s@.take(0)) =~= views(done@).push(part@));
    while i < chars.len()
        invariant
            chars@ == s@,
            i <= chars@.len(),
            comma_parts(s@.take(i as int)) == views(done@).push(part@),
        decreases chars.len() - i,
    {
        let c = chars[i];
        let ghost before = views(done@);
        let ghost was = part@;
        assert(s@.take(i + 1).drop_last() =~= s@.take(i as int));
        if c == ',' {
            done.push(part);
            part = Vec::new();
            assert(views(done@) =~= before.push(was));
        } else {
            part.push(c);
            assert(before.push(was).drop_last() =~= before);
        }
        assert(comma_parts(s@.take(i + 1)) =~= views(done@).push(part@));
        i = i + 1;
    }
    assert(s@.take(i as int) =~= s@);
    let ghost before = views(done@);
    done.push(part);
    assert(views(done@) =~= before.push(part@));
    done
}

/// Appends a keyword's text with its backslashes and quotes escaped.
fn push_keyword(out: &mut String, s: &Vec<char>, from: usize, to: usize)
    requires
        from <= to <= s@.len(),
    ensures
        final(out)@ == old(out)@ + keyword_escaped(s@.subrange(from as int, to as int)),
{
    let ghost start = out@;
    let ghost k = s@.subrange(from as int, to as int);
    let mut i: usize = from;
    assert(start + keyword_escaped(k.take(0)) =~= start);
    while i < to
        invariant
            k == s@.subrange(from as int, to as int),
            from <= i <= to <= s@.len(),
            out@ == start + keyword_escaped(k.take(i - from)),
        decreases to - i,
    {
        let c = s[i];
        if c == '\\' || c == '"' {
            out.push('\\');
        }
        out.push(c);
        assert(k.take(i + 1 - from).drop_last() =~= k.take(i - from));
        assert(out@ =~= start + keyword_escaped(k.take(i + 1 - from)));
        i = i + 1;
    }
    assert(k.take(i - from) =~= k);
}

/// Encodes comma-separated keywords as the JSON array of strings of a
/// `vgi.keywords` tag.
pub fn keywords_json(keywords: &str) -> (r: String)
    ensures
        r@ == keywords_text(keywords@),
{
    let parts = split_commas(keywords);
    let ghost all = comma_parts(keywords@);
    let mut out = String::new();
    out.push('[');
    let mut any = false;
    let mut i: usize = 0;
    assert(out@ =~= seq!['['] + with_commas(keyword_items(all.take(0))));
    while i < parts.len()
        invariant
            views(parts@) == all,
            i <= parts@.len(),
            out@ == seq!['['] + with_commas(keyword_items(all.take(i as int))),
            any == (keyword_items(all.take(i as int)).len() > 0),
        decreases parts.len() - i,
    {
        let (a, b) = trim_bounds(&parts[i]);
        let ghost items = keyword_items(all.take(i as int));
        assert(all.take(i + 1).drop_last() =~= all.take(i as int));
        assert(all[i as int] == parts@[i as int]@);
        if a < b {
            let ghost k = trimmed(all[i as int]);
            if any {
                out.push(',');
            }
            out.push('"');
            push_keyword(&mut out, &parts[i], a, b);
            out.push('"');
            any = true;
            proof {
                let item = seq!['"'] + keyword_escaped(k) + seq!['"'];
                assert(keyword_items(all.take(i + 1)) == items.push(item));
                lemma_with_commas_push(items, item);
                assert(out@ =~= seq!['['] + with_commas(items.push(item)));
            }
        }
        i = i + 1;
    }
    out.push(']');
    assert(all.take(i as int) =~= all);
    assert(out@ =~= array_text(keyword_items(all)));
    out
}

/// One entry of the catalog's `vgi.agent_test_tasks`: a request in words, and the
/// statements that answer it, the last one's output being the answer. The result
/// may be compared by values only, or in any order.
#[derive(Clone, Debug)]
pub struct AgentTask {
    pub name: &'static str,
    pub prompt: String,
    /// One statement, or several that run in order.
    pub reference_sql: Vec<String>,
    pub ignore_column_names: bool,
    pub unordered: bool,
}

/// What a task says.
#[verifier::ext_equal]
pub struct TaskView {
    pub name: Seq<char>,
    pub prompt: Seq<char>,
    pub reference_sql: Seq<Seq<char>>,
    pub ignore_column_names: bool,
    pub unordered: bool,
}

impl View for AgentTask {
    type V = TaskView;

    open spec fn view(&self) -> TaskView {
        TaskView {
            name: self.name@,
            prompt: self.prompt@,
            reference_sql: views(self.reference_sql@),
            ignore_column_names: self.ignore_column_names,
            unordered: self.unordered,
        }
    }
}

/// The JSON value of a task's statements: a string if there is just one, else an
/// array of strings.
pub open spec fn statements_text(sql: Seq<Seq<char>>) -> Seq<char> {
    if sql.len() == 1 {
        quoted(sql[0])
    } else {
        array_text(Seq::new(sql.len(), |i: int| quoted(sql[i])))
    }
}

/// The JSON object of a task.
pub open spec fn task_text(t: TaskView) -> Seq<char> {
    "{\"name\":"@ + quoted(t.name) + ",\"prompt\":"@ + quoted(t.prompt) + ",\"reference_sql\":"@
        + statements_text(t.reference_sql) + (if t.ignore_column_names {
        ",\"ignore_column_names\":true"@
    } else {
        Seq::empty()
    }) + (if t.unordered {
        ",\"unordered\":true"@
    } else {
        Seq::empty()
    }) + "}"@
}

/// The JSON array of tasks.
pub open spec fn tasks_text(tasks: Seq<TaskView>) -> Seq<char> {
    array_text(Seq::new(tasks.len(), |i: int| task_text(tasks[i])))
}

/// Appends the JSON value of a task's statements.
fn push_statements(out: &mut String, sql: &Vec<String>)
    ensures
        final(out)@ == old(out)@ + statements_text(views(sql@)),
{
    let ghost start = out@;
    let ghost all = views(sql@);
    if sql.len() == 1 {
        push_quoted(out, sql[0].as_str());
        return;
    }
    out.push('[');
    let ghost items = Seq::new(all.len(), |k: int| quoted(all[k]));
    let mut i: usize = 0;
    assert(out@ =~= start + (seq!['['] + with_commas(items.take(0))));
    while i < sql.len()
        invariant
            all == views(sql@),
            items == Seq::new(all.len(), |k: int| quoted(all[k])),
            i <= sql@.len(),
            out@ == start + (seq!['['] + with_commas(items.take(i as int))),
        decreases sql.len() - i,
    {
        if i > 0 {
            out.push(',');
        }
        push_quoted(out, sql[i].as_str());
        proof {
            lemma_with_commas_push(items.take(i as int), items[i as int]);
            assert(items.take(i + 1) =~= items.take(i as int).push(items[i as int]));
            assert(out@ =~= start + (seq!['['] + with_commas(items.take(i + 1))));
        }
        i = i + 1;
    }
    out.push(']');
    assert(items.take(i as int) =~= items);
    assert(out@ =~= start + array_text(items));
}

/// Appends the JSON object of a task.
fn push_task(out: &mut String, t: &AgentTask)
    ensures
        final(out)@ == old(out)@ + task_text(t@),
{
    let ghost start = out@;
    out.append("{\"name\":");
    push_quoted(out, t.name);
    out.append(",\"prompt\":");
    push_quoted(out, t.prompt.as_str());
    out.append(",\"reference_sql\":");
    push_statements(out, &t.reference_sql);
    if t.ignore_column_names {
        out.append(",\"ignore_column_names\":true");
    }
    if t.unordered {
        out.append(",\"unordered\":true");
    }
    out.append("}");
    assert(out@ =~= start + task_text(t@));
}

/// Builds the JSON array of the catalog's `vgi.agent_test_tasks` tag.
pub fn agent_test_tasks_json(tasks: &[AgentTask]) -> (r: String)
    ensures
        r@ == tasks_text(views(tasks@)),
{
    let mut out = String::new();
    out.push('[');
    let ghost all = views(tasks@);
    let ghost items = Seq::new(all.len(), |k: int| task_text(all[k]));
    let mut i: usize = 0;
    assert(out@ =~= seq!['['] + with_commas(items.take(0)));
    while i < tasks.len()
        invariant
            all == views(tasks@),
            items == Seq::new(all.len(), |k: int| task_text(all[k])),
            i <= tasks@.len(),
            out@ == seq!['['] + with_commas(items.take(i as int)),
        decreases tasks.len() - i,
    {
        if i > 0 {
            out.push(',');
        }
        push_task(&mut out, &tasks[i]);
        proof {
            lemma_with_commas_push(items.take(i as int), items[i as int]);
            assert(items.take(i + 1) =~= items.take(i as int).push(items[i as int]));
            assert(out@ =~= seq!['['] + with_commas(items.take(i + 1)));
        }
        i = i + 1;
    }
    out.push(']');
    assert(items.take(i as int) =~= items);
    assert(out@ =~= array_text(items));
    out
}

/// The four standard tags of an object.
pub open spec fn object_tags_view(
    title: Seq<char>,
    description_llm: Seq<char>,
    description_md: Seq<char>,
    keywords: Seq<char>,
) -> Seq<(Seq<char>, Seq<char>)> {
    seq![
        ("vgi.title"@, title),
        ("vgi.doc_llm"@, description_llm),
        ("vgi.doc_md"@, description_md),
        ("vgi.keywords"@, keywords_text(keywords)),
    ]
}

/// Appends a tag.
pub fn push_tag(tags: &mut Vec<(String, String)>, name: &str, value: &str)
    ensures
        tags_view(final(tags)@) == tags_view(old(tags)@).push((name@, value@)),
{
    let t = (name.to_string(), value.to_string());
    proof {
        lemma_tags_push(tags@, t);
    }
    tags.push(t);
}

/// Builds the four standard description tags of an object (`vgi.title`,
/// `vgi.doc_llm`, `vgi.doc_md`, `vgi.keywords`).
pub fn object_tags(
    title: &str,
    description_llm: &str,
    description_md: &str,
    keywords: &str,
) -> (r: Vec<(String, String)>)
    ensures
        tags_view(r@) == object_tags_view(title@, description_llm@, description_md@, keywords@),
{
    let mut tags: Vec<(String, String)> = Vec::new();
    assert(tags_view(tags@) =~= Seq::empty());
    push_tag(&mut tags, "vgi.title", title);
    push_tag(&mut tags, "vgi.doc_llm", description_llm);
    push_tag(&mut tags, "vgi.doc_md", description_md);
    push_tag(&mut tags, "vgi.keywords", keywords_json(keywords).as_str());
    assert(tags_view(tags@) =~= object_tags_view(
        title@,
        description_llm@,
        description_md@,
        keywords@,
    ));
    tags
}

/// An example of a function's use.
#[derive(Clone, Debug)]
pub struct Example {
    pub sql: String,
    pub description: String,
}

impl View for Example {
    type V = (Seq<char>, Seq<char>);

    open spec fn view(&self) -> (Seq<char>, Seq<char>) {
        (self.sql@, self.description@)
    }
}

/// What a function says of itself.
#[derive(Clone, Debug)]
pub struct FunctionDoc {
    pub description: String,
    pub examples: Vec<Example>,
    pub tags: Vec<(String, String)>,
}

/// The texts of a [`FunctionDoc`]; of each example the statement and what it shows.
#[verifier::ext_equal]
pub struct DocView {
    pub description: Seq<char>,
    pub examples: Seq<(Seq<char>, Seq<char>)>,
    pub tags: Seq<(Seq<char>, Seq<char>)>,
}

impl View for FunctionDoc {
    type V = DocView;

    open spec fn view(&self) -> DocView {
        DocView {
            description: self.description@,
            examples: views(self.examples@),
            tags: tags_view(self.tags@),
        }
    }
}

/// A list of one example.
pub fn one_example(sql: &str, description: &str) -> (r: Vec<Example>)
    ensures
        views(r@) == seq![(sql@, description@)],
{
    let mut r: Vec<Example> = Vec::new();
    r.push(Example { sql: sql.to_string(), description: description.to_string() });
    assert(views(r@) =~= seq![(sql@, description@)]);
    r
}

/// The JSON array of one example.
pub open spec fn one_example_text(description: Seq<char>, sql: Seq<char>) -> Seq<char> {
    array_text(seq![example_object(description, sql)])
}

/// Encodes one `(description, sql)` pair as the JSON array of a tag.
pub fn one_example_json(description: &str, sql: &str) -> (r: String)
    ensures
        r@ == one_example_text(description@, sql@),
{
    let one: [(&str, &str); 1] = [(description, sql)];
    let r = executable_examples_json(one.as_slice());
    assert(Seq::new(one@.len(), |i: int| example_text(one@[i])) =~= seq![
        example_text((description, sql)),
    ]);
    r
}

} // verus!
