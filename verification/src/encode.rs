//! The wire encoding of an outgoing report: one JSON object
//! `{"id": ..., "diff": {"added": [...], "removed": [...]}, "first": ...}`,
//! with entry names escaped as JSON string escaping demands.

use vstd::prelude::*;
use vstd::string::StrSliceExecFns;
use vstd::string::StringExecFns;

use crate::diff::Diff;
use crate::diff::models;
use crate::items::Item;
use crate::items::ItemModel;
use crate::items::Kind;

verus! {

/// One outgoing report: the wire payload of one tick.
#[derive(Debug)]
pub struct Report {
    pub id: String,
    pub diff: Diff,
    pub first: bool,
}

/// The hexadecimal digit for a value below sixteen.
pub open spec fn hex_digit(n: int) -> char {
    if n == 0 {
        '0'
    } else if n == 1 {
        '1'
    } else if n == 2 {
        '2'
    } else if n == 3 {
        '3'
    } else if n == 4 {
        '4'
    } else if n == 5 {
        '5'
    } else if n == 6 {
        '6'
    } else if n == 7 {
        '7'
    } else if n == 8 {
        '8'
    } else if n == 9 {
        '9'
    } else if n == 10 {
        'a'
    } else if n == 11 {
        'b'
    } else if n == 12 {
        'c'
    } else if n == 13 {
        'd'
    } else if n == 14 {
        'e'
    } else {
        'f'
    }
}

/// How one character appears inside a JSON string literal: quote and
/// backslash are escaped, control characters get their short escape or
/// a `\u00..` escape, everything else stands as itself.
pub open spec fn escape_char(c: char) -> Seq<char> {
    if c == '"' {
        "\\\""@
    } else if c == '\\' {
        "\\\\"@
    } else if c == '\u{8}' {
        "\\b"@
    } else if c == '\t' {
        "\\t"@
    } else if c == '\n' {
        "\\n"@
    } else if c == '\u{c}' {
        "\\f"@
    } else if c == '\r' {
        "\\r"@
    } else if (c as u32) < 32 {
        "\\u00"@ + seq![hex_digit((c as u32) as int / 16), hex_digit((c as u32) as int % 16)]
    } else {
        seq![c]
    }
}

/// A character sequence escaped for use inside a JSON string literal.
pub open spec fn escape_string(s: Seq<char>) -> Seq<char>
    decreases s.len(),
{
    if s.len() == 0 {
        Seq::empty()
    } else {
        escape_char(s[0]) + escape_string(s.skip(1))
    }
}

/// Escaping distributes over concatenation.
proof fn lemma_escape_append(a: Seq<char>, b: Seq<char>)
    ensures
        escape_string(a + b) == escape_string(a) + escape_string(b),
    decreases a.len(),
{
    if a.len() == 0 {
        assert(a + b =~= b);
        assert(escape_string(a) + escape_string(b) =~= escape_string(b));
    } else {
        lemma_escape_append(a.skip(1), b);
        assert((a + b).skip(1) =~= a.skip(1) + b);
        assert((a + b)[0] == a[0]);
        assert(escape_char(a[0]) + (escape_string(a.skip(1)) + escape_string(b)) =~= (escape_char(
            a[0],
        ) + escape_string(a.skip(1))) + escape_string(b));
    }
}

/// Escaping a prefix one character longer appends that character's
/// escape.
proof fn lemma_escape_take_snoc(s: Seq<char>, i: int)
    requires
        0 <= i < s.len(),
    ensures
        escape_string(s.take(i + 1)) == escape_string(s.take(i)) + escape_char(s[i]),
{
    let single = seq![s[i]];
    assert(s.take(i + 1) =~= s.take(i) + single);
    lemma_escape_append(s.take(i), single);
    assert(single.skip(1) =~= Seq::<char>::empty());
    assert(escape_string(Seq::<char>::empty()) == Seq::<char>::empty());
    assert(escape_string(single) == escape_char(single[0]) + escape_string(single.skip(1)));
    assert(escape_string(single) =~= escape_char(s[i]));
}

/// Relies on std's `String::push`: appends exactly the one character.
#[verifier::external_body]
pub(crate) fn push_char(out: &mut String, c: char)
    ensures
        final(out)@ == old(out)@.push(c),
{
    out.push(c);
}

/// The hexadecimal digit character for a value below sixteen.
fn hex_digit_char(n: u32) -> (c: char)
    requires
        n < 16,
    ensures
        c == hex_digit(n as int),
{
    if n == 0 {
        '0'
    } else if n == 1 {
        '1'
    } else if n == 2 {
        '2'
    } else if n == 3 {
        '3'
    } else if n == 4 {
        '4'
    } else if n == 5 {
        '5'
    } else if n == 6 {
        '6'
    } else if n == 7 {
        '7'
    } else if n == 8 {
        '8'
    } else if n == 9 {
        '9'
    } else if n == 10 {
        'a'
    } else if n == 11 {
        'b'
    } else if n == 12 {
        'c'
    } else if n == 13 {
        'd'
    } else if n == 14 {
        'e'
    } else {
        'f'
    }
}

/// Appends one character's JSON escape to `out`.
fn append_escaped_char(out: &mut String, c: char)
    ensures
        final(out)@ == old(out)@ + escape_char(c),
{
    if c == '"' {
        out.append("\\\"");
    } else if c == '\\' {
        out.append("\\\\");
    } else if c == '\u{8}' {
        out.append("\\b");
    } else if c == '\t' {
        out.append("\\t");
    } else if c == '\n' {
        out.append("\\n");
    } else if c == '\u{c}' {
        out.append("\\f");
    } else if c == '\r' {
        out.append("\\r");
    } else {
        let v = c as u32;
        if v < 32 {
            out.append("\\u00");
            let hi = hex_digit_char(v / 16);
            let lo = hex_digit_char(v % 16);
            push_char(out, hi);
            push_char(out, lo);
            assert(out@ =~= old(out)@ + escape_char(c));
        } else {
            push_char(out, c);
            assert(out@ =~= old(out)@ + escape_char(c));
        }
    }
}

/// Appends the JSON-escaped characters of `s` to `out`.
fn append_escaped(out: &mut String, s: &String)
    ensures
        final(out)@ == old(out)@ + escape_string(s@),
{
    let n = s.as_str().unicode_len();
    let mut i: usize = 0;
    while i < n
        invariant
            n == s@.len(),
            i <= n,
            out@ == old(out)@ + escape_string(s@.take(i as int)),
        decreases n - i,
    {
        let c = s.as_str().get_char(i);
        append_escaped_char(out, c);
        proof {
            lemma_escape_take_snoc(s@, i as int);
            assert(out@ =~= old(out)@ + escape_string(s@.take(i + 1)));
        }
        i += 1;
    }
    proof {
        assert(s@.take(n as int) =~= s@);
    }
}

/// The wire name of an entry kind.
pub open spec fn kind_str(k: Kind) -> Seq<char> {
    match k {
        Kind::File => "File"@,
        Kind::Folder => "Folder"@,
    }
}

/// The JSON object for one entry.
pub open spec fn json_of_item(m: ItemModel) -> Seq<char> {
    "{\"name\":\""@ + escape_string(m.name) + "\",\"ty\":\""@ + kind_str(m.ty) + "\"}"@
}

/// The comma-separated JSON objects for a sequence of entries.
pub open spec fn json_of_items(s: Seq<ItemModel>) -> Seq<char>
    decreases s.len(),
{
    if s.len() == 0 {
        Seq::empty()
    } else if s.len() == 1 {
        json_of_item(s[0])
    } else {
        json_of_items(s.drop_last()) + ","@ + json_of_item(s.last())
    }
}

/// The JSON object for a whole report, fields in wire order: `id`,
/// `diff` (with `added` then `removed`), `first`.
pub open spec fn json_of_report(
    id: Seq<char>,
    added: Seq<ItemModel>,
    removed: Seq<ItemModel>,
    first: bool,
) -> Seq<char> {
    "{\"id\":\""@ + escape_string(id) + "\",\"diff\":{\"added\":["@ + json_of_items(added)
        + "],\"removed\":["@ + json_of_items(removed) + "]},\"first\":"@ + (if first {
        "true"@
    } else {
        "false"@
    }) + "}"@
}

/// Appends the JSON objects of the given entries, comma-separated.
fn append_items(out: &mut String, items: &Vec<Item>)
    ensures
        final(out)@ == old(out)@ + json_of_items(models(items@)),
{
    let n = items.len();
    let mut i: usize = 0;
    while i < n
        invariant
            n == items@.len(),
            i <= n,
            out@ == old(out)@ + json_of_items(models(items@).take(i as int)),
        decreases n - i,
    {
        if i > 0 {
            out.append(",");
        }
        out.append("{\"name\":\"");
        append_escaped(out, &items[i].name);
        out.append("\",\"ty\":\"");
        match items[i].ty {
            Kind::File => out.append("File"),
            Kind::Folder => out.append("Folder"),
        }
        out.append("\"}");
        proof {
            let ms = models(items@);
            assert(ms.take(i + 1).drop_last() =~= ms.take(i as int));
            assert(ms.take(i + 1).last() == ms[i as int]);
            assert(ms[i as int] == items@[i as int]@);
            assert(out@ =~= old(out)@ + json_of_items(ms.take(i + 1)));
        }
        i += 1;
    }
    proof {
        assert(models(items@).take(n as int) =~= models(items@));
    }
}

/// Serializes a report to its JSON wire form.
pub fn encode_report(r: &Report) -> (out: String)
    ensures
        out@ == json_of_report(r.id@, models(r.diff.added@), models(r.diff.removed@), r.first),
{
    let mut out = String::new();
    out.append("{\"id\":\"");
    append_escaped(&mut out, &r.id);
    out.append("\",\"diff\":{\"added\":[");
    append_items(&mut out, &r.diff.added);
    out.append("],\"removed\":[");
    append_items(&mut out, &r.diff.removed);
    out.append("]},\"first\":");
    if r.first {
        out.append("true");
    } else {
        out.append("false");
    }
    out.append("}");
    proof {
        assert(out@ =~= json_of_report(
            r.id@,
            models(r.diff.added@),
            models(r.diff.removed@),
            r.first,
        ));
    }
    out
}

} // verus!
