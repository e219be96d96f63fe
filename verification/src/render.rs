use vstd::prelude::*;

use crate::value::{JsonValue, SpecValue};
use crate::value::{lemma_deep_fields, lemma_deep_seq, push_char};

verus! {

/// The hexadecimal digit for a value below sixteen, lower case.
pub open spec fn spec_hex_digit(n: u32) -> char {
    if n == 0 { '0' }
    else if n == 1 { '1' }
    else if n == 2 { '2' }
    else if n == 3 { '3' }
    else if n == 4 { '4' }
    else if n == 5 { '5' }
    else if n == 6 { '6' }
    else if n == 7 { '7' }
    else if n == 8 { '8' }
    else if n == 9 { '9' }
    else if n == 10 { 'a' }
    else if n == 11 { 'b' }
    else if n == 12 { 'c' }
    else if n == 13 { 'd' }
    else if n == 14 { 'e' }
    else { 'f' }
}

/// How one character of a JSON string is written inside double quotes:
/// quote and backslash get a backslash, control characters get a short
/// escape where one exists and a `\u00..` escape otherwise, and every
/// other character stands as itself.
pub open spec fn spec_escape_char(c: char) -> Seq<char> {
    if c == '"' { seq!['\\', '"'] }
    else if c == '\\' { seq!['\\', '\\'] }
    else if c == '\u{8}' { seq!['\\', 'b'] }
    else if c == '\u{c}' { seq!['\\', 'f'] }
    else if c == '\n' { seq!['\\', 'n'] }
    else if c == '\r' { seq!['\\', 'r'] }
    else if c == '\t' { seq!['\\', 't'] }
    else if (c as u32) < 0x20 {
        seq!['\\', 'u', '0', '0', spec_hex_digit((c as u32) / 16), spec_hex_digit((c as u32) % 16)]
    } else {
        seq![c]
    }
}

pub open spec fn spec_escape(s: Seq<char>) -> Seq<char>
    decreases s.len(),
{
    if s.len() == 0 {
        Seq::empty()
    } else {
        spec_escape(s.drop_last()) + spec_escape_char(s.last())
    }
}

/// The compact textual rendering of a JSON value: `null`, `true`, `false`,
/// the number's own text, quoted and escaped strings, and bracketed,
/// comma-separated arrays and objects without any added spacing.
pub open spec fn spec_render(v: SpecValue) -> Seq<char>
    decreases v,
{
    match v {
        SpecValue::Null => "null"@,
        SpecValue::Bool(b) => if b { "true"@ } else { "false"@ },
        SpecValue::Number(s) => s,
        SpecValue::Text(s) => seq!['"'] + spec_escape(s) + seq!['"'],
        SpecValue::Array(vs) => seq!['['] + spec_render_items(vs) + seq![']'],
        SpecValue::Object(fs) => seq!['{'] + spec_render_entries(fs) + seq!['}'],
    }
}

pub open spec fn spec_render_items(vs: Seq<SpecValue>) -> Seq<char>
    decreases vs,
{
    if vs.len() == 0 {
        Seq::empty()
    } else if vs.len() == 1 {
        spec_render(vs.last())
    } else {
        spec_render_items(vs.drop_last()) + seq![','] + spec_render(vs.last())
    }
}

pub open spec fn spec_render_entry(f: (Seq<char>, SpecValue)) -> Seq<char>
    decreases f,
{
    seq!['"'] + spec_escape(f.0) + seq!['"', ':'] + spec_render(f.1)
}

pub open spec fn spec_render_entries(fs: Seq<(Seq<char>, SpecValue)>) -> Seq<char>
    decreases fs,
{
    if fs.len() == 0 {
        Seq::empty()
    } else if fs.len() == 1 {
        spec_render_entry(fs.last())
    } else {
        spec_render_entries(fs.drop_last()) + seq![','] + spec_render_entry(fs.last())
    }
}

fn hex_digit(n: u32) -> (c: char)
    requires
        n < 16,
    ensures
        c == spec_hex_digit(n),
{
    if n == 0 { '0' }
    else if n == 1 { '1' }
    else if n == 2 { '2' }
    else if n == 3 { '3' }
    else if n == 4 { '4' }
    else if n == 5 { '5' }
    else if n == 6 { '6' }
    else if n == 7 { '7' }
    else if n == 8 { '8' }
    else if n == 9 { '9' }
    else if n == 10 { 'a' }
    else if n == 11 { 'b' }
    else if n == 12 { 'c' }
    else if n == 13 { 'd' }
    else if n == 14 { 'e' }
    else { 'f' }
}

fn append_escaped_char(out: &mut String, c: char)
    ensures
        final(out)@ == old(out)@ + spec_escape_char(c),
{
    if c == '"' {
        proof { reveal_strlit("\\\""); }
        out.append("\\\"");
        assert(final(out)@ =~= old(out)@ + spec_escape_char(c));
    } else if c == '\\' {
        proof { reveal_strlit("\\\\"); }
        out.append("\\\\");
        assert(final(out)@ =~= old(out)@ + spec_escape_char(c));
    } else if c == '\u{8}' {
        proof { reveal_strlit("\\b"); }
        out.append("\\b");
        assert(final(out)@ =~= old(out)@ + spec_escape_char(c));
    } else if c == '\u{c}' {
        proof { reveal_strlit("\\f"); }
        out.append("\\f");
        assert(final(out)@ =~= old(out)@ + spec_escape_char(c));
    } else if c == '\n' {
        proof { reveal_strlit("\\n"); }
        out.append("\\n");
        assert(final(out)@ =~= old(out)@ + spec_escape_char(c));
    } else if c == '\r' {
        proof { reveal_strlit("\\r"); }
        out.append("\\r");
        assert(final(out)@ =~= old(out)@ + spec_escape_char(c));
    } else if c == '\t' {
        proof { reveal_strlit("\\t"); }
        out.append("\\t");
        assert(final(out)@ =~= old(out)@ + spec_escape_char(c));
    } else if (c as u32) < 0x20 {
        proof { reveal_strlit("\\u00"); }
        out.append("\\u00");
        push_char(out, hex_digit((c as u32) / 16));
        push_char(out, hex_digit((c as u32) % 16));
        assert(final(out)@ =~= old(out)@ + spec_escape_char(c));
    } else {
        push_char(out, c);
        assert(final(out)@ =~= old(out)@ + spec_escape_char(c));
    }
}

proof fn lemma_escape_step(s: Seq<char>, i: int)
    requires
        0 <= i < s.len(),
    ensures
        spec_escape(s.take(i + 1)) == spec_escape(s.take(i)) + spec_escape_char(s[i]),
{
    assert(s.take(i + 1).drop_last() =~= s.take(i));
    assert(s.take(i + 1).last() == s[i]);
}

/// Appends the escaped form of `s` to `out`.
fn append_escaped(out: &mut String, s: &String)
    ensures
        final(out)@ == old(out)@ + spec_escape(s@),
{
    let n = s.as_str().unicode_len();
    let mut i: usize = 0;
    while i < n
        invariant
            n == s@.len(),
            i <= n,
            out@ == old(out)@ + spec_escape(s@.take(i as int)),
        decreases n - i,
    {
        let c = s.as_str().get_char(i);
        append_escaped_char(out, c);
        proof {
            lemma_escape_step(s@, i as int);
        }
        i = i + 1;
    }
    assert(s@.take(n as int) =~= s@);
}

proof fn lemma_render_items_step(vs: Seq<SpecValue>, i: int)
    requires
        0 <= i < vs.len(),
    ensures
        i == 0 ==> spec_render_items(vs.take(1)) == spec_render(vs[0]),
        i > 0 ==> spec_render_items(vs.take(i + 1))
            == spec_render_items(vs.take(i)) + seq![','] + spec_render(vs[i]),
{
    assert(vs.take(i + 1).drop_last() =~= vs.take(i));
    assert(vs.take(i + 1).last() == vs[i]);
}

proof fn lemma_render_entries_step(fs: Seq<(Seq<char>, SpecValue)>, i: int)
    requires
        0 <= i < fs.len(),
    ensures
        i == 0 ==> spec_render_entries(fs.take(1)) == spec_render_entry(fs[0]),
        i > 0 ==> spec_render_entries(fs.take(i + 1))
            == spec_render_entries(fs.take(i)) + seq![','] + spec_render_entry(fs[i]),
{
    assert(fs.take(i + 1).drop_last() =~= fs.take(i));
    assert(fs.take(i + 1).last() == fs[i]);
}

/// Renders a JSON value as its compact textual form.
#[verifier::rlimit(50)]
pub fn render_value(v: &JsonValue) -> (r: String)
    ensures
        r@ == spec_render(v.deep()),
    decreases *v,
{
    match v {
        JsonValue::Null => {
            let r = "null".to_owned();
            r
        },
        JsonValue::Bool(b) => {
            if *b {
                "true".to_owned()
            } else {
                "false".to_owned()
            }
        },
        JsonValue::Number(s) => s.clone(),
        JsonValue::Text(s) => {
            let mut out = String::new();
            push_char(&mut out, '"');
            append_escaped(&mut out, s);
            push_char(&mut out, '"');
            assert(out@ =~= spec_render(v.deep()));
            out
        },
        JsonValue::Array(vs) => {
            let ghost items = JsonValue::deep_seq(vs@);
            proof {
                lemma_deep_seq(vs@);
            }
            let mut out = String::new();
            push_char(&mut out, '[');
            let mut i: usize = 0;
            while i < vs.len()
                invariant
                    i <= vs.len(),
                    items == JsonValue::deep_seq(vs@),
                    out@ == seq!['['] + spec_render_items(items.take(i as int)),
                decreases vs.len() - i,
            {
                if i > 0 {
                    push_char(&mut out, ',');
                }
                proof {
                    assert(decreases_to!(*v => *vs));
                    assert(decreases_to!(*vs => vs@));
                }
                let piece = render_value(&vs[i]);
                out.append(piece.as_str());
                proof {
                    lemma_render_items_step(items, i as int);
                }
                i = i + 1;
            }
            push_char(&mut out, ']');
            proof {
                assert(items.take(vs.len() as int) =~= items);
                assert(out@ =~= spec_render(v.deep()));
            }
            out
        },
        JsonValue::Object(fs) => {
            let ghost entries = JsonValue::deep_fields(fs@);
            proof {
                lemma_deep_fields(fs@);
            }
            let mut out = String::new();
            push_char(&mut out, '{');
            let mut i: usize = 0;
            while i < fs.len()
                invariant
                    i <= fs.len(),
                    entries == JsonValue::deep_fields(fs@),
                    out@ == seq!['{'] + spec_render_entries(entries.take(i as int)),
                decreases fs.len() - i,
            {
                if i > 0 {
                    push_char(&mut out, ',');
                }
                push_char(&mut out, '"');
                append_escaped(&mut out, &fs[i].0);
                push_char(&mut out, '"');
                push_char(&mut out, ':');
                proof {
                    assert(decreases_to!(*v => *fs));
                    assert(decreases_to!(*fs => fs@));
                }
                let piece = render_value(&fs[i].1);
                out.append(piece.as_str());
                proof {
                    lemma_render_entries_step(entries, i as int);
                    assert(out@ =~= seq!['{'] + spec_render_entries(entries.take(i + 1 as int)));
                }
                i = i + 1;
            }
            push_char(&mut out, '}');
            proof {
                assert(entries.take(fs.len() as int) =~= entries);
                assert(out@ =~= spec_render(v.deep()));
            }
            out
        },
    }
}

} // verus!
