//! Roster payload encoding: the content of a roster event is a JSON array
//! of display-name strings, built here character by character with the
//! standard JSON string escapes.

use vstd::prelude::*;
use vstd::string::StrSliceExecFns;
use vstd::string::StringExecFns;
use crate::text::digit_char;

verus! {

/// Lowercase hexadecimal digit for a value below sixteen.
pub open spec fn hex_digit_char(d: nat) -> char
    recommends
        d < 16,
{
    if d < 10 {
        digit_char(d)
    } else if d == 10 {
        'a'
    } else if d == 11 {
        'b'
    } else if d == 12 {
        'c'
    } else if d == 13 {
        'd'
    } else if d == 14 {
        'e'
    } else {
        'f'
    }
}

/// How one character appears inside a JSON string literal: quote and
/// backslash are escaped, the common control characters get their short
/// escapes, the remaining control characters a `\u00..` escape, and
/// everything else stands for itself.
pub open spec fn json_escape_char(c: char) -> Seq<char> {
    if c == '"' {
        seq!['\\', '"']
    } else if c == '\\' {
        seq!['\\', '\\']
    } else if c == '\u{8}' {
        seq!['\\', 'b']
    } else if c == '\t' {
        seq!['\\', 't']
    } else if c == '\n' {
        seq!['\\', 'n']
    } else if c == '\u{c}' {
        seq!['\\', 'f']
    } else if c == '\r' {
        seq!['\\', 'r']
    } else if (c as u32) < 0x20 {
        seq!['\\', 'u', '0', '0', hex_digit_char((c as u32 / 16) as nat), hex_digit_char(
            (c as u32 % 16) as nat,
        )]
    } else {
        seq![c]
    }
}

/// The body of a JSON string literal for `s`.
pub open spec fn json_escape(s: Seq<char>) -> Seq<char>
    decreases s.len(),
{
    if s.len() == 0 {
        Seq::empty()
    } else {
        json_escape(s.drop_last()) + json_escape_char(s.last())
    }
}

/// The JSON string literal for `s`, quotes included.
pub open spec fn json_string(s: Seq<char>) -> Seq<char> {
    seq!['"'] + json_escape(s) + seq!['"']
}

/// The comma-separated JSON string literals for `names`.
pub open spec fn json_names_inner(names: Seq<Seq<char>>) -> Seq<char>
    decreases names.len(),
{
    if names.len() == 0 {
        Seq::empty()
    } else if names.len() == 1 {
        json_string(names[0])
    } else {
        json_names_inner(names.drop_last()) + seq![','] + json_string(names.last())
    }
}

/// The JSON array of string literals for `names`.
pub open spec fn json_names(names: Seq<Seq<char>>) -> Seq<char> {
    seq!['['] + json_names_inner(names) + seq![']']
}

proof fn lemma_json_escape_step(s: Seq<char>, k: int)
    requires
        0 <= k < s.len(),
    ensures
        json_escape(s.take(k + 1)) == json_escape(s.take(k)) + json_escape_char(s[k]),
{
    let t = s.take(k + 1);
    assert(t.drop_last() =~= s.take(k));
    assert(t.last() == s[k]);
}

proof fn lemma_json_names_step(names: Seq<Seq<char>>, k: int)
    requires
        1 <= k < names.len(),
    ensures
        json_names_inner(names.take(k + 1)) == json_names_inner(names.take(k)) + seq![',']
            + json_string(names[k]),
{
    let t = names.take(k + 1);
    assert(t.drop_last() =~= names.take(k));
    assert(t.last() == names[k]);
}

/// Relies on String::push: appends the given character to the end.
#[verifier::external_body]
fn push_char(s: &mut String, c: char)
    ensures
        final(s)@ == old(s)@.push(c),
{
    s.push(c)
}

fn hex_digit(d: u8) -> (c: char)
    requires
        d < 16,
    ensures
        c == hex_digit_char(d as nat),
{
    if d == 0 {
        '0'
    } else if d == 1 {
        '1'
    } else if d == 2 {
        '2'
    } else if d == 3 {
        '3'
    } else if d == 4 {
        '4'
    } else if d == 5 {
        '5'
    } else if d == 6 {
        '6'
    } else if d == 7 {
        '7'
    } else if d == 8 {
        '8'
    } else if d == 9 {
        '9'
    } else if d == 10 {
        'a'
    } else if d == 11 {
        'b'
    } else if d == 12 {
        'c'
    } else if d == 13 {
        'd'
    } else if d == 14 {
        'e'
    } else {
        'f'
    }
}

fn escape_char_into(out: &mut String, c: char)
    ensures
        final(out)@ == old(out)@ + json_escape_char(c),
{
    if c == '"' {
        proof {
            reveal_strlit("\\\"");
            assert("\\\""@ =~= seq!['\\', '"']);
        }
        out.append("\\\"");
    } else if c == '\\' {
        proof {
            reveal_strlit("\\\\");
            assert("\\\\"@ =~= seq!['\\', '\\']);
        }
        out.append("\\\\");
    } else if c == '\u{8}' {
        proof {
            reveal_strlit("\\b");
            assert("\\b"@ =~= seq!['\\', 'b']);
        }
        out.append("\\b");
    } else if c == '\t' {
        proof {
            reveal_strlit("\\t");
            assert("\\t"@ =~= seq!['\\', 't']);
        }
        out.append("\\t");
    } else if c == '\n' {
        proof {
            reveal_strlit("\\n");
            assert("\\n"@ =~= seq!['\\', 'n']);
        }
        out.append("\\n");
    } else if c == '\u{c}' {
        proof {
            reveal_strlit("\\f");
            assert("\\f"@ =~= seq!['\\', 'f']);
        }
        out.append("\\f");
    } else if c == '\r' {
        proof {
            reveal_strlit("\\r");
            assert("\\r"@ =~= seq!['\\', 'r']);
        }
        out.append("\\r");
    } else if (c as u32) < 0x20 {
        proof {
            reveal_strlit("\\u00");
            assert("\\u00"@ =~= seq!['\\', 'u', '0', '0']);
        }
        out.append("\\u00");
        let code: u32 = c as u32;
        push_char(out, hex_digit((code / 16) as u8));
        push_char(out, hex_digit((code % 16) as u8));
        proof {
            assert(out@ =~= old(out)@ + json_escape_char(c));
        }
    } else {
        push_char(out, c);
        proof {
            assert(out@ =~= old(out)@ + json_escape_char(c));
        }
    }
}

fn append_escaped(out: &mut String, s: &str)
    ensures
        final(out)@ == old(out)@ + json_escape(s@),
{
    let len = s.unicode_len();
    for k in 0..len
        invariant
            len == s@.len(),
            out@ == old(out)@ + json_escape(s@.take(k as int)),
    {
        escape_char_into(out, s.get_char(k));
        proof {
            lemma_json_escape_step(s@, k as int);
        }
    }
    proof {
        assert(s@.take(len as int) =~= s@);
    }
}

/// Encodes the display names as a JSON array of strings: the roster
/// payload sent to every subscriber.
pub fn encode_names(names: &Vec<String>) -> (r: String)
    ensures
        r@ == json_names(names.deep_view()),
{
    let mut out = String::new();
    push_char(&mut out, '[');
    let n = names.len();
    for i in 0..n
        invariant
            n == names@.len(),
            out@ == seq!['['] + json_names_inner(names.deep_view().take(i as int)),
    {
        if i > 0 {
            push_char(&mut out, ',');
        }
        push_char(&mut out, '"');
        append_escaped(&mut out, names[i].as_str());
        push_char(&mut out, '"');
        proof {
            assert(names.deep_view()[i as int] == names@[i as int]@);
            if i == 0 {
                assert(names.deep_view().take(1) =~= seq![names.deep_view()[0]]);
                assert(out@ =~= seq!['['] + json_names_inner(names.deep_view().take(1)));
            } else {
                lemma_json_names_step(names.deep_view(), i as int);
                assert(out@ =~= seq!['['] + json_names_inner(
                    names.deep_view().take(i as int + 1),
                ));
            }
        }
    }
    push_char(&mut out, ']');
    proof {
        assert(names.deep_view().take(n as int) =~= names.deep_view());
        assert(out@ =~= json_names(names.deep_view()));
    }
    out
}

} // verus!
