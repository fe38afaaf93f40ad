//! JSON text: string literals written the way serde_json writes them, and
//! the fields of a JSON object request body.
use vstd::prelude::*;

use crate::deps::{hex_lower, json_object_fields, json_object_fields_spec, JsonField, JsonFieldView};
use crate::strmap::StrMap;
use crate::text::{chars_of, push_chars, push_str};

verus! {

/// How serde_json writes one character inside a string literal: `"` and
/// `\` with a backslash, the control characters with a short escape where
/// JSON has one and as `\u00XX` (lowercase hex) otherwise.
pub open spec fn json_escape_char(c: char) -> Seq<char> {
    if c == '"' {
        seq!['\\', '"']
    } else if c == '\\' {
        seq!['\\', '\\']
    } else if c == '\u{8}' {
        seq!['\\', 'b']
    } else if c == '\t' {
        seq!['\\', 't']
    } else if c == '\n' {
        seq!['\\', 'n']
    } else if c == '\u{c}' {
        seq!['\\', 'f']
    } else if c == '\r' {
        seq!['\\', 'r']
    } else if (c as int) < 0x20 {
        seq!['\\', 'u', '0', '0', hex_lower((c as int) / 16), hex_lower((c as int) % 16)]
    } else {
        seq![c]
    }
}

/// The escaped contents of a JSON string literal.
pub open spec fn json_escape(s: Seq<char>) -> Seq<char>
    decreases s.len(),
{
    if s.len() == 0 {
        Seq::empty()
    } else {
        json_escape(s.drop_last()) + json_escape_char(s.last())
    }
}

/// A JSON string literal: the escaped contents in double quotes.
pub open spec fn json_string(s: Seq<char>) -> Seq<char> {
    seq!['"'] + json_escape(s) + seq!['"']
}

fn hex_lower_exec(n: u32) -> (c: char)
    requires
        n < 16,
    ensures
        c == hex_lower(n as int),
{
    match n {
        0 => '0',
        1 => '1',
        2 => '2',
        3 => '3',
        4 => '4',
        5 => '5',
        6 => '6',
        7 => '7',
        8 => '8',
        9 => '9',
        10 => 'a',
        11 => 'b',
        12 => 'c',
        13 => 'd',
        14 => 'e',
        _ => 'f',
    }
}

fn push_json_char(out: &mut String, c: char)
    ensures
        final(out)@ == old(out)@ + json_escape_char(c),
{
    if c == '"' {
        out.push('\\');
        out.push('"');
    } else if c == '\\' {
        out.push('\\');
        out.push('\\');
    } else if c == '\u{8}' {
        out.push('\\');
        out.push('b');
    } else if c == '\t' {
        out.push('\\');
        out.push('t');
    } else if c == '\n' {
        out.push('\\');
        out.push('n');
    } else if c == '\u{c}' {
        out.push('\\');
        out.push('f');
    } else if c == '\r' {
        out.push('\\');
        out.push('r');
    } else if (c as u32) < 32 {
        let n: u32 = c as u32;
        out.push('\\');
        out.push('u');
        out.push('0');
        out.push('0');
        out.push(hex_lower_exec(n / 16));
        out.push(hex_lower_exec(n % 16));
    } else {
        out.push(c);
    }
    proof {
        assert(final(out)@ =~= old(out)@ + json_escape_char(c)) by {
            assert(out@ =~= old(out)@ + json_escape_char(c));
        }
    }
}

/// Appends `s` as a JSON string literal.
pub fn push_json_string(out: &mut String, s: &str)
    ensures
        final(out)@ == old(out)@ + json_string(s@),
{
    let c = chars_of(s);
    out.push('"');
    let ghost head = out@;
    let mut i: usize = 0;
    proof {
        assert(c@.take(0) =~= Seq::<char>::empty());
        assert(head + json_escape(c@.take(0)) =~= head);
    }
    while i < c.len()
        invariant
            i <= c@.len(),
            c@ == s@,
            out@ == head + json_escape(c@.take(i as int)),
        decreases c@.len() - i,
    {
        push_json_char(out, c[i]);
        proof {
            assert(c@.take(i + 1).drop_last() =~= c@.take(i as int));
            assert(out@ =~= head + json_escape(c@.take(i + 1)));
        }
        i = i + 1;
    }
    out.push('"');
    proof {
        assert(c@.take(c@.len() as int) =~= c@);
        assert(out@ =~= old(out)@ + json_string(s@));
    }
}

/// `"key":"value"`, both written as JSON strings.
pub open spec fn json_member(key: Seq<char>, value: Seq<char>) -> Seq<char> {
    json_string(key) + seq![':'] + json_string(value)
}

/// Appends `"key":"value"`.
pub fn push_json_member(out: &mut String, key: &str, value: &str)
    ensures
        final(out)@ == old(out)@ + json_member(key@, value@),
{
    push_json_string(out, key);
    out.push(':');
    push_json_string(out, value);
    proof {
        assert(out@ =~= old(out)@ + json_member(key@, value@));
    }
}

/// `"key":n` with `n` written in decimal.
pub open spec fn json_number_member(key: Seq<char>, n: int) -> Seq<char> {
    json_string(key) + seq![':'] + crate::text::signed_decimal_spec(n)
}

/// Appends `"key":n`.
pub fn push_json_number_member(out: &mut String, key: &str, n: i64)
    ensures
        final(out)@ == old(out)@ + json_number_member(key@, n as int),
{
    push_json_string(out, key);
    out.push(':');
    crate::text::push_i64(out, n);
    proof {
        assert(out@ =~= old(out)@ + json_number_member(key@, n as int));
    }
}

/// The JSON strings of `items`, comma-separated.
pub open spec fn json_strings_joined(items: Seq<Seq<char>>) -> Seq<char>
    decreases items.len(),
{
    if items.len() == 0 {
        Seq::empty()
    } else if items.len() == 1 {
        json_string(items[0])
    } else {
        json_strings_joined(items.drop_last()) + seq![','] + json_string(items.last())
    }
}

/// A JSON array of strings.
pub open spec fn json_string_array(items: Seq<Seq<char>>) -> Seq<char> {
    seq!['['] + json_strings_joined(items) + seq![']']
}

/// Appends a JSON array of the strings `items`.
pub fn push_json_string_array(out: &mut String, items: &Vec<String>)
    ensures
        final(out)@ == old(out)@ + json_string_array(crate::text::string_views(items@)),
{
    let ghost iv = crate::text::string_views(items@);
    out.push('[');
    let ghost head = out@;
    let mut i: usize = 0;
    proof {
        assert(iv.take(0) =~= Seq::<Seq<char>>::empty());
        assert(out@ =~= head + json_strings_joined(iv.take(0)));
    }
    while i < items.len()
        invariant
            i <= items@.len(),
            iv == crate::text::string_views(items@),
            out@ == head + json_strings_joined(iv.take(i as int)),
        decreases items@.len() - i,
    {
        if i > 0 {
            out.push(',');
        }
        push_json_string(out, items[i].as_str());
        proof {
            assert(iv.take(i + 1).drop_last() =~= iv.take(i as int));
            assert(iv.take(i + 1).last() == items@[i as int]@);
            if i == 0 {
                assert(iv.take(1) =~= seq![items@[0]@]);
            }
            assert(out@ =~= head + json_strings_joined(iv.take(i + 1)));
        }
        i = i + 1;
    }
    out.push(']');
    proof {
        assert(iv.take(items@.len() as int) =~= iv);
        assert(out@ =~= old(out)@ + json_string_array(iv));
    }
}

} // verus!
