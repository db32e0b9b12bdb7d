//! A verified JSON *encoder* for the small shapes the engine emits: string
//! literals with standard escaping (quote, backslash, and control characters,
//! with the usual short forms), arrays of strings, and flat objects. Decoding
//! of JSON stays with the outside parser; only rendering is done here.

use vstd::prelude::*;
use vstd::string::StrSliceExecFns;
use vstd::string::StringExecFns;
use crate::numbers::dec_digit;

verus! {

/// Lowercase hexadecimal digit.
pub open spec fn hex_digit(d: int) -> char {
    if d < 10 {
        dec_digit(d)
    } else if d == 10 {
        'a'
    } else if d == 11 {
        'b'
    } else if d == 12 {
        'c'
    } else if d == 13 {
        'd'
    } else if d == 14 {
        'e'
    } else {
        'f'
    }
}

/// The escape of one character inside a JSON string literal: quote and
/// backslash are escaped, control characters use the short forms where they
/// exist and `\u00XX` otherwise, all else stands as itself.
pub open spec fn json_escape_char(c: char) -> Seq<char> {
    if c == '"' {
        seq!['\\', '"']
    } else if c == '\\' {
        seq!['\\', '\\']
    } else if c == '\u{0008}' {
        seq!['\\', 'b']
    } else if c == '\u{000c}' {
        seq!['\\', 'f']
    } else if c == '\n' {
        seq!['\\', 'n']
    } else if c == '\r' {
        seq!['\\', 'r']
    } else if c == '\t' {
        seq!['\\', 't']
    } else if (c as u32) < 32 {
        seq!['\\', 'u', '0', '0', hex_digit((c as u32) as int / 16), hex_digit(
            (c as u32) as int % 16,
        )]
    } else {
        seq![c]
    }
}

/// The escaped body of `s` from index `i` on.
pub open spec fn json_escape_from(s: Seq<char>, i: int) -> Seq<char>
    decreases s.len() - i,
{
    if i < 0 || i >= s.len() {
        Seq::empty()
    } else {
        json_escape_char(s[i]) + json_escape_from(s, i + 1)
    }
}

/// A JSON string literal: quote, escaped body, quote.
pub open spec fn json_quote(s: Seq<char>) -> Seq<char> {
    seq!['"'] + json_escape_from(s, 0) + seq!['"']
}

/// The comma-separated quoted items from index `i` on.
pub open spec fn json_array_items(items: Seq<Seq<char>>, i: int) -> Seq<char>
    decreases items.len() - i,
{
    if i < 0 || i >= items.len() {
        Seq::empty()
    } else if i == items.len() - 1 {
        json_quote(items[i])
    } else {
        json_quote(items[i]) + seq![','] + json_array_items(items, i + 1)
    }
}

/// A JSON array of string literals, as the outside encoder renders it
/// compactly: `["a","b"]`, `[]` when empty.
pub open spec fn json_string_array(items: Seq<Seq<char>>) -> Seq<char> {
    seq!['['] + json_array_items(items, 0) + seq![']']
}

/// One lowercase hex digit as a string slice.
fn hex_str(d: u32) -> (r: &'static str)
    requires
        d < 16,
    ensures
        r@ == seq![hex_digit(d as int)],
{
    proof {
        reveal_strlit("0");
        reveal_strlit("1");
        reveal_strlit("2");
        reveal_strlit("3");
        reveal_strlit("4");
        reveal_strlit("5");
        reveal_strlit("6");
        reveal_strlit("7");
        reveal_strlit("8");
        reveal_strlit("9");
        reveal_strlit("a");
        reveal_strlit("b");
        reveal_strlit("c");
        reveal_strlit("d");
        reveal_strlit("e");
        reveal_strlit("f");
    }
    match d {
        0 => "0",
        1 => "1",
        2 => "2",
        3 => "3",
        4 => "4",
        5 => "5",
        6 => "6",
        7 => "7",
        8 => "8",
        9 => "9",
        10 => "a",
        11 => "b",
        12 => "c",
        13 => "d",
        14 => "e",
        _ => "f",
    }
}

/// Append the escape of one character to `out`.
fn append_escaped_char(out: &mut String, s: &str, i: usize)
    requires
        i < s@.len(),
        i < usize::MAX,
    ensures
        final(out)@ == old(out)@ + json_escape_char(s@[i as int]),
{
    let c = s.get_char(i);
    proof {
        reveal_strlit("\\\"");
        reveal_strlit("\\\\");
        reveal_strlit("\\b");
        reveal_strlit("\\f");
        reveal_strlit("\\n");
        reveal_strlit("\\r");
        reveal_strlit("\\t");
        reveal_strlit("\\u00");
        assert("\\\""@ =~= seq!['\\', '"']);
        assert("\\\\"@ =~= seq!['\\', '\\']);
        assert("\\b"@ =~= seq!['\\', 'b']);
        assert("\\f"@ =~= seq!['\\', 'f']);
        assert("\\n"@ =~= seq!['\\', 'n']);
        assert("\\r"@ =~= seq!['\\', 'r']);
        assert("\\t"@ =~= seq!['\\', 't']);
        assert("\\u00"@ =~= seq!['\\', 'u', '0', '0']);
    }
    if c == '"' {
        out.append("\\\"");
    } else if c == '\\' {
        out.append("\\\\");
    } else if c == '\u{0008}' {
        out.append("\\b");
    } else if c == '\u{000c}' {
        out.append("\\f");
    } else if c == '\n' {
        out.append("\\n");
    } else if c == '\r' {
        out.append("\\r");
    } else if c == '\t' {
        out.append("\\t");
    } else if (c as u32) < 32 {
        out.append("\\u00");
        let v = c as u32;
        out.append(hex_str(v / 16));
        out.append(hex_str(v % 16));
        proof {
            assert(old(out)@ + "\\u00"@ + seq![hex_digit((c as u32) as int / 16)] + seq![
                hex_digit((c as u32) as int % 16),
            ] =~= old(out)@ + json_escape_char(c));
        }
    } else {
        let piece = s.substring_char(i, i + 1);
        out.append(piece);
        proof {
            assert(piece@ =~= seq![c]);
        }
    }
}

/// The escaped body of `s` as a string.
pub fn json_escape(s: &str) -> (r: String)
    ensures
        r@ == json_escape_from(s@, 0),
{
    let n = s.unicode_len();
    let mut res = String::new();
    let mut i: usize = 0;
    proof {
        assert(res@ + json_escape_from(s@, 0) =~= json_escape_from(s@, 0));
    }
    while i < n
        invariant
            n == s@.len(),
            i <= n,
            json_escape_from(s@, 0) == res@ + json_escape_from(s@, i as int),
        decreases n - i,
    {
        append_escaped_char(&mut res, s, i);
        proof {
            assert(json_escape_from(s@, i as int) == json_escape_char(s@[i as int])
                + json_escape_from(s@, i + 1));
            assert(res@ + json_escape_from(s@, i + 1) =~= json_escape_from(s@, 0));
        }
        i += 1;
    }
    res
}

/// A JSON string literal for `s`.
pub fn json_quote_str(s: &str) -> (r: String)
    ensures
        r@ == json_quote(s@),
{
    proof {
        reveal_strlit("\"");
        assert("\""@ =~= seq!['"']);
    }
    let mut res = "\"".to_owned();
    let body = json_escape(s);
    res.append(body.as_str());
    res.append("\"");
    proof {
        assert(res@ =~= json_quote(s@));
    }
    res
}

/// A compact JSON array of the given strings.
pub fn json_array_of_strings(items: &Vec<String>) -> (r: String)
    ensures
        r@ == json_string_array(items.deep_view()),
{
    proof {
        reveal_strlit("[");
        reveal_strlit("]");
        reveal_strlit(",");
        assert("["@ =~= seq!['[']);
        assert("]"@ =~= seq![']']);
        assert(","@ =~= seq![',']);
    }
    let ghost model: Seq<Seq<char>> = items.deep_view();
    let n = items.len();
    proof {
        assert(model.len() == n);
    }
    let mut res = "[".to_owned();
    let mut i: usize = 0;
    proof {
        assert(res@ + json_array_items(model, 0) =~= seq!['['] + json_array_items(model, 0));
    }
    while i < n
        invariant
            model == items.deep_view(),
            n == items@.len(),
            model.len() == n,
            i <= n,
            seq!['['] + json_array_items(model, 0) == res@ + json_array_items(model, i as int),
        decreases n - i,
    {
        proof {
            reveal_strlit(",");
            assert(","@ =~= seq![',']);
        }
        let piece = json_quote_str(items[i].as_str());
        res.append(piece.as_str());
        proof {
            assert(items@[i as int]@ == model[i as int]);
        }
        if i + 1 < n {
            res.append(",");
            proof {
                assert(json_array_items(model, i as int) == json_quote(model[i as int]) + seq![
                    ',',
                ] + json_array_items(model, i + 1));
                assert(res@ + json_array_items(model, i + 1) =~= seq!['['] + json_array_items(
                    model,
                    0,
                ));
            }
        } else {
            proof {
                assert(json_array_items(model, i as int) == json_quote(model[i as int]));
                assert(json_array_items(model, i + 1) =~= Seq::<char>::empty());
                assert(res@ =~= seq!['['] + json_array_items(model, 0));
                assert(res@ + json_array_items(model, i + 1) =~= res@);
            }
        }
        i += 1;
    }
    res.append("]");
    proof {
        assert(res@ =~= json_string_array(model));
    }
    res
}

/// The rendering of one `"key":value` member where the value is already
/// rendered JSON text.
pub open spec fn json_member(key: Seq<char>, value: Seq<char>) -> Seq<char> {
    json_quote(key) + seq![':'] + value
}

} // verus!
