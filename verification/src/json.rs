//! JSON text for the request bodies: strings are quoted by `serde_json`, and the
//! objects and lists around them are framed here.

use vstd::prelude::*;
use crate::text::{digit_char, join, views};

verus! {

/// The lower-case hexadecimal digit of `d`, for `0 <= d < 16`.
pub open spec fn hex_lower(d: int) -> char {
    if d < 10 {
        digit_char(d)
    } else {
        (('a' as int) + d - 10) as char
    }
}

/// How `serde_json` writes one character inside a JSON string: `"` and `\`
/// behind a backslash, the control characters U+0008, U+0009, U+000A, U+000C and
/// U+000D as `\b`, `\t`, `\n`, `\f`, `\r`, the other characters below U+0020 as
/// `\u00xx`, and every other character as itself.
pub open spec fn json_escape_char(c: char) -> Seq<char> {
    if c == '"' {
        seq!['\\', '"']
    } else if c == '\\' {
        seq!['\\', '\\']
    } else if c == '\u{8}' {
        seq!['\\', 'b']
    } else if c == '\t' {
        seq!['\\', 't']
    } else if c == '\n' {
        seq!['\\', 'n']
    } else if c == '\u{c}' {
        seq!['\\', 'f']
    } else if c == '\r' {
        seq!['\\', 'r']
    } else if (c as int) < 0x20 {
        seq!['\\', 'u', '0', '0', hex_lower((c as int) / 16), hex_lower((c as int) % 16)]
    } else {
        seq![c]
    }
}

/// The escaped contents of a JSON string.
pub open spec fn json_escape(s: Seq<char>) -> Seq<char>
    decreases s.len(),
{
    if s.len() == 0 {
        Seq::empty()
    } else {
        json_escape(s.drop_last()) + json_escape_char(s.last())
    }
}

/// A JSON string literal holding `s`.
pub open spec fn json_quoted(s: Seq<char>) -> Seq<char> {
    seq!['"'] + json_escape(s) + seq!['"']
}

/// Quotes a text as a JSON string with `serde_json::to_string`.
///
/// Trusted: for a `str`, `serde_json::to_string` writes `"`, then the text with the
/// escapes of `format_escaped_str_contents` and its `ESCAPE` table in `ser.rs`
/// (stated by `json_escape_char`), then `"`. It cannot fail on a `str`, since it
/// writes into a vector; the empty string of the error arm is never produced.
#[verifier::external_body]
fn json_quote(s: &str) -> (r: String)
    ensures
        r@ == json_quoted(s@),
{
    match serde_json::to_string(s) {
        Ok(text) => text,
        Err(_) => String::new(),
    }
}

/// `"name":value`, one member of a JSON object.
pub open spec fn json_member(name: Seq<char>, value: Seq<char>) -> Seq<char> {
    json_quoted(name) + seq![':'] + value
}

/// A JSON object with the given members, in order.
pub open spec fn json_object(members: Seq<Seq<char>>) -> Seq<char> {
    seq!['{'] + join(members, seq![',']) + seq!['}']
}

/// A JSON list with the given elements, in order.
pub open spec fn json_list(elements: Seq<Seq<char>>) -> Seq<char> {
    seq!['['] + join(elements, seq![',']) + seq![']']
}

/// Quotes `s` as a JSON string.
pub fn quote(s: &str) -> (r: String)
    ensures
        r@ == json_quoted(s@),
{
    json_quote(s)
}

/// Writes `"name":value`.
pub fn member(name: &str, value: &str) -> (r: String)
    ensures
        r@ == json_member(name@, value@),
{
    let mut r = json_quote(name);
    r.append(":");
    proof {
        reveal_strlit(":");
    }
    r.append(value);
    r
}

/// Writes a JSON object from its members.
pub fn object(members: &Vec<String>) -> (r: String)
    ensures
        r@ == json_object(views(members@)),
{
    proof {
        reveal_strlit("{");
        reveal_strlit(",");
        reveal_strlit("}");
        assert(","@ =~= seq![',']);
        assert("{"@ =~= seq!['{']);
        assert("}"@ =~= seq!['}']);
    }
    let mut r = String::from_str("{");
    r.append(crate::text::join_strings(members, ",").as_str());
    r.append("}");
    assert(r@ =~= json_object(views(members@)));
    r
}

/// Writes a JSON list from its elements.
pub fn list(elements: &Vec<String>) -> (r: String)
    ensures
        r@ == json_list(views(elements@)),
{
    proof {
        reveal_strlit("[");
        reveal_strlit(",");
        reveal_strlit("]");
        assert(","@ =~= seq![',']);
        assert("["@ =~= seq!['[']);
        assert("]"@ =~= seq![']']);
    }
    let mut r = String::from_str("[");
    r.append(crate::text::join_strings(elements, ",").as_str());
    r.append("]");
    assert(r@ =~= json_list(views(elements@)));
    r
}

} // verus!
