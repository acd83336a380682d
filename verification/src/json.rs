//! JSON text of string lists, made by `serde_json`.

use vstd::prelude::*;
use crate::paths::strings_view;

verus! {

/// The lowercase hexadecimal digit for `d < 16`.
pub open spec fn hex_digit(d: int) -> char {
    if d < 10 {
        (d + 48) as char
    } else {
        (d + 87) as char
    }
}

/// How one character appears inside a JSON string literal as `serde_json`
/// writes it: `"` and `\` are escaped with a backslash; backspace, tab, line
/// feed, form feed and carriage return as `\b`, `\t`, `\n`, `\f`, `\r`; any
/// other character below U+0020 as `\u00` and two lowercase hex digits;
/// everything else as it is.
pub open spec fn json_char(c: char) -> Seq<char> {
    let n = c as int;
    if c == '"' {
        seq!['\\', '"']
    } else if c == '\\' {
        seq!['\\', '\\']
    } else if n == 8 {
        seq!['\\', 'b']
    } else if n == 9 {
        seq!['\\', 't']
    } else if n == 10 {
        seq!['\\', 'n']
    } else if n == 12 {
        seq!['\\', 'f']
    } else if n == 13 {
        seq!['\\', 'r']
    } else if n < 32 {
        seq!['\\', 'u', '0', '0', hex_digit(n / 16), hex_digit(n % 16)]
    } else {
        seq![c]
    }
}

/// The escaped characters of a text, in order.
pub open spec fn json_escaped(s: Seq<char>) -> Seq<char>
    decreases s.len(),
{
    if s.len() == 0 {
        Seq::empty()
    } else {
        json_escaped(s.drop_last()) + json_char(s.last())
    }
}

/// A text as a JSON string literal.
pub open spec fn json_quoted(s: Seq<char>) -> Seq<char> {
    seq!['"'] + json_escaped(s) + seq!['"']
}

/// The string literals of a list, separated by commas.
pub open spec fn json_items(items: Seq<Seq<char>>) -> Seq<char>
    decreases items.len(),
{
    if items.len() == 0 {
        Seq::empty()
    } else if items.len() == 1 {
        json_quoted(items[0])
    } else {
        json_items(items.drop_last()) + seq![','] + json_quoted(items.last())
    }
}

/// The compact JSON text of a list of strings: `[`, the string literals
/// separated by commas, `]`.
pub open spec fn json_array_text(items: Seq<Seq<char>>) -> Seq<char> {
    seq!['['] + json_items(items) + seq![']']
}

/// Serialises a list of strings with `serde_json::to_string`, whose compact
/// serializer writes `[`, each string as a literal escaped by its escape
/// table (see [`json_char`]), commas between them, and `]`. Serialising
/// strings into memory cannot fail.
#[verifier::external_body]
pub(crate) fn to_json_array(items: &Vec<String>) -> (r: String)
    ensures
        r@ == json_array_text(strings_view(items@)),
{
    serde_json::to_string(items).unwrap_or_default()
}

} // verus!
