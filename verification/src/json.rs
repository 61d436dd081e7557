use vstd::prelude::*;

verus! {

/// `serde_json::Value`, carried through as an opaque value.
#[verifier::external_type_specification]
#[verifier::external_body]
pub struct ExJsonValue(serde_json::Value);

/// The lowercase hexadecimal digit of `d`, for `d < 16`.
pub open spec fn lower_hex_digit(d: int) -> char {
    seq!['0', '1', '2', '3', '4', '5', '6', '7', '8', '9', 'a', 'b', 'c', 'd', 'e', 'f'][d]
}

/// How JSON writes the character `c` inside a string: the quote and the backslash
/// behind a backslash; backspace, form feed, line feed, carriage return and tab as
/// `\b`, `\f`, `\n`, `\r`, `\t`; any other character below U+0020 as `\u00` and two
/// lowercase hex digits; every other character as itself.
pub open spec fn json_escaped_char(c: char) -> Seq<char> {
    let n = c as int;
    if c == '"' {
        seq!['\\', '"']
    } else if c == '\\' {
        seq!['\\', '\\']
    } else if n == 0x08 {
        seq!['\\', 'b']
    } else if n == 0x0c {
        seq!['\\', 'f']
    } else if c == '\n' {
        seq!['\\', 'n']
    } else if c == '\r' {
        seq!['\\', 'r']
    } else if c == '\t' {
        seq!['\\', 't']
    } else if n < 0x20 {
        seq!['\\', 'u', '0', '0', lower_hex_digit(n / 16), lower_hex_digit(n % 16)]
    } else {
        seq![c]
    }
}

/// The characters of `s`, each as JSON writes it inside a string.
pub open spec fn json_escaped(s: Seq<char>) -> Seq<char>
    decreases s.len(),
{
    if s.len() == 0 {
        Seq::empty()
    } else {
        json_escaped(s.drop_last()) + json_escaped_char(s.last())
    }
}

/// The compact JSON text of a JSON string holding `s`: `s` escaped, in double quotes.
pub open spec fn json_string_literal(s: Seq<char>) -> Seq<char> {
    seq!['"'] + json_escaped(s) + seq!['"']
}

/// Calls the `Display` impl of `serde_json::Value` on `Value::String(s)`, which writes
/// the compact JSON text of that string: the characters of `s` in double quotes, each
/// escaped as its serializer's escape table says.
#[verifier::external_body]
pub(crate) fn json_string_text(s: &str) -> (r: String)
    ensures
        r@ == json_string_literal(s@),
{
    serde_json::Value::String(s.to_owned()).to_string()
}

/// Calls the `Display` impl of `serde_json::Value`, which writes its compact JSON
/// text. The value is opaque here, so nothing is stated of the text.
#[verifier::external_body]
pub(crate) fn json_text(v: &serde_json::Value) -> (r: String) {
    v.to_string()
}

/// Calls `<serde_json::Value as Clone>::clone`. The impl is derived over the value's
/// variants, so the copy is the same value.
#[verifier::external_body]
pub(crate) fn clone_json(v: &serde_json::Value) -> (r: serde_json::Value)
    ensures
        r == *v,
{
    v.clone()
}

} // verus!
