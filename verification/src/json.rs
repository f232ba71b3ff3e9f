//! JSON text of tool results.

use vstd::prelude::*;

verus! {

/// Lower-case hexadecimal digit for a value below 16.
pub open spec fn hex_lower(v: u32) -> char {
    if v < 10 {
        (48 + v) as char
    } else {
        (87 + v) as char
    }
}

/// How one character appears inside a JSON string: quote, backslash and
/// control characters escaped, everything else as is.
pub open spec fn json_escape_char(c: char) -> Seq<char> {
    if c == '"' {
        seq!['\\', '"']
    } else if c == '\\' {
        seq!['\\', '\\']
    } else if c == '\x08' {
        seq!['\\', 'b']
    } else if c == '\t' {
        seq!['\\', 't']
    } else if c == '\n' {
        seq!['\\', 'n']
    } else if c == '\x0c' {
        seq!['\\', 'f']
    } else if c == '\r' {
        seq!['\\', 'r']
    } else if (c as u32) < 0x20 {
        seq!['\\', 'u', '0', '0', hex_lower((c as u32) / 16), hex_lower((c as u32) % 16)]
    } else {
        seq![c]
    }
}

/// The escaped characters of `s`, in order.
pub open spec fn json_escape(s: Seq<char>) -> Seq<char>
    decreases s.len(),
{
    if s.len() == 0 {
        Seq::empty()
    } else {
        json_escape(s.drop_last()) + json_escape_char(s.last())
    }
}

/// The JSON string literal for `s`.
pub open spec fn json_string_literal(s: Seq<char>) -> Seq<char> {
    seq!['"'] + json_escape(s) + seq!['"']
}

/// `serde_json::to_string` on a string slice: the JSON string literal,
/// with `"`, `\`, and the control characters below U+0020 escaped
/// (`\b \t \n \f \r` or `\u00XX` in lower-case hex). Writing into a `Vec`
/// cannot fail, so the error arm is never taken.
#[verifier::external_body]
fn json_quote(s: &str) -> (r: String)
    ensures
        r@ == json_string_literal(s@),
{
    match serde_json::to_string(s) {
        Ok(t) => t,
        Err(_) => String::new(),
    }
}

/// Text of an error result: `{"error":<type>,"message":<message>}`.
pub open spec fn error_json(error_type: Seq<char>, message: Seq<char>) -> Seq<char> {
    "{\"error\":"@ + json_string_literal(error_type) + ",\"message\":"@ + json_string_literal(
        message,
    ) + "}"@
}

/// Text of a success result: `{"message":<message>,"success":true}`.
pub open spec fn success_json(message: Seq<char>) -> Seq<char> {
    "{\"message\":"@ + json_string_literal(message) + ",\"success\":true}"@
}

/// Result text of a successful tool call.
pub fn success_response(message: &str) -> (r: String)
    ensures
        r@ == success_json(message@),
{
    let mut out = String::from_str("{\"message\":");
    let q = json_quote(message);
    out.append(q.as_str());
    out.append(",\"success\":true}");
    out
}

/// Result text of a failed tool call.
pub fn error_response(error_type: &str, message: &str) -> (r: String)
    ensures
        r@ == error_json(error_type@, message@),
{
    let mut out = String::from_str("{\"error\":");
    let q1 = json_quote(error_type);
    out.append(q1.as_str());
    out.append(",\"message\":");
    let q2 = json_quote(message);
    out.append(q2.as_str());
    out.append("}");
    out
}

} // verus!
