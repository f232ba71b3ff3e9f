//! Log levels and their priorities.

use vstd::prelude::*;

verus! {

/// What `str::to_uppercase` gives for a string (Unicode upper-case mapping).
pub uninterp spec fn uppercase_of(s: Seq<char>) -> Seq<char>;

/// ASCII upper-casing: 'a'..='z' become 'A'..='Z', everything else stays.
pub open spec fn ascii_upper(s: Seq<char>) -> Seq<char> {
    s.map_values(|c: char| if 'a' <= c <= 'z' { ((c as u32) - 32) as char } else { c })
}

/// Calls `str::to_uppercase`; the result is named by `uppercase_of`. On
/// ASCII text the Unicode upper-case mapping is the ASCII one.
#[verifier::external_body]
fn str_to_uppercase(s: &str) -> (res: String)
    ensures
        res@ == uppercase_of(s@),
        vstd::utf8::is_ascii_chars(s@) ==> res@ == ascii_upper(s@),
{
    s.to_uppercase()
}

/// Priority of an already upper-cased level name.
pub open spec fn priority_of_upper(s: Seq<char>) -> u8 {
    if s == "ERROR"@ {
        5
    } else if s == "WARN"@ {
        4
    } else if s == "INFO"@ {
        3
    } else if s == "DEBUG"@ {
        2
    } else if s == "TRACE"@ {
        1
    } else {
        0
    }
}

/// Priority of a level name, compared without regard to case.
pub open spec fn spec_level_priority(level: Seq<char>) -> u8 {
    priority_of_upper(uppercase_of(level))
}

/// Maps an upper-cased level name to its priority: ERROR 5, WARN 4, INFO 3,
/// DEBUG 2, TRACE 1, anything else 0.
pub fn upper_level_priority(upper: &str) -> (p: u8)
    ensures
        p == priority_of_upper(upper@),
{
    let s = String::from_str(upper);
    if s == String::from_str("ERROR") {
        5
    } else if s == String::from_str("WARN") {
        4
    } else if s == String::from_str("INFO") {
        3
    } else if s == String::from_str("DEBUG") {
        2
    } else if s == String::from_str("TRACE") {
        1
    } else {
        0
    }
}

/// Priority of a log level for filtering (case-insensitive).
pub fn level_to_priority(level: &str) -> (p: u8)
    ensures
        p == spec_level_priority(level@),
        vstd::utf8::is_ascii_chars(level@) ==> p == priority_of_upper(ascii_upper(level@)),
        p <= 5,
{
    let up = str_to_uppercase(level);
    upper_level_priority(up.as_str())
}

} // verus!
