//! The name grammar shared by object, field and type names.

use vstd::prelude::*;

verus! {

pub open spec fn is_ascii_letter(c: char) -> bool {
    ('a' <= c && c <= 'z') || ('A' <= c && c <= 'Z')
}

pub open spec fn is_name_char(c: char) -> bool {
    is_ascii_letter(c) || ('0' <= c && c <= '9') || c == '_' || c == '.' || c == '-'
}

/// A legal identifier: an ASCII letter followed by letters, digits, `_`, `.` or `-`.
pub open spec fn valid_name(s: Seq<char>) -> bool {
    &&& s.len() > 0
    &&& is_ascii_letter(s[0])
    &&& forall|i: int| 1 <= i < s.len() ==> is_name_char(#[trigger] s[i])
}

/// The text of the pattern that `valid_name` describes.
pub open spec fn name_pattern() -> Seq<char> {
    "^[a-zA-Z][a-zA-Z0-9_.-]*$"@
}

/// Relies on regex::Regex::new and regex::Regex::is_match: the pattern above
/// compiles, and since `^` and `$` anchor at the ends of the haystack and the
/// classes list plain ASCII ranges, it matches exactly the names that
/// `valid_name` describes.
#[verifier::external_body]
fn regex_matches_name(pattern: &str, text: &str) -> (r: bool)
    requires
        pattern@ == name_pattern(),
    ensures
        r == valid_name(text@),
{
    regex::Regex::new(pattern).unwrap().is_match(text)
}

/// Whether `name` is a legal object, field or type name.
pub fn is_valid_name(name: &str) -> (r: bool)
    ensures
        r == valid_name(name@),
{
    regex_matches_name("^[a-zA-Z][a-zA-Z0-9_.-]*$", name)
}

/// Every string that is empty, starts with a non-letter, or holds a character
/// outside letters, digits, `_`, `.` and `-` is rejected; every string made of
/// a letter followed by such characters is accepted.
pub proof fn lemma_name_validity(s: Seq<char>)
    ensures
        (s.len() == 0 || !is_ascii_letter(s[0]) || exists|i: int|
            0 <= i < s.len() && !is_name_char(#[trigger] s[i])) ==> !valid_name(s),
        (s.len() > 0 && is_ascii_letter(s[0]) && forall|i: int|
            0 <= i < s.len() ==> is_name_char(#[trigger] s[i])) ==> valid_name(s),
{
    if s.len() > 0 && is_ascii_letter(s[0]) && exists|i: int|
        0 <= i < s.len() && !is_name_char(#[trigger] s[i]) {
        let i = choose|i: int| 0 <= i < s.len() && !is_name_char(#[trigger] s[i]);
        assert(i != 0);
    }
}

} // verus!
