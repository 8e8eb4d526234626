use vstd::prelude::*;

verus! {

/// `t` occurs in `s` with at least four characters after it.
pub open spec fn token_before_suffix(s: Seq<char>, t: Seq<char>) -> bool {
    exists|i: int| 0 <= i && i + t.len() + 4 <= s.len() && #[trigger] s.subrange(i, i + t.len()) == t
}

pub open spec fn ends_with(s: Seq<char>, suffix: Seq<char>) -> bool {
    suffix.len() <= s.len() && s.subrange(s.len() - suffix.len(), s.len() as int) == suffix
}

/// A compressed archive worth fetching: the name holds `RE_`, `KMZ` or
/// `RSA-DATA` and ends, after that token, in `.zip` (case-sensitive).
pub open spec fn is_archive_name(s: Seq<char>) -> bool {
    &&& ends_with(s, ".zip"@)
    &&& (token_before_suffix(s, "RE_"@) || token_before_suffix(s, "KMZ"@) || token_before_suffix(s, "RSA-DATA"@))
}

/// Relies on regex::Regex::new, which compiles the selection pattern (valid, and
/// far below the size limit), and Regex::is_match, which reports a match
/// anywhere in the text. In that pattern `(?s)` lets `.` match any character
/// and `\z` anchors at the end of the text.
#[verifier::external_body]
fn regex_is_match(pattern: &str, text: &str) -> (r: bool)
    ensures
        pattern@ == "(?s)(RE_|KMZ|RSA-DATA).*\\.zip\\z"@ ==> r == is_archive_name(text@),
{
    regex::Regex::new(pattern).map(|re| re.is_match(text)).unwrap_or(false)
}

/// Whether a record's name denotes a KMZ-bearing compressed archive.
pub fn is_selected(name: &str) -> (r: bool)
    ensures
        r == is_archive_name(name@),
{
    regex_is_match("(?s)(RE_|KMZ|RSA-DATA).*\\.zip\\z", name)
}

} // verus!
