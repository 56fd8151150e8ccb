//! Reading a yes/no answer.
use vstd::prelude::*;

verus! {

/// A character with the Unicode property `White_Space`, which `str::trim` removes.
pub open spec fn is_white_space(c: char) -> bool {
    ||| '\u{9}' <= c <= '\u{d}'
    ||| c == ' ' || c == '\u{85}' || c == '\u{a0}' || c == '\u{1680}'
    ||| '\u{2000}' <= c <= '\u{200a}'
    ||| c == '\u{2028}' || c == '\u{2029}' || c == '\u{202f}' || c == '\u{205f}' || c == '\u{3000}'
}

/// The string with its leading white space removed.
pub open spec fn trim_start(s: Seq<char>) -> Seq<char>
    decreases s.len(),
{
    if s.len() > 0 && is_white_space(s[0]) {
        trim_start(s.drop_first())
    } else {
        s
    }
}

/// The string with its trailing white space removed.
pub open spec fn trim_end(s: Seq<char>) -> Seq<char>
    decreases s.len(),
{
    if s.len() > 0 && is_white_space(s.last()) {
        trim_end(s.drop_last())
    } else {
        s
    }
}

/// The string with leading and trailing white space removed.
pub open spec fn trimmed(s: Seq<char>) -> Seq<char> {
    trim_end(trim_start(s))
}

/// The string in lower case, as `str::to_lowercase` does.
pub uninterp spec fn lowercased(s: Seq<char>) -> Seq<char>;

/// Calls `str::trim`. Claims what its documentation says: the result is the string with
/// leading and trailing white space (the Unicode property `White_Space`) removed.
#[verifier::external_body]
fn trim(s: &str) -> (t: &str)
    ensures
        t@ == trimmed(s@),
{
    s.trim()
}

/// Calls `str::to_lowercase`. Claims that the result is the named lower-casing.
#[verifier::external_body]
fn to_lowercase(s: &str) -> (t: String)
    ensures
        t@ == lowercased(s@),
{
    s.to_lowercase()
}

/// Whether an answer to a "[y/N]" question confirms: it is `y` once trimmed and lower-cased.
pub fn is_confirmed(answer: &str) -> (yes: bool)
    ensures
        yes == (lowercased(trimmed(answer@)) == seq!['y']),
{
    let lowered = to_lowercase(trim(answer));
    proof {
        reveal_strlit("y");
        assert("y"@ =~= seq!['y']);
    }
    crate::text::str_eq(lowered.as_str(), "y")
}

} // verus!
