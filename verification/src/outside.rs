//! The calls into other crates: regular expressions, percent-encoding and the reading of
//! UUIDs. What they answer is known here only by name.

use vstd::prelude::*;

verus! {

/// What the regular expression `pattern` captures in its group named `group` at its first
/// match in `text`: `None` where the pattern does not compile, where it matches nowhere, or
/// where the group took no part in the match.
pub uninterp spec fn regex_group(pattern: Seq<char>, text: Seq<char>, group: Seq<char>) -> Option<
    Seq<char>,
>;

/// What `urlencoding::encode` answers for `text`.
pub uninterp spec fn percent_encoded(text: Seq<char>) -> Seq<char>;

/// Compiles `pattern` with `regex::Regex::new`, searches `text` with `Regex::captures` and
/// hands back what `Captures::name` finds for `group`.
///
/// Believed, not proved: the answer is the one named [`regex_group`]. It depends on the three
/// texts alone; the search takes the leftmost match.
#[verifier::external_body]
pub(crate) fn capture_group(pattern: &str, text: &str, group: &str) -> (r: Option<String>)
    ensures
        r.deep_view() == regex_group(pattern@, text@, group@),
{
    let compiled = regex::Regex::new(pattern).ok()?;
    let captures = compiled.captures(text)?;
    match captures.name(group) {
        Some(found) => Some(found.as_str().to_string()),
        None => None,
    }
}

/// Calls `urlencoding::encode`: every byte is percent-encoded but letters, digits, `-`, `_`,
/// `.` and `~`.
///
/// Believed, not proved: the answer is the one named [`percent_encoded`].
#[verifier::external_body]
pub(crate) fn percent_encode(text: &str) -> (r: String)
    ensures
        r@ == percent_encoded(text@),
{
    urlencoding::encode(text).into_owned()
}

/// The number of the UUID that `uuid::Uuid::parse_str` reads from `text`, and `None` where it
/// reads none.
pub uninterp spec fn uuid_number(text: Seq<char>) -> Option<u128>;

/// Calls `uuid::Uuid::parse_str` and hands back the UUID as the number `Uuid::as_u128` gives.
///
/// Believed, not proved: the answer is the one named [`uuid_number`].
#[verifier::external_body]
pub(crate) fn parse_uuid(text: &str) -> (r: Option<u128>)
    ensures
        r == uuid_number(text@),
{
    match uuid::Uuid::parse_str(text) {
        Ok(id) => Some(id.as_u128()),
        Err(_) => None,
    }
}

} // verus!
