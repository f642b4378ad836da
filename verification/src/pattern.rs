//! Regular expressions, as the `regex` crate matches them.
//!
//! What a pattern matches is not restated here: the contracts name the
//! crate's answers, and the rules of the library are stated over those names.
use vstd::prelude::*;

verus! {

/// Declares `regex::Regex`, a compiled expression, as a type whose inside
/// is not looked at.
#[verifier::external_type_specification]
#[verifier::external_body]
pub struct ExRegex(regex::Regex);

/// Declares `regex::Error`, the error of `regex::Regex::new`, as a type
/// whose inside is not looked at.
#[verifier::external_type_specification]
#[verifier::external_body]
pub struct ExRegexError(regex::Error);

/// Whether `regex::Regex::new` accepts `pattern`.
pub uninterp spec fn regex_is_valid(pattern: Seq<char>) -> bool;

/// What `regex::Regex::captures` finds in `text` for the compiled expression
/// `re`: `None` where nothing matches; else, for the leftmost match, the text
/// of each group, group 0 being the whole match and a group that took no
/// part being `None`.
pub uninterp spec fn regex_finds(re: regex::Regex, text: Seq<char>) -> Option<
    Seq<Option<Seq<char>>>,
>;

/// What the expression that `regex::Regex::new` makes of `pattern` finds in
/// `text`.
pub uninterp spec fn regex_captures(pattern: Seq<char>, text: Seq<char>) -> Option<
    Seq<Option<Seq<char>>>,
>;

/// Whether `re` finds in every text what the expression made of `pattern`
/// finds in it.
pub open spec fn compiled_from(re: regex::Regex, pattern: Seq<char>) -> bool {
    forall|text: Seq<char>| #[trigger] regex_finds(re, text) == regex_captures(pattern, text)
}

/// The view of the groups of a match.
pub open spec fn groups_view(groups: Option<Vec<Option<String>>>) -> Option<
    Seq<Option<Seq<char>>>,
> {
    match groups {
        Some(v) => Some(
            Seq::new(
                v@.len(),
                |i: int|
                    match v@[i] {
                        Some(s) => Some(s@),
                        None => None,
                    },
            ),
        ),
        None => None,
    }
}

/// Calls `regex::Regex::new`. The contract names the answer: the call
/// succeeds exactly on the patterns that the crate accepts, and what the
/// expression finds depends on the pattern alone, so that two expressions
/// made of one pattern find the same.
#[verifier::external_body]
pub(crate) fn compile(pattern: &str) -> (r: Result<regex::Regex, regex::Error>)
    ensures
        r is Ok <==> regex_is_valid(pattern@),
        r matches Ok(re) ==> forall|text: Seq<char>| #[trigger]
            regex_finds(re, text) == regex_captures(pattern@, text),
{
    regex::Regex::new(pattern)
}

/// Calls `regex::Regex::captures` and copies the text of each group. The
/// contract names the answer, which depends on the expression and the text
/// alone.
#[verifier::external_body]
pub(crate) fn captures(re: &regex::Regex, text: &str) -> (r: Option<Vec<Option<String>>>)
    ensures
        groups_view(r) == regex_finds(*re, text@),
{
    re.captures(text).map(|c| c.iter().map(|m| m.map(|g| g.as_str().to_string())).collect())
}

/// Calls `to_string` on an error of `regex::Regex::new`. Nothing is claimed
/// of the text.
#[verifier::external_body]
pub(crate) fn describe_error(e: &regex::Error) -> (r: String) {
    e.to_string()
}

/// The text of group `index` of a match, where the group took part in it.
pub open spec fn group_of(groups: Option<Seq<Option<Seq<char>>>>, index: int) -> Option<
    Seq<char>,
> {
    match groups {
        Some(g) => if 0 <= index < g.len() {
            g[index]
        } else {
            None
        },
        None => None,
    }
}

/// The text of group `index` of a match, where the group took part in it.
pub fn group(groups: &Option<Vec<Option<String>>>, index: usize) -> (r: Option<Vec<char>>)
    ensures
        crate::text::opt_view(r) == group_of(groups_view(*groups), index as int),
{
    match groups {
        Some(g) => if index < g.len() {
            match &g[index] {
                Some(s) => Some(crate::text::to_chars(s.as_str())),
                None => None,
            }
        } else {
            None
        },
        None => None,
    }
}

} // verus!
