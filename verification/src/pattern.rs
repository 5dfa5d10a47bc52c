//! Regular expressions, as the `regex` crate compiles and runs them.
//!
//! Nothing here is proved about the engine itself. The items below give the
//! engine's answers a name, so that the rest of the library can state exactly
//! what it does with them.

use vstd::prelude::*;

verus! {

/// `regex::Regex`, a compiled regex. Nothing of its inside is known here.
#[verifier::external_type_specification]
#[verifier::external_body]
pub struct ExRegex(regex::Regex);

/// `regex::Error`, why a pattern was not compiled.
#[verifier::external_type_specification]
#[verifier::external_body]
pub struct ExRegexError(regex::Error);

/// The pattern text that a compiled regex was built from.
pub uninterp spec fn regex_source(re: regex::Regex) -> Seq<char>;

/// Whether the engine accepts `pattern`.
pub uninterp spec fn regex_compiles(pattern: Seq<char>) -> bool;

/// The leftmost match of `re` in `text`, as one entry per capture group
/// (group 0, the whole match, first), or `None` when nothing matches.
pub uninterp spec fn regex_captures(re: regex::Regex, text: Seq<char>) -> Option<Seq<GroupView>>;

/// One capture group of a match.
#[derive(Clone, Debug, PartialEq, Eq)]
pub struct Group {
    /// The group's name, for a group written `(?P<name>...)`.
    pub name: Option<String>,
    /// The text the group matched, or `None` if it took no part in the match.
    pub text: Option<String>,
}

pub struct GroupView {
    pub name: Option<Seq<char>>,
    pub text: Option<Seq<char>>,
}

impl View for Group {
    type V = GroupView;

    open spec fn view(&self) -> GroupView {
        GroupView { name: self.name.deep_view(), text: self.text.deep_view() }
    }
}

impl DeepView for Group {
    type V = GroupView;

    open spec fn deep_view(&self) -> GroupView {
        self.view()
    }
}

/// A copy of `re`.
///
/// Stands for `Clone` of `regex::Regex`: the copy is the same regex, with
/// the same source and the same matches.
#[verifier::external_body]
pub(crate) fn copy(re: &regex::Regex) -> (r: regex::Regex)
    ensures
        r == *re,
{
    re.clone()
}

/// Compiles `pattern`.
///
/// Stands for `regex::Regex::new`. Claimed: whether it succeeds depends on the
/// pattern text alone, and a regex that was compiled reports that same text as
/// its source.
#[verifier::external_body]
pub(crate) fn compile(pattern: &str) -> (r: Result<regex::Regex, regex::Error>)
    ensures
        r is Ok <==> regex_compiles(pattern@),
        r matches Ok(re) ==> regex_source(re) == pattern@,
{
    regex::Regex::new(pattern)
}

/// The pattern text of `re`.
///
/// Stands for `regex::Regex::as_str`, which returns the pattern as it was given.
#[verifier::external_body]
pub(crate) fn source(re: &regex::Regex) -> (s: &str)
    ensures
        s@ == regex_source(*re),
{
    re.as_str()
}

/// Searches `text` for the leftmost match of `re`.
///
/// Stands for `regex::Regex::captures`, with the groups read out through
/// `Regex::capture_names` and `Captures::get`. Claimed: the outcome depends
/// on the regex and the text alone.
#[verifier::external_body]
pub(crate) fn captures(re: &regex::Regex, text: &str) -> (r: Option<Vec<Group>>)
    ensures
        r.deep_view() == regex_captures(*re, text@),
{
    let found = re.captures(text)?;
    Some(
        re.capture_names().enumerate().map(
            |(i, name)| Group {
                name: name.map(String::from),
                text: found.get(i).map(|m| String::from(m.as_str())),
            },
        ).collect(),
    )
}

} // verus!
