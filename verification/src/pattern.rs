use regex::Regex;
use vstd::prelude::*;

verus! {

/// The groups of one match of a pattern: the text that each group of the
/// pattern took, group 0 being the whole match, or `None` for a group that
/// took no part.
pub type Groups = Vec<Option<String>>;

/// The texts of the groups of one match.
pub open spec fn group_texts(groups: Seq<Option<String>>) -> Seq<Option<Seq<char>>> {
    Seq::new(
        groups.len(),
        |i: int|
            match groups[i] {
                Some(text) => Some(text@),
                None => None,
            },
    )
}

/// The texts of the groups of each match in a list.
pub open spec fn match_texts(found: Seq<Groups>) -> Seq<Seq<Option<Seq<char>>>> {
    Seq::new(found.len(), |i: int| group_texts(found[i]@))
}

/// The text that group `index` took in a match; `None` where the match has no
/// such group or the group took no part.
pub open spec fn group_text(groups: Seq<Option<Seq<char>>>, index: int) -> Option<Seq<char>> {
    if 0 <= index < groups.len() {
        groups[index]
    } else {
        None
    }
}

/// The groups of the leftmost match of a pattern in a text; `None` where the
/// pattern matches nowhere, or is no pattern.
pub uninterp spec fn first_match(pattern: Seq<char>, text: Seq<char>) -> Option<
    Seq<Option<Seq<char>>>,
>;

/// The groups of every match of a pattern in a text, from left to right, no
/// two matches overlapping; empty where the pattern is no pattern.
pub uninterp spec fn all_matches(pattern: Seq<char>, text: Seq<char>) -> Seq<
    Seq<Option<Seq<char>>>,
>;

/// Compiles the pattern with `regex::Regex::new`, searches the text with
/// `Regex::captures`, and copies the text of each group that
/// `Captures::iter` yields. Nothing is claimed of the outcome but that it is
/// a function of the pattern and the text.
#[verifier::external_body]
pub(crate) fn regex_captures(pattern: &str, text: &str) -> (groups: Option<Groups>)
    ensures
        (match groups {
            Some(list) => Some(group_texts(list@)),
            None => None,
        }) == first_match(pattern@, text@),
{
    let regex = Regex::new(pattern).ok()?;
    let found = regex.captures(text)?;
    let mut groups: Groups = Vec::new();
    for group in found.iter() {
        groups.push(group.map(|taken| taken.as_str().to_string()));
    }
    Some(groups)
}

/// Compiles the pattern with `regex::Regex::new`, walks the matches that
/// `Regex::captures_iter` yields in the text, and copies the text of each
/// group that `Captures::iter` yields for each of them. Nothing is claimed of
/// the outcome but that it is a function of the pattern and the text.
#[verifier::external_body]
pub(crate) fn regex_captures_all(pattern: &str, text: &str) -> (found: Vec<Groups>)
    ensures
        match_texts(found@) == all_matches(pattern@, text@),
{
    let mut all: Vec<Groups> = Vec::new();
    if let Ok(regex) = Regex::new(pattern) {
        for found in regex.captures_iter(text) {
            let mut groups: Groups = Vec::new();
            for group in found.iter() {
                groups.push(group.map(|taken| taken.as_str().to_string()));
            }
            all.push(groups);
        }
    }
    all
}

/// The text that group `index` took in a match.
pub fn group(groups: &Groups, index: usize) -> (text: Option<&String>)
    ensures
        match group_text(group_texts(groups@), index as int) {
            Some(expected) => text is Some && text->0@ == expected,
            None => text is None,
        },
{
    if index < groups.len() {
        match &groups[index] {
            Some(text) => Some(text),
            None => None,
        }
    } else {
        None
    }
}

} // verus!
