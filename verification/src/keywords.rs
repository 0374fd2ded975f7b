//! The tracked keywords and the test for a keyword's occurrence in a
//! payload.

use vstd::prelude::*;

verus! {

/// `needle` occurs somewhere in `hay` as a run of consecutive characters.
pub open spec fn occurs_in(needle: Seq<char>, hay: Seq<char>) -> bool {
    exists|start: int|
        0 <= start && start + needle.len() <= hay.len() && #[trigger] hay.subrange(
            start,
            start + needle.len(),
        ) == needle
}

/// The texts of a list of keywords, index by index.
pub open spec fn keyword_texts(keywords: Seq<String>) -> Seq<Seq<char>> {
    Seq::new(keywords.len(), |i: int| keywords[i]@)
}

/// For each keyword, whether it occurs in the payload.
pub open spec fn hits_of(keywords: Seq<Seq<char>>, payload: Seq<char>) -> Seq<bool> {
    Seq::new(keywords.len(), |i: int| occurs_in(keywords[i], payload))
}

/// The keywords that are tracked unless others are given.
pub open spec fn default_keywords() -> Seq<Seq<char>> {
    seq![
        "twitter"@,
        "facebook"@,
        "google"@,
        "travel"@,
        "art"@,
        "music"@,
        "photography"@,
        "love"@,
        "fashion"@,
        "food"@,
    ]
}

/// `str::contains` with a string pattern: whether the pattern matches a
/// sub-slice of the text.
#[verifier::external_body]
pub(crate) fn contains_text(hay: &str, needle: &str) -> (found: bool)
    ensures
        found == occurs_in(needle@, hay@),
{
    hay.contains(needle)
}

/// `str`'s `==`: whether the two texts are the same.
#[verifier::external_body]
pub(crate) fn same_text(left: &str, right: &str) -> (same: bool)
    ensures
        same == (left@ == right@),
{
    left == right
}

/// The keywords that are tracked unless others are given.
pub fn keywords() -> (list: Vec<String>)
    ensures
        keyword_texts(list@) == default_keywords(),
{
    let mut list: Vec<String> = Vec::new();
    list.push("twitter".to_owned());
    list.push("facebook".to_owned());
    list.push("google".to_owned());
    list.push("travel".to_owned());
    list.push("art".to_owned());
    list.push("music".to_owned());
    list.push("photography".to_owned());
    list.push("love".to_owned());
    list.push("fashion".to_owned());
    list.push("food".to_owned());
    assert(keyword_texts(list@) =~= default_keywords());
    list
}

} // verus!
