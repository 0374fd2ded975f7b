//! Decoding one message payload and scoring the sentiment of its text.

use vstd::prelude::*;

verus! {

/// `serde_json::Value`, a parsed JSON document, carried through as an
/// opaque value.
#[verifier::external_type_specification]
#[verifier::external_body]
pub struct ExJsonValue(serde_json::Value);

/// `serde_json::Error`, carried through as an opaque value.
#[verifier::external_type_specification]
#[verifier::external_body]
pub struct ExJsonError(serde_json::Error);

/// What `serde_json::from_str` makes of a text: nothing when the text is
/// not one well-formed JSON document, and otherwise the members of the
/// document (see `json_members`).
pub uninterp spec fn json_document(text: Seq<char>) -> Option<Map<Seq<char>, Seq<char>>>;

/// The members that a parsed JSON value holds: for an object, each key with
/// the compact JSON text of its value; for any other value, none.
pub uninterp spec fn json_members(value: serde_json::Value) -> Map<Seq<char>, Seq<char>>;

/// The overall score that `sentiment::analyze` gives a text. The crate adds
/// up the values of the words it knows, which are whole numbers from -5 to
/// 5, so the score is a whole number.
pub uninterp spec fn sentiment_of(text: Seq<char>) -> i32;

/// The key of the member that holds a message's text.
pub open spec fn text_key() -> Seq<char> {
    "text"@
}

/// `serde_json::from_str`, read as a `Value`: it succeeds exactly on the
/// texts that are a JSON document, and the value it returns holds that
/// document's members.
#[verifier::external_body]
fn parse_document(json: &str) -> (parsed: Result<serde_json::Value, serde_json::Error>)
    ensures
        parsed is Ok <==> json_document(json@) is Some,
        parsed matches Ok(value) ==> json_document(json@) == Some(json_members(value)),
{
    serde_json::from_str(json)
}

/// `serde_json::Value::get` with a string key, the member found then
/// written out as compact JSON text by the value's `Display`: some text
/// exactly when the value is an object with that key.
#[verifier::external_body]
fn member_text(value: &serde_json::Value, key: &str) -> (text: Option<String>)
    ensures
        text is Some <==> json_members(*value).contains_key(key@),
        text matches Some(t) ==> t@ == json_members(*value)[key@],
{
    value.get(key).map(|member| member.to_string())
}

/// `sentiment::analyze`, of which the overall score is kept, converted to
/// an integer from the whole-valued float that the crate returns.
#[verifier::external_body]
fn sentiment_score(text: String) -> (score: i32)
    ensures
        score == sentiment_of(text@),
{
    sentiment::analyze(text).score as i32
}

/// Errors that may be encountered when decoding and analyzing a message.
#[derive(Debug)]
pub enum ProcessError {
    /// The payload is not a JSON document.
    InvalidJson(serde_json::Error),
    /// The payload is a JSON document without a text member.
    NoTweet(serde_json::Value),
}

impl From<serde_json::Error> for ProcessError {
    fn from(e: serde_json::Error) -> (error: Self) {
        ProcessError::InvalidJson(e)
    }
}

impl vstd::std_specs::convert::FromSpecImpl<serde_json::Error> for ProcessError {
    open spec fn obeys_from_spec() -> bool {
        true
    }

    open spec fn from_spec(e: serde_json::Error) -> Self {
        ProcessError::InvalidJson(e)
    }
}

/// The text and score that a payload yields: present exactly when the
/// payload is a JSON document with a text member, whose JSON text is then
/// the text that is scored.
pub open spec fn scored_text(payload: Seq<char>) -> Option<(Seq<char>, int)> {
    match json_document(payload) {
        Some(members) => if members.contains_key(text_key()) {
            Some((members[text_key()], sentiment_of(members[text_key()]) as int))
        } else {
            None
        },
        None => None,
    }
}

/// Scores the text member of a parsed document. A document without one is
/// handed back in the error.
pub fn analyze_tweet(value: serde_json::Value) -> (outcome: Result<(String, i32), ProcessError>)
    ensures
        json_members(value).contains_key(text_key()) ==> (outcome matches Ok((tweet, score))
            && tweet@ == json_members(value)[text_key()] && score == sentiment_of(tweet@)),
        !json_members(value).contains_key(text_key()) ==> (outcome matches Err(
            ProcessError::NoTweet(document),
        ) && document == value),
{
    match member_text(&value, "text") {
        Some(tweet) => {
            let score = sentiment_score(tweet.clone());
            Ok((tweet, score))
        },
        None => Err(ProcessError::NoTweet(value)),
    }
}

/// Decodes the payload and runs sentiment analysis if a text is present.
pub fn process(json: &str) -> (outcome: Result<(String, i32), ProcessError>)
    ensures
        match json_document(json@) {
            Some(members) if members.contains_key(text_key()) => {
                &&& outcome matches Ok((tweet, score))
                &&& tweet@ == members[text_key()]
                &&& score == sentiment_of(tweet@)
            },
            Some(members) => {
                &&& outcome matches Err(ProcessError::NoTweet(document))
                &&& json_members(document) == members
            },
            None => outcome matches Err(ProcessError::InvalidJson(_)),
        },
        outcome matches Ok((tweet, score)) ==> scored_text(json@) == Some((tweet@, score as int)),
        outcome is Err ==> scored_text(json@) is None,
{
    match parse_document(json) {
        Ok(value) => analyze_tweet(value),
        Err(e) => Err(ProcessError::from(e)),
    }
}

} // verus!
