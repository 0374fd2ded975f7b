use keyword_sentiment::message::analyze_tweet;
use keyword_sentiment::message::process;
use keyword_sentiment::message::ProcessError;

#[test]
fn process_scores_the_text_member() {
    let (tweet, score) = process("{\"text\":\"I love art\"}").unwrap();
    assert_eq!(tweet, "\"I love art\"");
    assert_eq!(score, 3);
}

#[test]
fn process_scores_negative_text() {
    let (tweet, score) = process("{\"text\":\"bad day\"}").unwrap();
    assert_eq!(tweet, "\"bad day\"");
    assert_eq!(score, -3);
}

#[test]
fn process_adds_up_positive_and_negative_words() {
    let (_, score) = process("{\"text\":\"I love this awful bad thing\", \"id\": 7}").unwrap();
    assert_eq!(score, 3 - 3 - 3);
    let (_, neutral) = process("{\"text\":\"the table is in the room\"}").unwrap();
    assert_eq!(neutral, 0);
}

#[test]
fn process_takes_any_json_value_as_text() {
    let (tweet, score) = process("{\"text\": 42}").unwrap();
    assert_eq!(tweet, "42");
    assert_eq!(score, 0);
    let (nested, _) = process("{\"text\": {\"a\": [1, 2]}}").unwrap();
    assert_eq!(nested, "{\"a\":[1,2]}");
}

#[test]
fn process_rejects_malformed_json() {
    assert!(matches!(process("not json"), Err(ProcessError::InvalidJson(_))));
    assert!(matches!(process(""), Err(ProcessError::InvalidJson(_))));
    assert!(matches!(process("{\"text\":\"love\""), Err(ProcessError::InvalidJson(_))));
    assert!(matches!(process("{\"text\":\"love\"} trailing"), Err(ProcessError::InvalidJson(_))));
}

#[test]
fn process_tells_a_missing_text_from_malformed_json() {
    match process("{}") {
        Err(ProcessError::NoTweet(document)) => assert_eq!(document.to_string(), "{}"),
        other => panic!("unexpected outcome: {:?}", other),
    }
    match process("{\"user\":\"love\"}") {
        Err(ProcessError::NoTweet(document)) => {
            assert_eq!(document.to_string(), "{\"user\":\"love\"}")
        }
        other => panic!("unexpected outcome: {:?}", other),
    }
    assert!(matches!(process("[1, 2, 3]"), Err(ProcessError::NoTweet(_))));
    assert!(matches!(process("\"text\""), Err(ProcessError::NoTweet(_))));
    assert!(matches!(process("null"), Err(ProcessError::NoTweet(_))));
}

#[test]
fn analyze_tweet_works_on_a_parsed_document() {
    let document: serde_json::Value = serde_json::from_str("{\"text\":\"what a happy day\"}").unwrap();
    let (tweet, score) = analyze_tweet(document).unwrap();
    assert_eq!(tweet, "\"what a happy day\"");
    assert_eq!(score, 3);
    let empty: serde_json::Value = serde_json::from_str("{\"lang\":\"en\"}").unwrap();
    match analyze_tweet(empty) {
        Err(ProcessError::NoTweet(document)) => {
            assert_eq!(document.to_string(), "{\"lang\":\"en\"}")
        }
        other => panic!("unexpected outcome: {:?}", other),
    }
}

#[test]
fn parse_error_converts_to_invalid_json() {
    let error = serde_json::from_str::<serde_json::Value>("{").unwrap_err();
    let text = error.to_string();
    match ProcessError::from(error) {
        ProcessError::InvalidJson(inner) => assert_eq!(inner.to_string(), text),
        other => panic!("unexpected error: {:?}", other),
    }
}
