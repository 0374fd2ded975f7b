use keyword_sentiment::score::averages;
use keyword_sentiment::score::Average;
use keyword_sentiment::score::KeywordScore;

#[test]
fn new_score_is_all_zero() {
    let score = KeywordScore::new();
    assert_eq!(score.score_sum(), 0);
    assert_eq!(score.non_neutral_count(), 0);
    assert_eq!(score.tweet_count(), 0);
    assert!(score.can_add());
}

#[test]
fn default_score_is_all_zero() {
    let score = KeywordScore::default();
    assert_eq!(score.score_sum(), 0);
    assert_eq!(score.non_neutral_count(), 0);
    assert_eq!(score.tweet_count(), 0);
}

#[test]
fn add_counts_a_scored_message() {
    let mut score = KeywordScore::new();
    score.add(3);
    assert_eq!(score.score_sum(), 3);
    assert_eq!(score.non_neutral_count(), 1);
    assert_eq!(score.tweet_count(), 1);
    score.add(-5);
    assert_eq!(score.score_sum(), -2);
    assert_eq!(score.non_neutral_count(), 2);
    assert_eq!(score.tweet_count(), 2);
}

#[test]
fn neutral_message_counts_as_match_only() {
    let mut score = KeywordScore::new();
    score.add(4);
    score.add(0);
    score.add(0);
    assert_eq!(score.score_sum(), 4);
    assert_eq!(score.non_neutral_count(), 1);
    assert_eq!(score.tweet_count(), 3);
    assert_eq!(score.non_neutral_average(), Average { numerator: 4, denominator: 1 });
}

#[test]
fn average_is_zero_without_scored_messages() {
    let mut score = KeywordScore::new();
    assert_eq!(score.non_neutral_average(), Average { numerator: 0, denominator: 1 });
    score.add(0);
    assert_eq!(score.non_neutral_average(), Average { numerator: 0, denominator: 1 });
    let average = score.non_neutral_average();
    let value = average.numerator as f64 / average.denominator as f64;
    assert_eq!(value, 0.0);
    assert!(value.is_finite());
}

#[test]
fn average_is_sum_over_scored_count() {
    let mut score = KeywordScore::new();
    score.add(3);
    score.add(-1);
    score.add(0);
    assert_eq!(score.non_neutral_average(), Average { numerator: 2, denominator: 2 });
    score.add(5);
    assert_eq!(score.non_neutral_average(), Average { numerator: 7, denominator: 3 });
    let average = score.non_neutral_average();
    let value = average.numerator as f64 / average.denominator as f64;
    assert!(value.is_finite());
    assert!((value - 7.0 / 3.0).abs() < 1e-12);
}

#[test]
fn average_of_extreme_scores_is_defined() {
    let mut score = KeywordScore::new();
    score.add(i32::MIN);
    score.add(i32::MIN);
    assert_eq!(score.score_sum(), 2 * (i32::MIN as i64));
    assert_eq!(score.non_neutral_average(), Average { numerator: 2 * (i32::MIN as i64), denominator: 2 });
    let mut other = KeywordScore::new();
    other.add(i32::MAX);
    assert_eq!(other.non_neutral_average(), Average { numerator: i32::MAX as i64, denominator: 1 });
}

#[test]
fn addition_order_does_not_matter() {
    let scores: [i32; 6] = [3, 0, -2, 5, 0, -4];
    let mut forward = KeywordScore::new();
    for s in scores {
        forward.add(s);
    }
    let mut backward = KeywordScore::new();
    for s in scores.iter().rev() {
        backward.add(*s);
    }
    assert_eq!(forward.score_sum(), 2);
    assert_eq!(forward.score_sum(), backward.score_sum());
    assert_eq!(forward.non_neutral_count(), 4);
    assert_eq!(forward.non_neutral_count(), backward.non_neutral_count());
    assert_eq!(forward.tweet_count(), 6);
    assert_eq!(forward.tweet_count(), backward.tweet_count());
}

#[test]
fn averages_snapshot_is_index_aligned() {
    let mut first = KeywordScore::new();
    first.add(2);
    first.add(4);
    let second = KeywordScore::new();
    let mut third = KeywordScore::new();
    third.add(-3);
    let list = averages(&vec![first, second, third]);
    assert_eq!(
        list,
        vec![
            Average { numerator: 6, denominator: 2 },
            Average { numerator: 0, denominator: 1 },
            Average { numerator: -3, denominator: 1 },
        ]
    );
    assert_eq!(averages(&Vec::new()), Vec::<Average>::new());
}

#[test]
fn fractions_compare_by_value() {
    let half = Average { numerator: 1, denominator: 2 };
    let two_quarters = Average { numerator: 2, denominator: 4 };
    let third = Average { numerator: 1, denominator: 3 };
    let minus = Average { numerator: -7, denominator: 3 };
    assert!(half.at_most(&two_quarters));
    assert!(two_quarters.at_most(&half));
    assert!(third.at_most(&half));
    assert!(!half.at_most(&third));
    assert!(minus.at_most(&Average::zero()));
    assert!(!Average::zero().at_most(&minus));
    let big = Average { numerator: i64::MAX, denominator: 1 };
    let small = Average { numerator: i64::MIN, denominator: u32::MAX };
    assert!(small.at_most(&big));
    assert!(!big.at_most(&small));
    assert_eq!(Average::zero(), Average { numerator: 0, denominator: 1 });
}

#[test]
fn fresh_and_used_scores_are_consistent() {
    let mut score = KeywordScore::new();
    assert!(score.is_wf());
    score.add(i32::MAX);
    score.add(i32::MIN);
    score.add(0);
    assert!(score.is_wf());
    assert!(score.can_add());
}
