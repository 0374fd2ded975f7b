use keyword_sentiment::plot::Chart;
use keyword_sentiment::score::Average;
use keyword_sentiment::score::KeywordScore;

#[test]
fn new_chart_has_an_empty_series_per_default_keyword() {
    let chart = Chart::new();
    assert_eq!(chart.series_count(), 10);
    for idx in 0..10 {
        assert!(chart.series(idx).is_empty());
    }
    assert_eq!(chart.point_count(), 0);
}

#[test]
fn with_series_makes_the_given_number_of_series() {
    assert_eq!(Chart::with_series(0).series_count(), 0);
    let chart = Chart::with_series(3);
    assert_eq!(chart.series_count(), 3);
    assert!(chart.series(2).is_empty());
}

#[test]
fn push_appends_to_one_series() {
    let mut chart = Chart::with_series(3);
    chart.push(1, Average { numerator: 5, denominator: 2 });
    chart.push(1, Average { numerator: -1, denominator: 1 });
    chart.push(2, Average { numerator: 0, denominator: 1 });
    assert!(chart.series(0).is_empty());
    assert_eq!(
        chart.series(1),
        &vec![Average { numerator: 5, denominator: 2 }, Average { numerator: -1, denominator: 1 }]
    );
    assert_eq!(chart.series(2), &vec![Average { numerator: 0, denominator: 1 }]);
}

#[test]
fn record_appends_every_average() {
    let mut chart = Chart::with_series(2);
    let mut scores = vec![KeywordScore::new(), KeywordScore::new()];
    chart.record(&scores);
    scores[0].add(3);
    scores[0].add(4);
    scores[1].add(0);
    chart.record(&scores);
    assert_eq!(
        chart.series(0),
        &vec![Average { numerator: 0, denominator: 1 }, Average { numerator: 7, denominator: 2 }]
    );
    assert_eq!(
        chart.series(1),
        &vec![Average { numerator: 0, denominator: 1 }, Average { numerator: 0, denominator: 1 }]
    );
    assert_eq!(chart.point_count(), 2);
}

#[test]
fn value_range_of_empty_chart_is_zero() {
    let chart = Chart::with_series(4);
    assert_eq!(chart.value_range(), (Average::zero(), Average::zero()));
    let none = Chart::with_series(0);
    assert_eq!(none.value_range(), (Average::zero(), Average::zero()));
}

#[test]
fn value_range_spans_zero_and_all_points() {
    let mut chart = Chart::with_series(3);
    chart.push(0, Average { numerator: 1, denominator: 2 });
    chart.push(0, Average { numerator: 7, denominator: 3 });
    chart.push(1, Average { numerator: -5, denominator: 4 });
    chart.push(2, Average { numerator: 9, denominator: 4 });
    chart.push(2, Average { numerator: -1, denominator: 1 });
    let (low, high) = chart.value_range();
    assert_eq!(low, Average { numerator: -5, denominator: 4 });
    assert_eq!(high, Average { numerator: 7, denominator: 3 });
}

#[test]
fn value_range_keeps_zero_when_all_points_are_on_one_side() {
    let mut chart = Chart::with_series(1);
    chart.push(0, Average { numerator: 2, denominator: 1 });
    chart.push(0, Average { numerator: 3, denominator: 2 });
    assert_eq!(chart.value_range(), (Average::zero(), Average { numerator: 2, denominator: 1 }));
    let mut below = Chart::with_series(1);
    below.push(0, Average { numerator: -2, denominator: 5 });
    assert_eq!(below.value_range(), (Average { numerator: -2, denominator: 5 }, Average::zero()));
}

#[test]
fn retain_latest_keeps_the_newest_points() {
    let mut chart = Chart::with_series(3);
    for n in 1..=5 {
        chart.push(0, Average { numerator: n, denominator: 1 });
    }
    chart.push(1, Average { numerator: 7, denominator: 2 });
    chart.retain_latest(3);
    assert_eq!(
        chart.series(0),
        &vec![
            Average { numerator: 3, denominator: 1 },
            Average { numerator: 4, denominator: 1 },
            Average { numerator: 5, denominator: 1 },
        ]
    );
    assert_eq!(chart.series(1), &vec![Average { numerator: 7, denominator: 2 }]);
    assert!(chart.series(2).is_empty());
    chart.retain_latest(3);
    assert_eq!(chart.series(0).len(), 3);
    chart.retain_latest(0);
    assert!(chart.series(0).is_empty());
    assert!(chart.series(1).is_empty());
    assert_eq!(chart.series_count(), 3);
}

#[test]
fn is_defined_finds_a_zero_denominator() {
    let mut chart = Chart::with_series(2);
    assert!(chart.is_defined());
    chart.push(1, Average { numerator: 1, denominator: 3 });
    assert!(chart.is_defined());
    chart.push(1, Average { numerator: 1, denominator: 0 });
    assert!(!chart.is_defined());
    chart.push(1, Average { numerator: 1, denominator: 1 });
    chart.retain_latest(1);
    assert!(chart.is_defined());
}
