//! The snapshot history: for each keyword, the averages recorded second by
//! second, which the renderer draws as one line per keyword.

use crate::keywords::{default_keywords, keywords};
use crate::score::{
    average_of, averages_of, lemma_ratio_le_transitive, ratio_le, ratios_of, tallies_of,
    zero_ratio, Average, KeywordScore, Ratio,
};
use vstd::prelude::*;

verus! {

/// The history after one more snapshot: every keyword's series grows by that
/// keyword's average.
pub open spec fn with_snapshot(history: Seq<Seq<Ratio>>, averages: Seq<Ratio>) -> Seq<Seq<Ratio>>
    recommends
        history.len() == averages.len(),
{
    Seq::new(history.len(), |i: int| history[i].push(averages[i]))
}

/// The last `keep` points of a series, or all of them if there are fewer.
pub open spec fn latest(points: Seq<Ratio>, keep: nat) -> Seq<Ratio> {
    if points.len() <= keep {
        points
    } else {
        points.subrange(points.len() - keep, points.len() as int)
    }
}

/// The history with every series cut down to its last `keep` points.
pub open spec fn with_latest(history: Seq<Seq<Ratio>>, keep: nat) -> Seq<Seq<Ratio>> {
    Seq::new(history.len(), |i: int| latest(history[i], keep))
}

/// A history of `count` keywords in which nothing is recorded yet.
pub open spec fn empty_history(count: nat) -> Seq<Seq<Ratio>> {
    Seq::new(count, |i: int| Seq::<Ratio>::empty())
}

/// Every recorded point is a fraction with a positive denominator.
pub open spec fn all_defined(history: Seq<Seq<Ratio>>) -> bool {
    forall|i: int, j: int|
        0 <= i < history.len() && 0 <= j < history[i].len() ==> (#[trigger] history[i][j]).denominator
            >= 1
}

/// The point at row `i` and column `j` comes before position `(rows, cols)`
/// when the history is read row by row.
pub open spec fn comes_before(i: int, j: int, rows: int, cols: int) -> bool {
    i < rows || (i == rows && j < cols)
}

/// `low` is at most zero and at most every point that comes before
/// `(rows, cols)`.
pub open spec fn below_points(history: Seq<Seq<Ratio>>, low: Ratio, rows: int, cols: int) -> bool {
    &&& ratio_le(low, zero_ratio())
    &&& forall|i: int, j: int|
        0 <= i < history.len() && 0 <= j < history[i].len() && comes_before(i, j, rows, cols)
            ==> ratio_le(low, #[trigger] history[i][j])
}

/// `high` is at least zero and at least every point that comes before
/// `(rows, cols)`.
pub open spec fn above_points(history: Seq<Seq<Ratio>>, high: Ratio, rows: int, cols: int) -> bool {
    &&& ratio_le(zero_ratio(), high)
    &&& forall|i: int, j: int|
        0 <= i < history.len() && 0 <= j < history[i].len() && comes_before(i, j, rows, cols)
            ==> ratio_le(#[trigger] history[i][j], high)
}

/// `low` is at most zero and at most every recorded point.
pub open spec fn at_most_all(history: Seq<Seq<Ratio>>, low: Ratio) -> bool {
    below_points(history, low, history.len() as int, 0)
}

/// `high` is at least zero and at least every recorded point.
pub open spec fn at_least_all(history: Seq<Seq<Ratio>>, high: Ratio) -> bool {
    above_points(history, high, history.len() as int, 0)
}

/// The value is zero or one of the recorded points.
pub open spec fn attained(history: Seq<Seq<Ratio>>, value: Ratio) -> bool {
    value == zero_ratio() || exists|i: int, j: int|
        0 <= i < history.len() && 0 <= j < history[i].len() && #[trigger] history[i][j] == value
}

/// One series of averages per keyword, index-aligned with the keyword list.
pub struct Chart(Vec<Vec<Average>>);

impl View for Chart {
    type V = Seq<Seq<Ratio>>;

    closed spec fn view(&self) -> Seq<Seq<Ratio>> {
        Seq::new(self.0@.len(), |i: int| ratios_of(self.0@[i]@))
    }
}

impl Chart {
    /// An empty series for each of the default keywords.
    pub fn new() -> (chart: Self)
        ensures
            chart@ == empty_history(default_keywords().len()),
            all_defined(chart@),
    {
        Chart::with_series(keywords().len())
    }

    /// An empty series for each of `count` keywords.
    pub fn with_series(count: usize) -> (chart: Self)
        ensures
            chart@ == empty_history(count as nat),
            all_defined(chart@),
    {
        let mut series: Vec<Vec<Average>> = Vec::new();
        let mut i: usize = 0;
        while i < count
            invariant
                i <= count,
                series@.len() == i,
                forall|k: int| 0 <= k < i ==> (#[trigger] series@[k])@.len() == 0,
            decreases count - i,
        {
            series.push(Vec::new());
            i += 1;
        }
        let chart = Chart(series);
        assert(chart@ =~~= empty_history(count as nat));
        chart
    }

    /// The number of keywords that the chart has a series for.
    pub fn series_count(&self) -> (count: usize)
        ensures
            count == self@.len(),
    {
        self.0.len()
    }

    /// The averages recorded for the keyword with the given index, oldest
    /// first.
    pub fn series(&self, idx: usize) -> (points: &Vec<Average>)
        requires
            idx < self@.len(),
        ensures
            ratios_of(points@) == self@[idx as int],
    {
        &self.0[idx]
    }

    /// Given a keyword index, pushes the value onto the end of its series.
    pub fn push(&mut self, idx: usize, val: Average)
        requires
            idx < old(self)@.len(),
        ensures
            final(self)@ == old(self)@.update(idx as int, old(self)@[idx as int].push(val@)),
            all_defined(old(self)@) && val.denominator >= 1 ==> all_defined(final(self)@),
    {
        let ghost before = self.0@;
        self.0[idx].push(val);
        assert(self.0@.len() == before.len());
        assert(forall|k: int| 0 <= k < before.len() && k != idx ==> self.0@[k] == before[k]);
        assert(self.0@[idx as int]@ == before[idx as int]@.push(val));
        assert(self@ =~~= old(self)@.update(idx as int, old(self)@[idx as int].push(val@)));
    }

    /// Records one snapshot: the current average of every keyword is pushed
    /// onto that keyword's series.
    pub fn record(&mut self, scores: &Vec<KeywordScore>)
        requires
            old(self)@.len() == scores@.len(),
        ensures
            final(self)@ == with_snapshot(old(self)@, averages_of(tallies_of(scores@))),
            all_defined(old(self)@) ==> all_defined(final(self)@),
    {
        let count = scores.len();
        let mut i: usize = 0;
        while i < count
            invariant
                i <= count,
                count == scores@.len(),
                self@.len() == count,
                forall|k: int|
                    0 <= k < i ==> #[trigger] self@[k] == old(self)@[k].push(
                        average_of(scores@[k]@),
                    ),
                forall|k: int| i <= k < count ==> #[trigger] self@[k] == old(self)@[k],
                all_defined(old(self)@) ==> all_defined(self@),
            decreases count - i,
        {
            let average = scores[i].non_neutral_average();
            self.push(i, average);
            i += 1;
        }
        assert(self@ =~~= with_snapshot(old(self)@, averages_of(tallies_of(scores@))));
    }

    /// Bounds the history: of every series only the last `keep` points are
    /// retained, in their order.
    pub fn retain_latest(&mut self, keep: usize)
        ensures
            final(self)@ == with_latest(old(self)@, keep as nat),
            all_defined(old(self)@) ==> all_defined(final(self)@),
    {
        let rows = self.0.len();
        let mut i: usize = 0;
        while i < rows
            invariant
                i <= rows,
                rows == self@.len(),
                rows == old(self)@.len(),
                forall|k: int| 0 <= k < i ==> #[trigger] self@[k] == latest(old(self)@[k], keep as nat),
                forall|k: int| i <= k < rows ==> #[trigger] self@[k] == old(self)@[k],
            decreases rows - i,
        {
            let ghost prior = self@;
            let len = self.0[i].len();
            assert(prior[i as int].len() == len);
            if len > keep {
                let start = len - keep;
                let mut tail: Vec<Average> = Vec::new();
                let mut j: usize = start;
                while j < len
                    invariant
                        i < rows,
                        rows == self@.len(),
                        start <= j <= len,
                        len == self.0@[i as int]@.len(),
                        tail@.len() == j - start,
                        forall|t: int|
                            0 <= t < tail@.len() ==> #[trigger] tail@[t] == self.0@[i as int]@[start
                                + t],
                    decreases len - j,
                {
                    tail.push(self.0[i][j]);
                    j += 1;
                }
                assert(ratios_of(tail@) =~= latest(prior[i as int], keep as nat));
                let ghost before = self.0@;
                self.0[i] = tail;
                assert(self.0@ =~= before.update(i as int, tail));
                assert forall|k: int| 0 <= k < rows implies #[trigger] self@[k] == if k == i {
                    latest(prior[i as int], keep as nat)
                } else {
                    prior[k]
                } by {
                    if k != i {
                        assert(self.0@[k] == before[k]);
                    }
                }
            }
            i += 1;
        }
        assert(self@ =~= with_latest(old(self)@, keep as nat));
        proof {
            if all_defined(old(self)@) {
                assert forall|a: int, b: int|
                    0 <= a < self@.len() && 0 <= b < self@[a].len() implies (#[trigger] self@[a][b]).denominator
                    >= 1 by {
                    let whole = old(self)@[a];
                    if whole.len() > keep {
                        assert(self@[a][b] == whole[whole.len() - keep + b]);
                    }
                }
            }
        }
    }

    /// Whether every recorded point has a positive denominator.
    pub fn is_defined(&self) -> (ok: bool)
        ensures
            ok == all_defined(self@),
    {
        let rows = self.0.len();
        let mut i: usize = 0;
        while i < rows
            invariant
                i <= rows,
                rows == self@.len(),
                forall|a: int, b: int|
                    0 <= a < i && 0 <= b < self@[a].len() ==> (#[trigger] self@[a][b]).denominator
                        >= 1,
            decreases rows - i,
        {
            let cols = self.0[i].len();
            let mut j: usize = 0;
            while j < cols
                invariant
                    i < rows,
                    j <= cols,
                    rows == self@.len(),
                    cols == self@[i as int].len(),
                    forall|a: int, b: int|
                        0 <= a < self@.len() && 0 <= b < self@[a].len() && comes_before(
                            a,
                            b,
                            i as int,
                            j as int,
                        ) ==> (#[trigger] self@[a][b]).denominator >= 1,
                decreases cols - j,
            {
                if self.0[i][j].denominator == 0 {
                    assert(self@[i as int][j as int].denominator == 0);
                    return false;
                }
                j += 1;
            }
            i += 1;
        }
        true
    }

    /// The number of points recorded for the first keyword, which is the
    /// number of snapshots taken.
    pub fn point_count(&self) -> (count: usize)
        requires
            self@.len() > 0,
        ensures
            count == self@[0].len(),
    {
        self.0[0].len()
    }

    /// The range of values that the chart has to show: the least and the
    /// greatest of zero and all recorded points.
    pub fn value_range(&self) -> (range: (Average, Average))
        requires
            all_defined(self@),
        ensures
            range.0.denominator >= 1,
            range.1.denominator >= 1,
            at_most_all(self@, range.0@),
            at_least_all(self@, range.1@),
            attained(self@, range.0@),
            attained(self@, range.1@),
    {
        let mut low = Average::zero();
        let mut high = Average::zero();
        let rows = self.0.len();
        let mut i: usize = 0;
        while i < rows
            invariant
                i <= rows,
                rows == self@.len(),
                all_defined(self@),
                low.denominator >= 1,
                high.denominator >= 1,
                below_points(self@, low@, i as int, 0),
                above_points(self@, high@, i as int, 0),
                attained(self@, low@),
                attained(self@, high@),
            decreases rows - i,
        {
            let cols = self.0[i].len();
            let mut j: usize = 0;
            while j < cols
                invariant
                    i < rows,
                    j <= cols,
                    rows == self@.len(),
                    cols == self@[i as int].len(),
                    all_defined(self@),
                    low.denominator >= 1,
                    high.denominator >= 1,
                    below_points(self@, low@, i as int, j as int),
                    above_points(self@, high@, i as int, j as int),
                    attained(self@, low@),
                    attained(self@, high@),
                decreases cols - j,
            {
                let point = self.0[i][j];
                let ghost low_before = low@;
                let ghost high_before = high@;
                assert(point@ == self@[i as int][j as int]);
                assert(point.denominator >= 1);
                if !low.at_most(&point) {
                    low = point;
                }
                if !point.at_most(&high) {
                    high = point;
                }
                proof {
                    let here = self@[i as int][j as int];
                    assert(ratio_le(low@, low_before));
                    assert(ratio_le(high_before, high@));
                    lemma_ratio_le_transitive(low@, low_before, zero_ratio());
                    lemma_ratio_le_transitive(zero_ratio(), high_before, high@);
                    assert forall|a: int, b: int|
                        0 <= a < self@.len() && 0 <= b < self@[a].len() && comes_before(
                            a,
                            b,
                            i as int,
                            j + 1,
                        ) implies ratio_le(low@, #[trigger] self@[a][b]) && ratio_le(
                        self@[a][b],
                        high@,
                    ) by {
                        if comes_before(a, b, i as int, j as int) {
                            lemma_ratio_le_transitive(low@, low_before, self@[a][b]);
                            lemma_ratio_le_transitive(self@[a][b], high_before, high@);
                        }
                    }
                }
                j += 1;
            }
            i += 1;
        }
        (low, high)
    }
}

} // verus!
