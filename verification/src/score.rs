//! The keyword score accumulator: one running tally per tracked keyword.

use vstd::prelude::*;

verus! {

/// The largest magnitude of a single message score.
pub const SCORE_LIMIT: i64 = 0x8000_0000;

/// The mathematical content of a keyword's tally.
pub struct Tally {
    /// Sum of the scores of all non-neutral messages.
    pub sum: int,
    /// Number of messages with a non-zero score.
    pub scored: nat,
    /// Number of messages that matched the keyword.
    pub matched: nat,
}

/// An exact fraction `numerator / denominator`.
pub struct Ratio {
    pub numerator: int,
    pub denominator: int,
}

/// The tally of a keyword that no message has matched yet.
pub open spec fn empty_tally() -> Tally {
    Tally { sum: 0, scored: 0, matched: 0 }
}

/// The tally after one more matching message with the given score. A
/// neutral message counts as a match and leaves the average alone.
pub open spec fn tally_add(t: Tally, score: int) -> Tally {
    Tally {
        sum: t.sum + score,
        scored: if score != 0 {
            t.scored + 1
        } else {
            t.scored
        },
        matched: t.matched + 1,
    }
}

/// The average score over the non-neutral messages, and zero when there are
/// none. The denominator is never zero.
pub open spec fn average_of(t: Tally) -> Ratio {
    if t.scored == 0 {
        Ratio { numerator: 0, denominator: 1 }
    } else {
        Ratio { numerator: t.sum, denominator: t.scored as int }
    }
}

/// `x <= y` as fractions, for fractions with a positive denominator.
pub open spec fn ratio_le(x: Ratio, y: Ratio) -> bool {
    x.numerator * y.denominator <= y.numerator * x.denominator
}

/// The fraction zero.
pub open spec fn zero_ratio() -> Ratio {
    Ratio { numerator: 0, denominator: 1 }
}

/// The effect of one scored message: which keywords it matched, by index,
/// and its score.
pub struct Scored {
    pub hits: Seq<bool>,
    pub score: int,
}

/// All tallies after one scored message: the matched keywords take the
/// score, the others stay.
pub open spec fn apply_scored(tallies: Seq<Tally>, event: Scored) -> Seq<Tally> {
    Seq::new(
        tallies.len(),
        |i: int|
            if i < event.hits.len() && event.hits[i] {
                tally_add(tallies[i], event.score)
            } else {
                tallies[i]
            },
    )
}

/// What the messages add up to: the tally of each keyword and the number of
/// messages that were scored.
pub struct Totals {
    pub tallies: Seq<Tally>,
    pub count: nat,
}

/// The totals after one message: a scored message updates the tallies and
/// is counted, a dropped one (`None`) changes nothing.
pub open spec fn take_in(totals: Totals, effect: Option<Scored>) -> Totals {
    match effect {
        Some(event) => Totals {
            tallies: apply_scored(totals.tallies, event),
            count: totals.count + 1,
        },
        None => totals,
    }
}

/// The totals after a run of messages, taken one after another.
pub open spec fn take_in_all(totals: Totals, effects: Seq<Option<Scored>>) -> Totals
    decreases effects.len(),
{
    if effects.len() == 0 {
        totals
    } else {
        take_in(take_in_all(totals, effects.drop_last()), effects.last())
    }
}

/// How many of the flags are set.
pub open spec fn count_hits(hits: Seq<bool>) -> nat
    decreases hits.len(),
{
    if hits.len() == 0 {
        0
    } else {
        count_hits(hits.drop_last()) + if hits.last() {
            1nat
        } else {
            0nat
        }
    }
}

/// An average as an exact fraction of machine integers.
#[derive(Clone, Copy, Debug, PartialEq, Eq)]
pub struct Average {
    pub numerator: i64,
    pub denominator: u32,
}

impl View for Average {
    type V = Ratio;

    open spec fn view(&self) -> Ratio {
        Ratio { numerator: self.numerator as int, denominator: self.denominator as int }
    }
}

impl Average {
    /// The average zero.
    pub fn zero() -> (average: Self)
        ensures
            average@ == zero_ratio(),
    {
        Average { numerator: 0, denominator: 1 }
    }

    /// Whether this fraction is at most the other. Both denominators must
    /// be positive.
    pub fn at_most(&self, other: &Average) -> (le: bool)
        requires
            self.denominator >= 1,
            other.denominator >= 1,
        ensures
            le == ratio_le(self@, other@),
    {
        proof {
            lemma_product_fits(self.numerator as int, other.denominator as int);
            lemma_product_fits(other.numerator as int, self.denominator as int);
        }
        let left: i128 = (self.numerator as i128) * (other.denominator as i128);
        let right: i128 = (other.numerator as i128) * (self.denominator as i128);
        left <= right
    }
}

/// A tally of information used to calculate a keyword's overall score.
#[derive(Clone, Copy, Debug)]
pub struct KeywordScore {
    /// Cumulative score of all non-neutral messages.
    score_sum: i64,
    /// Count of messages with a non-zero sentiment score.
    non_neutral_count: u32,
    /// Total count of messages matching this keyword.
    tweet_count: u32,
}

impl View for KeywordScore {
    type V = Tally;

    closed spec fn view(&self) -> Tally {
        Tally {
            sum: self.score_sum as int,
            scored: self.non_neutral_count as nat,
            matched: self.tweet_count as nat,
        }
    }
}

impl Default for KeywordScore {
    fn default() -> (score: Self)
        ensures
            score.wf(),
            score@ == empty_tally(),
    {
        KeywordScore::new()
    }
}

impl KeywordScore {
    /// The tally is consistent: no more scored messages than matches, and a
    /// sum that the scored messages can account for.
    pub closed spec fn wf(&self) -> bool {
        &&& self.non_neutral_count <= self.tweet_count
        &&& -(self.non_neutral_count * SCORE_LIMIT) <= self.score_sum <= self.non_neutral_count
            * SCORE_LIMIT
    }

    /// Whether one more match can be counted.
    pub open spec fn has_room(&self) -> bool {
        self@.matched < u32::MAX
    }

    /// An empty tally.
    pub fn new() -> (score: Self)
        ensures
            score.wf(),
            score@ == empty_tally(),
    {
        KeywordScore { score_sum: 0, non_neutral_count: 0, tweet_count: 0 }
    }

    /// Whether the tally is consistent.
    pub fn is_wf(&self) -> (ok: bool)
        ensures
            ok == self.wf(),
    {
        let sum: i128 = self.score_sum as i128;
        let bound: i128 = (self.non_neutral_count as i128) * (SCORE_LIMIT as i128);
        self.non_neutral_count <= self.tweet_count && -bound <= sum && sum <= bound
    }

    /// Whether one more match can be counted.
    pub fn can_add(&self) -> (room: bool)
        ensures
            room == self.has_room(),
    {
        self.tweet_count < u32::MAX
    }

    /// Cumulative score of all non-neutral messages.
    pub fn score_sum(&self) -> (sum: i64)
        ensures
            sum == self@.sum,
    {
        self.score_sum
    }

    /// Count of messages with a non-zero sentiment score.
    pub fn non_neutral_count(&self) -> (count: u32)
        ensures
            count == self@.scored,
    {
        self.non_neutral_count
    }

    /// Total count of messages matching this keyword.
    pub fn tweet_count(&self) -> (count: u32)
        ensures
            count == self@.matched,
    {
        self.tweet_count
    }

    /// Counts one more matching message with the given score.
    pub fn add(&mut self, score: i32)
        requires
            old(self).wf(),
            old(self).has_room(),
        ensures
            final(self).wf(),
            final(self)@ == tally_add(old(self)@, score as int),
    {
        self.tweet_count += 1;
        if score != 0 {
            self.score_sum += score as i64;
            self.non_neutral_count += 1;
        }
    }

    /// The average score over the non-neutral messages, as an exact
    /// fraction; zero over one when there are none.
    pub fn non_neutral_average(&self) -> (average: Average)
        ensures
            average@ == average_of(self@),
            average.denominator >= 1,
    {
        if self.non_neutral_count == 0 {
            return Average { numerator: 0, denominator: 1 };
        }
        Average { numerator: self.score_sum, denominator: self.non_neutral_count }
    }
}

/// The tallies that a list of keyword scores holds, index by index.
pub open spec fn tallies_of(scores: Seq<KeywordScore>) -> Seq<Tally> {
    Seq::new(scores.len(), |i: int| scores[i]@)
}

/// Every score in the list is consistent.
pub open spec fn all_wf(scores: Seq<KeywordScore>) -> bool {
    forall|i: int| 0 <= i < scores.len() ==> (#[trigger] scores[i]).wf()
}

/// The averages of a list of tallies, index by index.
pub open spec fn averages_of(tallies: Seq<Tally>) -> Seq<Ratio> {
    Seq::new(tallies.len(), |i: int| average_of(tallies[i]))
}

/// The fractions that a list of averages stands for, index by index.
pub open spec fn ratios_of(points: Seq<Average>) -> Seq<Ratio> {
    Seq::new(points.len(), |j: int| points[j]@)
}

/// A snapshot of the current average of every keyword, index by index.
pub fn averages(scores: &Vec<KeywordScore>) -> (list: Vec<Average>)
    ensures
        ratios_of(list@) == averages_of(tallies_of(scores@)),
        forall|i: int| 0 <= i < list@.len() ==> (#[trigger] list@[i]).denominator >= 1,
{
    let count = scores.len();
    let mut list: Vec<Average> = Vec::new();
    let mut i: usize = 0;
    while i < count
        invariant
            i <= count,
            count == scores@.len(),
            list@.len() == i,
            forall|k: int| 0 <= k < i ==> (#[trigger] list@[k])@ == average_of(scores@[k]@),
            forall|k: int| 0 <= k < i ==> (#[trigger] list@[k]).denominator >= 1,
        decreases count - i,
    {
        list.push(scores[i].non_neutral_average());
        i += 1;
    }
    assert(ratios_of(list@) =~= averages_of(tallies_of(scores@)));
    list
}

/// A 64-bit numerator times a 32-bit denominator stays well within 128
/// bits.
proof fn lemma_product_fits(n: int, d: int)
    requires
        -0x8000_0000_0000_0000 <= n < 0x8000_0000_0000_0000,
        0 <= d < 0x1_0000_0000,
    ensures
        -0x8000_0000_0000_0000_0000_0000 <= n * d <= 0x8000_0000_0000_0000_0000_0000,
{
    assert(-0x8000_0000_0000_0000_0000_0000 <= n * d <= 0x8000_0000_0000_0000_0000_0000)
        by (nonlinear_arith)
        requires
            -0x8000_0000_0000_0000 <= n < 0x8000_0000_0000_0000,
            0 <= d < 0x1_0000_0000,
    ;
}

/// The order of fractions with positive denominators is transitive.
pub proof fn lemma_ratio_le_transitive(x: Ratio, y: Ratio, z: Ratio)
    requires
        x.denominator >= 1,
        y.denominator >= 1,
        z.denominator >= 1,
        ratio_le(x, y),
        ratio_le(y, z),
    ensures
        ratio_le(x, z),
{
    let (a, b) = (x.numerator, x.denominator);
    let (c, d) = (y.numerator, y.denominator);
    let (e, f) = (z.numerator, z.denominator);
    assert(a * d * f <= c * b * f) by (nonlinear_arith)
        requires
            a * d <= c * b,
            f >= 1,
    ;
    assert(c * f * b <= e * d * b) by (nonlinear_arith)
        requires
            c * f <= e * d,
            b >= 1,
    ;
    assert(a * f <= e * b) by (nonlinear_arith)
        requires
            a * d * f <= c * b * f,
            c * f * b <= e * d * b,
            d >= 1,
    ;
}

/// An average is always a defined number, and it is zero while no
/// non-neutral message has been counted.
pub proof fn lemma_average_defined(t: Tally)
    ensures
        average_of(t).denominator >= 1,
        t.scored == 0 ==> average_of(t).numerator == 0,
        t.scored > 0 ==> average_of(t).numerator == t.sum && average_of(t).denominator
            == t.scored,
{
}

/// Two messages have the same effect in either order.
pub proof fn lemma_take_in_commutes(totals: Totals, a: Option<Scored>, b: Option<Scored>)
    ensures
        take_in(take_in(totals, a), b) == take_in(take_in(totals, b), a),
{
    assert(take_in(take_in(totals, a), b).tallies =~= take_in(take_in(totals, b), a).tallies);
}

/// Taking one message out of a run and applying it last gives the same
/// totals as the run itself.
pub proof fn lemma_taken_in_last(totals: Totals, effects: Seq<Option<Scored>>, at: int)
    requires
        0 <= at < effects.len(),
    ensures
        take_in_all(totals, effects) == take_in(
            take_in_all(totals, effects.remove(at)),
            effects[at],
        ),
    decreases effects.len(),
{
    if at == effects.len() - 1 {
        assert(effects.remove(at) =~= effects.drop_last());
    } else {
        let front = effects.drop_last();
        lemma_taken_in_last(totals, front, at);
        let rest = effects.remove(at);
        assert(rest.drop_last() =~= front.remove(at));
        assert(rest.last() == effects.last());
        assert(front[at] == effects[at]);
        lemma_take_in_commutes(take_in_all(totals, front.remove(at)), effects[at], effects.last());
        assert(take_in_all(totals, rest) == take_in(
            take_in_all(totals, rest.drop_last()),
            rest.last(),
        ));
    }
}

/// The final sums and counts depend only on which messages arrived, not on
/// the order in which they were taken in: two runs with the same multiset
/// of messages end in the same totals.
pub proof fn lemma_order_independent(
    totals: Totals,
    first: Seq<Option<Scored>>,
    second: Seq<Option<Scored>>,
)
    requires
        first.to_multiset() == second.to_multiset(),
    ensures
        take_in_all(totals, first) == take_in_all(totals, second),
    decreases first.len(),
{
    broadcast use vstd::seq_lib::group_to_multiset_ensures;

    assert(first.len() == first.to_multiset().len());
    assert(second.len() == second.to_multiset().len());
    if first.len() > 0 {
        let effect = first.last();
        assert(first.contains(effect));
        assert(second.to_multiset().count(effect) > 0);
        assert(second.contains(effect));
        let at = choose|at: int| 0 <= at < second.len() && second[at] == effect;
        let front = first.drop_last();
        assert(front =~= first.remove(first.len() - 1));
        assert(front.to_multiset() =~= second.remove(at).to_multiset());
        lemma_order_independent(totals, front, second.remove(at));
        lemma_taken_in_last(totals, second, at);
    }
}

/// Nothing is ever reset: a run of messages keeps the number of tallies,
/// and neither a keyword's match count nor the message count goes down.
pub proof fn lemma_totals_never_drop(totals: Totals, effects: Seq<Option<Scored>>)
    ensures
        take_in_all(totals, effects).tallies.len() == totals.tallies.len(),
        take_in_all(totals, effects).count >= totals.count,
        forall|i: int|
            0 <= i < totals.tallies.len() ==> (#[trigger] take_in_all(
                totals,
                effects,
            ).tallies[i]).matched >= totals.tallies[i].matched,
    decreases effects.len(),
{
    if effects.len() > 0 {
        lemma_totals_never_drop(totals, effects.drop_last());
    }
}

} // verus!
