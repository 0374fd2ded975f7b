//! The tick tracker: elapsed-time bookkeeping that lets exactly one caller
//! act on each new second.

use std::time::Duration;
use std::time::Instant;
use vstd::prelude::*;

verus! {

/// `std::time::Instant`, carried through as an opaque value.
#[verifier::external_type_specification]
#[verifier::external_body]
pub struct ExInstant(std::time::Instant);

/// `Instant::now`: the reading depends on the clock, so nothing is claimed
/// of it.
#[verifier::external_body]
fn clock_now() -> Instant {
    Instant::now()
}

/// `Instant::elapsed`: the time since `start`, which depends on the clock,
/// so nothing is claimed of it.
#[verifier::external_body]
fn elapsed_since(start: &Instant) -> Duration {
    start.elapsed()
}

/// `Duration::as_secs`: nothing is claimed of the number, because the
/// duration it is read from is itself a clock reading.
#[verifier::external_body]
fn whole_seconds(span: &Duration) -> u64 {
    span.as_secs()
}

/// What one look at the clock does to the tracker: the last recorded second
/// afterwards, and the second that the caller won, if any.
pub open spec fn tick_step(last: u64, elapsed: u64) -> (u64, Option<u64>) {
    if elapsed > last {
        (elapsed, Some(elapsed))
    } else {
        (last, None)
    }
}

/// The last recorded second after the tracker has seen `observed`, in
/// order, starting from `last`.
pub open spec fn last_after(last: u64, observed: Seq<u64>) -> u64
    decreases observed.len(),
{
    if observed.len() == 0 {
        last
    } else {
        tick_step(last_after(last, observed.drop_last()), observed.last()).0
    }
}

/// The second won by the caller that made observation `i`, if it won one.
pub open spec fn winner_at(last: u64, observed: Seq<u64>, i: int) -> Option<u64>
    recommends
        0 <= i < observed.len(),
{
    tick_step(last_after(last, observed.take(i)), observed[i]).1
}

/// How many of the observations won a second.
pub open spec fn wins(last: u64, observed: Seq<u64>) -> nat
    decreases observed.len(),
{
    if observed.len() == 0 {
        0
    } else {
        let before = wins(last, observed.drop_last());
        if observed.last() > last_after(last, observed.drop_last()) {
            before + 1
        } else {
            before
        }
    }
}

/// Application start time and the last second for which a tick was recorded.
pub struct TickTracker {
    started_at: Instant,
    seconds_count: u64,
}

impl TickTracker {
    /// The last second that a caller won.
    pub closed spec fn last_recorded(&self) -> u64 {
        self.seconds_count
    }

    /// The instant from which elapsed time is counted.
    pub closed spec fn origin(&self) -> Instant {
        self.started_at
    }

    /// A tracker that starts counting now, with no second recorded yet.
    pub fn new() -> (tracker: Self)
        ensures
            tracker.last_recorded() == 0,
    {
        TickTracker { started_at: clock_now(), seconds_count: 0 }
    }

    /// Whole seconds since the tracker was made. The value is a clock
    /// reading.
    pub fn runtime(&self) -> u64 {
        let span = elapsed_since(&self.started_at);
        whole_seconds(&span)
    }

    /// The last second that a caller won.
    pub fn seconds_count(&self) -> (count: u64)
        ensures
            count == self.last_recorded(),
    {
        self.seconds_count
    }

    /// Compare-and-set against a given clock reading: the caller wins
    /// `elapsed` exactly when it is later than the last recorded second.
    pub fn advance(&mut self, elapsed: u64) -> (won: Option<u64>)
        ensures
            final(self).origin() == old(self).origin(),
            final(self).last_recorded() == tick_step(old(self).last_recorded(), elapsed).0,
            won == tick_step(old(self).last_recorded(), elapsed).1,
    {
        if elapsed > self.seconds_count {
            self.seconds_count = elapsed;
            Some(elapsed)
        } else {
            None
        }
    }

    /// Reads the clock and advances the tracker. Whatever the clock says, a
    /// win moves the tracker to the won second, which is later than the one
    /// before, and a loss leaves the tracker as it was.
    pub fn check_and_advance(&mut self) -> (won: Option<u64>)
        ensures
            final(self).origin() == old(self).origin(),
            exists|elapsed: u64|
                #![trigger tick_step(old(self).last_recorded(), elapsed)]
                {
                    &&& final(self).last_recorded() == tick_step(
                        old(self).last_recorded(),
                        elapsed,
                    ).0
                    &&& won == tick_step(old(self).last_recorded(), elapsed).1
                },
            final(self).last_recorded() >= old(self).last_recorded(),
            won matches Some(second) ==> second > old(self).last_recorded()
                && final(self).last_recorded() == second,
            won is None ==> final(self).last_recorded() == old(self).last_recorded(),
    {
        let elapsed = self.runtime();
        self.advance(elapsed)
    }
}

/// The recorded second never goes back, whatever is observed.
pub proof fn lemma_last_recorded_monotonic(last: u64, observed: Seq<u64>)
    ensures
        last_after(last, observed) >= last,
        forall|i: int|
            0 <= i <= observed.len() ==> last_after(last, observed) >= #[trigger] last_after(
                last,
                observed.take(i),
            ),
    decreases observed.len(),
{
    if observed.len() > 0 {
        let front = observed.drop_last();
        lemma_last_recorded_monotonic(last, front);
        assert forall|i: int| 0 <= i <= observed.len() implies last_after(last, observed)
            >= #[trigger] last_after(last, observed.take(i)) by {
            if i == observed.len() {
                assert(observed.take(i) =~= observed);
            } else {
                assert(observed.take(i) =~= front.take(i));
            }
        }
    } else {
        assert forall|i: int| 0 <= i <= observed.len() implies last_after(last, observed)
            >= #[trigger] last_after(last, observed.take(i)) by {
            assert(observed.take(i) =~= observed);
        }
    }
}

/// A winner's second is recorded from then on: after any further
/// observations the tracker stands at that second or later.
pub proof fn lemma_winner_is_recorded(last: u64, observed: Seq<u64>, i: int, upto: int)
    requires
        0 <= i < upto <= observed.len(),
        winner_at(last, observed, i) is Some,
    ensures
        last_after(last, observed.take(upto)) >= winner_at(last, observed, i)->Some_0,
{
    let prefix = observed.take(upto);
    let through = observed.take(i + 1);
    lemma_last_recorded_monotonic(last, prefix);
    assert(prefix.take(i + 1) =~= through);
    assert(last_after(last, prefix) >= last_after(last, prefix.take(i + 1)));
    assert(through.drop_last() =~= observed.take(i));
    assert(through.last() == observed[i]);
    assert(last_after(last, through) == tick_step(
        last_after(last, through.drop_last()),
        through.last(),
    ).0);
}

/// At most one winner per second: of the callers that look at the clock one
/// after another, two that both win have won different seconds, the later
/// caller the later second.
pub proof fn lemma_at_most_one_winner(last: u64, observed: Seq<u64>, i: int, j: int)
    requires
        0 <= i < j < observed.len(),
        winner_at(last, observed, i) is Some,
        winner_at(last, observed, j) is Some,
    ensures
        winner_at(last, observed, i)->Some_0 < winner_at(last, observed, j)->Some_0,
{
    lemma_winner_is_recorded(last, observed, i, j);
}

/// Every winner's second is later than the second the tracker started from and
/// is the clock reading that the winner made.
pub proof fn lemma_winner_is_new(last: u64, observed: Seq<u64>, i: int)
    requires
        0 <= i < observed.len(),
        winner_at(last, observed, i) is Some,
    ensures
        winner_at(last, observed, i)->Some_0 == observed[i],
        observed[i] > last,
{
    lemma_last_recorded_monotonic(last, observed.take(i));
}

/// When every second from the first to `observed.last()` is seen, in order
/// and starting from a fresh tracker, the number of wins is the number of
/// seconds that have passed.
pub proof fn lemma_one_win_per_second(observed: Seq<u64>)
    requires
        observed.len() > 0,
        observed[0] <= 1,
        forall|i: int|
            0 <= i < observed.len() - 1 ==> observed[i] <= #[trigger] observed[i + 1]
                <= observed[i] + 1,
    ensures
        last_after(0, observed) == observed.last(),
        wins(0, observed) == observed.last(),
    decreases observed.len(),
{
    if observed.len() == 1 {
        assert(last_after(0, observed.drop_last()) == 0);
        assert(wins(0, observed.drop_last()) == 0);
    } else {
        let front = observed.drop_last();
        assert(front[0] == observed[0]);
        assert forall|i: int| 0 <= i < front.len() - 1 implies front[i] <= #[trigger] front[i + 1]
            <= front[i] + 1 by {
            assert(front[i + 1] == observed[i + 1]);
        }
        lemma_one_win_per_second(front);
        let k = observed.len() - 2;
        assert(observed[k] <= observed[k + 1] <= observed[k] + 1);
        assert(front.last() == observed[k]);
        assert(observed.last() == observed[k + 1]);
    }
}

} // verus!
