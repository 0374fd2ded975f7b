//! The per-message coordination of tick tracker, accumulator, snapshot
//! history and diagnostic counter.

use crate::keywords::{contains_text, default_keywords, hits_of, keyword_texts, keywords, occurs_in};
use crate::message::{json_document, json_members, process, scored_text, text_key, ProcessError};
use crate::plot::{all_defined, empty_history, with_snapshot, Chart};
use crate::score::{
    all_wf, apply_scored, averages_of, count_hits, empty_tally, lemma_order_independent,
    lemma_taken_in_last, tallies_of, take_in, take_in_all, tally_add, KeywordScore, Ratio, Scored,
    Tally, Totals,
};
use crate::tick::{
    last_after, lemma_at_most_one_winner, lemma_one_win_per_second, tick_step, winner_at, wins,
    TickTracker,
};
use vstd::prelude::*;

verus! {

/// The mathematical content of the shared state.
pub struct ClientModel {
    /// The last second for which a snapshot was taken.
    pub last_second: u64,
    /// The tally of each keyword.
    pub tallies: Seq<Tally>,
    /// The averages recorded for each keyword, one per snapshot.
    pub history: Seq<Seq<Ratio>>,
    /// The number of messages that were scored.
    pub count: nat,
    /// The tracked keywords.
    pub keywords: Seq<Seq<char>>,
}

/// One step that is taken under the lock: a tick check with the clock
/// reading that it made, or the taking in of one message, which is `None`
/// for a message that was dropped.
pub enum Action {
    Tick(u64),
    Message(Option<Scored>),
}

/// The state at startup: no second recorded, every tally empty, no
/// snapshot, no message counted.
pub open spec fn initial_model(keywords: Seq<Seq<char>>) -> ClientModel {
    ClientModel {
        last_second: 0,
        tallies: Seq::new(keywords.len(), |i: int| empty_tally()),
        history: empty_history(keywords.len()),
        count: 0,
        keywords,
    }
}

/// What a payload adds to the tallies: nothing unless it is a JSON document
/// with a text member, and otherwise the score of that text for every
/// keyword that occurs anywhere in the payload.
pub open spec fn message_effect(keywords: Seq<Seq<char>>, payload: Seq<char>) -> Option<Scored> {
    match scored_text(payload) {
        Some((_, score)) => Some(Scored { hits: hits_of(keywords, payload), score }),
        None => None,
    }
}

/// The state after the tick check with clock reading `elapsed`: on a new
/// second, that second is recorded and the current averages are appended to
/// the history.
pub open spec fn after_tick(m: ClientModel, elapsed: u64) -> ClientModel {
    if elapsed > m.last_second {
        ClientModel {
            last_second: elapsed,
            history: with_snapshot(m.history, averages_of(m.tallies)),
            ..m
        }
    } else {
        m
    }
}

/// The tallies and the message count of a state.
pub open spec fn totals_of(m: ClientModel) -> Totals {
    Totals { tallies: m.tallies, count: m.count }
}

/// The state after a message's effect is taken in: a scored message updates
/// the tallies and is counted, a dropped one changes nothing.
pub open spec fn after_message(m: ClientModel, effect: Option<Scored>) -> ClientModel {
    let totals = take_in(totals_of(m), effect);
    ClientModel { tallies: totals.tallies, count: totals.count, ..m }
}

/// The state after one step.
pub open spec fn after_action(m: ClientModel, action: Action) -> ClientModel {
    match action {
        Action::Tick(elapsed) => after_tick(m, elapsed),
        Action::Message(effect) => after_message(m, effect),
    }
}

/// The state after a run of steps, in the order in which the lock let them
/// through. The steps of concurrent messages may interleave in any way.
pub open spec fn after_actions(m: ClientModel, actions: Seq<Action>) -> ClientModel
    decreases actions.len(),
{
    if actions.len() == 0 {
        m
    } else {
        after_action(after_actions(m, actions.drop_last()), actions.last())
    }
}

/// The clock readings of the tick checks in a run of steps, in their order.
pub open spec fn readings_in(actions: Seq<Action>) -> Seq<u64>
    decreases actions.len(),
{
    if actions.len() == 0 {
        Seq::empty()
    } else {
        match actions.last() {
            Action::Tick(elapsed) => readings_in(actions.drop_last()).push(elapsed),
            Action::Message(_) => readings_in(actions.drop_last()),
        }
    }
}

/// The messages taken in during a run of steps, in their order.
pub open spec fn effects_in(actions: Seq<Action>) -> Seq<Option<Scored>>
    decreases actions.len(),
{
    if actions.len() == 0 {
        Seq::empty()
    } else {
        match actions.last() {
            Action::Tick(_) => effects_in(actions.drop_last()),
            Action::Message(effect) => effects_in(actions.drop_last()).push(effect),
        }
    }
}

/// A message that was scored and counted.
#[derive(Debug)]
pub struct ScoredMessage {
    /// The JSON text of the message's text member.
    pub tweet: String,
    /// The sentiment score of that text.
    pub score: i32,
    /// The number of tracked keywords that occur in the payload.
    pub matched: usize,
}

/// What the coordinator did with one message.
#[derive(Debug)]
pub struct Outcome {
    /// The second that this message won, for which the chart is to be drawn.
    pub tick: Option<u64>,
    /// The scored message, or why it was dropped.
    pub result: Result<ScoredMessage, ProcessError>,
}

/// Whether a result is what the payload calls for: a scored message exactly
/// for a JSON document with a text member, and otherwise the error that
/// tells a malformed payload from one without a text.
pub open spec fn result_fits(
    keywords: Seq<Seq<char>>,
    payload: Seq<char>,
    result: Result<ScoredMessage, ProcessError>,
) -> bool {
    match json_document(payload) {
        Some(members) if members.contains_key(text_key()) => {
            &&& result matches Ok(message)
            &&& scored_text(payload) == Some((message.tweet@, message.score as int))
            &&& message.matched == count_hits(hits_of(keywords, payload))
        },
        Some(members) => {
            &&& result matches Err(ProcessError::NoTweet(document))
            &&& json_members(document) == members
        },
        None => result matches Err(ProcessError::InvalidJson(_)),
    }
}

/// Adds the score to the tally of every keyword that occurs anywhere in the
/// payload, and returns how many keywords that were.
pub fn accumulate(
    scores: &mut Vec<KeywordScore>,
    keywords: &Vec<String>,
    payload: &str,
    score: i32,
) -> (matched: usize)
    requires
        old(scores)@.len() == keywords@.len(),
        all_wf(old(scores)@),
        forall|i: int|
            0 <= i < keywords@.len() && occurs_in(keywords@[i]@, payload@)
                ==> (#[trigger] old(scores)@[i]).has_room(),
    ensures
        final(scores)@.len() == old(scores)@.len(),
        all_wf(final(scores)@),
        tallies_of(final(scores)@) == apply_scored(
            tallies_of(old(scores)@),
            (Scored { hits: hits_of(keyword_texts(keywords@), payload@), score: score as int }),
        ),
        matched == count_hits(hits_of(keyword_texts(keywords@), payload@)),
{
    let count = keywords.len();
    let ghost hits = hits_of(keyword_texts(keywords@), payload@);
    let mut matched: usize = 0;
    let mut i: usize = 0;
    while i < count
        invariant
            i <= count,
            count == keywords@.len(),
            scores@.len() == count,
            old(scores)@.len() == count,
            hits == hits_of(keyword_texts(keywords@), payload@),
            forall|k: int|
                0 <= k < count && hits[k] ==> (#[trigger] old(scores)@[k]).has_room(),
            all_wf(scores@),
            matched == count_hits(hits.take(i as int)),
            matched <= i,
            forall|k: int|
                0 <= k < i ==> (#[trigger] scores@[k])@ == if hits[k] {
                    tally_add(old(scores)@[k]@, score as int)
                } else {
                    old(scores)@[k]@
                },
            forall|k: int| i <= k < count ==> #[trigger] scores@[k] == old(scores)@[k],
        decreases count - i,
    {
        proof {
            assert(hits.take(i + 1).drop_last() =~= hits.take(i as int));
            assert(hits.take(i + 1).last() == hits[i as int]);
        }
        if contains_text(payload, keywords[i].as_str()) {
            scores[i].add(score);
            matched += 1;
        }
        i += 1;
    }
    proof {
        assert(hits.take(count as int) =~= hits);
        assert(tallies_of(scores@) =~= apply_scored(
            tallies_of(old(scores)@),
            (Scored { hits, score: score as int }),
        ));
    }
    matched
}

/// The state that all message-processing tasks share: the tick tracker, the
/// accumulator, the snapshot history and the diagnostic counter, in the
/// order in which their locks are taken.
pub struct ClientState {
    /// Tracks the time since program start to trigger new snapshots.
    pub tick_tracker: TickTracker,
    /// The accumulated current score of each keyword.
    pub current_scores: Vec<KeywordScore>,
    /// The averages of each keyword, one per recorded second.
    pub chart: Chart,
    /// Total count of scored messages, for diagnostics.
    pub tweet_count: u64,
    /// The tracked keywords, which fix the index space of scores and chart.
    pub keywords: Vec<String>,
}

impl View for ClientState {
    type V = ClientModel;

    open spec fn view(&self) -> ClientModel {
        ClientModel {
            last_second: self.tick_tracker.last_recorded(),
            tallies: tallies_of(self.current_scores@),
            history: self.chart@,
            count: self.tweet_count as nat,
            keywords: keyword_texts(self.keywords@),
        }
    }
}

impl ClientState {
    /// Scores and chart are index-aligned with the keyword list, and every
    /// score is consistent.
    pub open spec fn wf(&self) -> bool {
        &&& self.current_scores@.len() == self.keywords@.len()
        &&& self.chart@.len() == self.keywords@.len()
        &&& all_wf(self.current_scores@)
        &&& all_defined(self.chart@)
    }

    /// Every counter can take one more message.
    pub open spec fn has_room(&self) -> bool {
        &&& self.tweet_count < u64::MAX
        &&& forall|i: int|
            0 <= i < self.current_scores@.len() ==> (#[trigger] self.current_scores@[i]).has_room()
    }

    /// The counters that the payload would touch can take one more message.
    pub open spec fn has_room_for(&self, payload: Seq<char>) -> bool {
        &&& self.tweet_count < u64::MAX
        &&& forall|i: int|
            0 <= i < self.keywords@.len() && occurs_in(self.keywords@[i]@, payload)
                ==> (#[trigger] self.current_scores@[i]).has_room()
    }

    /// The startup state for the given keywords: all tallies zero, the
    /// history empty, nothing counted.
    pub fn with_keywords(keywords: Vec<String>) -> (state: Self)
        ensures
            state.wf(),
            state.has_room(),
            state.keywords == keywords,
            state@ == initial_model(keyword_texts(keywords@)),
    {
        let count = keywords.len();
        let chart = Chart::with_series(count);
        let tick_tracker = TickTracker::new();
        let mut current_scores: Vec<KeywordScore> = Vec::new();
        let mut i: usize = 0;
        while i < count
            invariant
                i <= count,
                current_scores@.len() == i,
                forall|k: int|
                    0 <= k < i ==> (#[trigger] current_scores@[k]).wf() && current_scores@[k]@
                        == empty_tally(),
            decreases count - i,
        {
            current_scores.push(KeywordScore::new());
            i += 1;
        }
        let state = ClientState { tick_tracker, current_scores, chart, tweet_count: 0, keywords };
        assert(state@.tallies =~= initial_model(keyword_texts(keywords@)).tallies);
        state
    }

    /// The startup state for the default keywords.
    pub fn init() -> (state: Self)
        ensures
            state.wf(),
            state.has_room(),
            state@ == initial_model(default_keywords()),
    {
        ClientState::with_keywords(keywords())
    }

    /// Whether the state is consistent.
    pub fn is_wf(&self) -> (ok: bool)
        ensures
            ok == self.wf(),
    {
        let count = self.keywords.len();
        if self.current_scores.len() != count || self.chart.series_count() != count {
            return false;
        }
        let mut i: usize = 0;
        while i < count
            invariant
                i <= count,
                count == self.current_scores@.len(),
                forall|k: int| 0 <= k < i ==> (#[trigger] self.current_scores@[k]).wf(),
            decreases count - i,
        {
            if !self.current_scores[i].is_wf() {
                return false;
            }
            i += 1;
        }
        self.chart.is_defined()
    }

    /// Whether every counter can take one more message.
    pub fn can_count(&self) -> (room: bool)
        ensures
            room == self.has_room(),
    {
        if self.tweet_count == u64::MAX {
            return false;
        }
        let count = self.current_scores.len();
        let mut i: usize = 0;
        while i < count
            invariant
                i <= count,
                count == self.current_scores@.len(),
                forall|k: int| 0 <= k < i ==> (#[trigger] self.current_scores@[k]).has_room(),
            decreases count - i,
        {
            if !self.current_scores[i].can_add() {
                return false;
            }
            i += 1;
        }
        true
    }

    /// The tick check against a given clock reading: on a new second the
    /// second is recorded, the current averages are appended to the chart,
    /// and the second is returned to the caller, who is then the one to draw
    /// the chart.
    pub fn snapshot_at(&mut self, elapsed: u64) -> (won: Option<u64>)
        requires
            old(self).wf(),
        ensures
            final(self).wf(),
            final(self)@ == after_tick(old(self)@, elapsed),
            won == tick_step(old(self)@.last_second, elapsed).1,
            final(self).tick_tracker.origin() == old(self).tick_tracker.origin(),
            final(self).current_scores == old(self).current_scores,
            final(self).keywords == old(self).keywords,
            final(self).tweet_count == old(self).tweet_count,
    {
        let won = self.tick_tracker.advance(elapsed);
        if won.is_some() {
            self.chart.record(&self.current_scores);
        }
        won
    }

    /// Checks whether a new one-second interval has begun and records a
    /// snapshot if so. Whatever the clock says, the state afterwards is the
    /// one that the tick check gives for some clock reading.
    pub fn save_chart_if_new_tick(&mut self) -> (won: Option<u64>)
        requires
            old(self).wf(),
        ensures
            final(self).wf(),
            exists|elapsed: u64|
                #![trigger after_tick(old(self)@, elapsed)]
                final(self)@ == after_tick(old(self)@, elapsed) && won == tick_step(
                    old(self)@.last_second,
                    elapsed,
                ).1,
            final(self).tick_tracker.origin() == old(self).tick_tracker.origin(),
            final(self).current_scores == old(self).current_scores,
            final(self).keywords == old(self).keywords,
            final(self).tweet_count == old(self).tweet_count,
    {
        let elapsed = self.tick_tracker.runtime();
        self.snapshot_at(elapsed)
    }

    /// Takes in a message that was decoded and scored, or dropped: a scored
    /// message adds its score to every keyword that occurs anywhere in the
    /// payload and is counted; a dropped message changes nothing.
    pub fn record_scored(
        &mut self,
        json: &str,
        processed: Result<(String, i32), ProcessError>,
    ) -> (result: Result<ScoredMessage, ProcessError>)
        requires
            old(self).wf(),
            processed is Ok ==> old(self).has_room_for(json@),
        ensures
            final(self).wf(),
            final(self)@ == after_message(
                old(self)@,
                match processed {
                    Ok((_, score)) => Some(
                        Scored { hits: hits_of(old(self)@.keywords, json@), score: score as int },
                    ),
                    Err(_) => None,
                },
            ),
            match processed {
                Ok((tweet, score)) => {
                    &&& result matches Ok(message)
                    &&& message.tweet == tweet
                    &&& message.score == score
                    &&& message.matched == count_hits(hits_of(old(self)@.keywords, json@))
                },
                Err(error) => result == Err::<ScoredMessage, ProcessError>(error),
            },
            final(self).tick_tracker == old(self).tick_tracker,
            final(self).chart == old(self).chart,
            final(self).keywords == old(self).keywords,
    {
        match processed {
            Ok((tweet, score)) => {
                let matched = accumulate(&mut self.current_scores, &self.keywords, json, score);
                self.tweet_count += 1;
                Ok(ScoredMessage { tweet, score, matched })
            },
            Err(error) => Err(error),
        }
    }

    /// Decodes and scores one payload and takes it in. A payload that is
    /// not a JSON document, or that has no text member, changes no tally
    /// and is not counted.
    pub fn record_message(&mut self, json: &str) -> (result: Result<ScoredMessage, ProcessError>)
        requires
            old(self).wf(),
            old(self).has_room_for(json@),
        ensures
            final(self).wf(),
            final(self)@ == after_message(old(self)@, message_effect(old(self)@.keywords, json@)),
            result_fits(old(self)@.keywords, json@, result),
            result is Err ==> final(self)@ == old(self)@,
            final(self).tick_tracker == old(self).tick_tracker,
            final(self).chart == old(self).chart,
            final(self).keywords == old(self).keywords,
    {
        let processed = process(json);
        self.record_scored(json, processed)
    }

    /// One message against a given clock reading: first the tick check,
    /// then the message.
    pub fn step(&mut self, elapsed: u64, json: &str) -> (outcome: Outcome)
        requires
            old(self).wf(),
            old(self).has_room_for(json@),
        ensures
            final(self).wf(),
            final(self)@ == after_message(
                after_tick(old(self)@, elapsed),
                message_effect(old(self)@.keywords, json@),
            ),
            outcome.tick == tick_step(old(self)@.last_second, elapsed).1,
            result_fits(old(self)@.keywords, json@, outcome.result),
            outcome.result is Err ==> final(self)@.tallies == old(self)@.tallies && final(self)@.count == old(self)@.count,
            final(self).keywords == old(self).keywords,
    {
        let tick = self.snapshot_at(elapsed);
        let result = self.record_message(json);
        Outcome { tick, result }
    }
}

/// Processes a JSON message, updating the shared state to track scores and
/// the history to draw: the tick check at the time of the call, then the
/// message. Whatever the clock says, the state afterwards is the one that
/// `step` gives for some clock reading.
pub fn process_twitter_message(json: &str, locks: &mut ClientState) -> (outcome: Outcome)
    requires
        old(locks).wf(),
        old(locks).has_room_for(json@),
    ensures
        final(locks).wf(),
        exists|elapsed: u64|
            #![trigger tick_step(old(locks)@.last_second, elapsed)]
            {
                &&& final(locks)@ == after_message(
                    after_tick(old(locks)@, elapsed),
                    message_effect(old(locks)@.keywords, json@),
                )
                &&& outcome.tick == tick_step(old(locks)@.last_second, elapsed).1
            },
        result_fits(old(locks)@.keywords, json@, outcome.result),
        outcome.result is Err ==> final(locks)@.tallies == old(locks)@.tallies && final(locks)@.count == old(locks)@.count,
        final(locks).keywords == old(locks).keywords,
{
    let elapsed = locks.tick_tracker.runtime();
    let outcome = locks.step(elapsed, json);
    assert(final(locks)@ == after_message(
        after_tick(old(locks)@, elapsed),
        message_effect(old(locks)@.keywords, json@),
    ));
    outcome
}

/// The effects of a run of payloads, one after another.
pub open spec fn payload_effects(keywords: Seq<Seq<char>>, payloads: Seq<Seq<char>>) -> Seq<
    Option<Scored>,
> {
    Seq::new(payloads.len(), |i: int| message_effect(keywords, payloads[i]))
}

/// The tallies and the message count after a run of steps are those of the
/// messages alone: the tick checks play no part in them.
pub proof fn lemma_totals_after_actions(m: ClientModel, actions: Seq<Action>)
    ensures
        totals_of(after_actions(m, actions)) == take_in_all(totals_of(m), effects_in(actions)),
        after_actions(m, actions).keywords == m.keywords,
    decreases actions.len(),
{
    if actions.len() > 0 {
        let front = actions.drop_last();
        lemma_totals_after_actions(m, front);
        match actions.last() {
            Action::Tick(_) => {},
            Action::Message(effect) => {
                assert(effects_in(front).push(effect).drop_last() =~= effects_in(front));
            },
        }
    }
}

/// Commutativity of accumulation: two runs that take in the same multiset
/// of messages, interleaved with tick checks in any way, end with the same
/// sum, scored count and match count for every keyword, and the same
/// message count.
pub proof fn lemma_interleaving_irrelevant(
    m: ClientModel,
    first: Seq<Action>,
    second: Seq<Action>,
)
    requires
        effects_in(first).to_multiset() == effects_in(second).to_multiset(),
    ensures
        after_actions(m, first).tallies == after_actions(m, second).tallies,
        after_actions(m, first).count == after_actions(m, second).count,
{
    lemma_totals_after_actions(m, first);
    lemma_totals_after_actions(m, second);
    lemma_order_independent(totals_of(m), effects_in(first), effects_in(second));
}

/// The same for the payloads themselves: the totals after a run of
/// payloads depend only on the multiset of payloads.
pub proof fn lemma_payload_order_irrelevant(
    keywords: Seq<Seq<char>>,
    totals: Totals,
    first: Seq<Seq<char>>,
    second: Seq<Seq<char>>,
)
    requires
        first.to_multiset() == second.to_multiset(),
    ensures
        take_in_all(totals, payload_effects(keywords, first)) == take_in_all(
            totals,
            payload_effects(keywords, second),
        ),
    decreases first.len(),
{
    broadcast use vstd::seq_lib::group_to_multiset_ensures;

    assert(first.len() == first.to_multiset().len());
    assert(second.len() == second.to_multiset().len());
    if first.len() > 0 {
        let payload = first.last();
        assert(first.contains(payload));
        assert(second.to_multiset().count(payload) > 0);
        assert(second.contains(payload));
        let at = choose|at: int| 0 <= at < second.len() && second[at] == payload;
        let front = first.drop_last();
        let rest = second.remove(at);
        assert(front =~= first.remove(first.len() - 1));
        assert(front.to_multiset() =~= rest.to_multiset());
        lemma_payload_order_irrelevant(keywords, totals, front, rest);
        lemma_taken_in_last(totals, payload_effects(keywords, second), at);
        assert(payload_effects(keywords, second).remove(at) =~= payload_effects(keywords, rest));
        assert(payload_effects(keywords, first).drop_last() =~= payload_effects(keywords, front));
    }
}

/// Every tick win appends exactly one point to every keyword's series: after
/// a run of steps each series has grown by the number of wins, and the
/// tracker stands where the clock readings alone put it.
pub proof fn lemma_history_counts_wins(m: ClientModel, actions: Seq<Action>)
    ensures
        after_actions(m, actions).last_second == last_after(
            m.last_second,
            readings_in(actions),
        ),
        after_actions(m, actions).history.len() == m.history.len(),
        forall|k: int|
            0 <= k < m.history.len() ==> (#[trigger] after_actions(m, actions).history[k]).len()
                == m.history[k].len() + wins(m.last_second, readings_in(actions)),
    decreases actions.len(),
{
    if actions.len() > 0 {
        let front = actions.drop_last();
        lemma_history_counts_wins(m, front);
        match actions.last() {
            Action::Tick(elapsed) => {
                assert(readings_in(front).push(elapsed).drop_last() =~= readings_in(front));
            },
            Action::Message(_) => {},
        }
    }
}

/// When the tick checks see every second up to the last one, starting from
/// a fresh state, the history of every keyword is as long as the number of
/// seconds that have passed, however the messages interleave.
pub proof fn lemma_history_length_is_elapsed(keywords: Seq<Seq<char>>, actions: Seq<Action>)
    requires
        readings_in(actions).len() > 0,
        readings_in(actions)[0] <= 1,
        forall|i: int|
            0 <= i < readings_in(actions).len() - 1 ==> readings_in(actions)[i]
                <= #[trigger] readings_in(actions)[i + 1] <= readings_in(actions)[i] + 1,
    ensures
        after_actions(initial_model(keywords), actions).history.len() == keywords.len(),
        forall|k: int|
            0 <= k < keywords.len() ==> (#[trigger] after_actions(
                initial_model(keywords),
                actions,
            ).history[k]).len() == readings_in(actions).last(),
{
    lemma_one_win_per_second(readings_in(actions));
    lemma_history_counts_wins(initial_model(keywords), actions);
}

/// At most one snapshot per second: of the tick checks in a run of steps,
/// two that both win have won different seconds.
pub proof fn lemma_one_snapshot_per_second(m: ClientModel, actions: Seq<Action>, i: int, j: int)
    requires
        0 <= i < j < readings_in(actions).len(),
        winner_at(m.last_second, readings_in(actions), i) is Some,
        winner_at(m.last_second, readings_in(actions), j) is Some,
    ensures
        winner_at(m.last_second, readings_in(actions), i) != winner_at(
            m.last_second,
            readings_in(actions),
            j,
        ),
{
    lemma_at_most_one_winner(m.last_second, readings_in(actions), i, j);
}

/// A message that is dropped, for want of a text or of well-formed JSON,
/// changes no keyword's tally and is not counted, whatever the clock says.
pub proof fn lemma_dropped_message_changes_nothing(m: ClientModel, elapsed: u64)
    ensures
        after_message(after_tick(m, elapsed), None).tallies == m.tallies,
        after_message(after_tick(m, elapsed), None).count == m.count,
{
}

/// A payload without a text member has no effect, and neither has one that
/// is not a JSON document.
pub proof fn lemma_payload_without_text_is_dropped(keywords: Seq<Seq<char>>, payload: Seq<char>)
    requires
        json_document(payload) matches Some(members) ==> !members.contains_key(text_key()),
    ensures
        message_effect(keywords, payload) is None,
{
}

} // verus!
