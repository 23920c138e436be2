//! The collection loop: rounds of search, detail fetch and filtering, repeated until enough
//! titles are gathered, with a pause whenever the storefront signals rate limiting.
//!
//! The loop is a state machine. [`Collector::step`] takes what happened and says what to do
//! next; the caller does it and reports back. A round is one search for a freshly drawn term
//! followed by one detail fetch for every match.

use crate::filter::{passes, passes_filter, FilterCriteria};
use crate::steam::{
    as_text, extract_identifier, extraction, App, SearchItem, SteamRequestError,
};
use vstd::prelude::*;

verus! {

/// How long the loop waits after a rate-limiting signal.
pub const PAUSE_SECONDS: u64 = 5;

/// Where the loop stands.
#[derive(Debug, Clone, Copy, PartialEq, Eq)]
pub enum LoopState {
    /// Fewer titles than the quota are gathered; the next thing to do is a round.
    Collecting,
    /// The last round met a rate-limiting signal; the next thing to do is to wait.
    RateLimited,
    /// The quota is reached.
    Done,
}

/// What the caller is to do next.
#[derive(Debug, Clone, Copy, PartialEq, Eq)]
pub enum Action {
    /// Run a round: draw a term and search for it under this price ceiling. Report
    /// [`Event::SearchFailed`] if the search fails, else fetch the details of every match
    /// and report [`Event::RoundFetched`].
    Search { max_price_minor_units: u64 },
    /// Announce that the storefront limits the rate of requests, wait this long, and report
    /// [`Event::PauseElapsed`].
    Pause { seconds: u64 },
    /// Stop: the titles are gathered.
    Finish,
}

/// What the caller reports back.
#[derive(Debug, Clone, PartialEq, Eq)]
pub enum Event {
    /// The round's search failed.
    SearchFailed(SteamRequestError),
    /// The round's detail fetches have all come back: one outcome for every match, in the
    /// order of the matches.
    RoundFetched(Vec<Result<App, SteamRequestError>>),
    /// The pause is over.
    PauseElapsed,
}

/// The title that a detail outcome contributes, if it contributes one: a fetched title that
/// passes the filter. A failed fetch contributes nothing.
pub open spec fn kept(outcome: Result<App, SteamRequestError>, criteria: FilterCriteria) -> Option<
    App,
> {
    match outcome {
        Ok(record) if passes_filter(record, criteria) => Some(record),
        _ => None,
    }
}

/// The titles that a round's outcomes contribute, in the order of the outcomes.
pub open spec fn accepted(
    outcomes: Seq<Result<App, SteamRequestError>>,
    criteria: FilterCriteria,
) -> Seq<App> {
    outcomes.filter_map(|outcome: Result<App, SteamRequestError>| kept(outcome, criteria))
}

/// The detail fetch met a rate-limiting signal.
pub open spec fn rate_limited(outcome: Result<App, SteamRequestError>) -> bool {
    outcome matches Err(SteamRequestError::RateLimited)
}

/// Some detail fetch of the round met a rate-limiting signal.
pub open spec fn any_rate_limited(outcomes: Seq<Result<App, SteamRequestError>>) -> bool {
    exists|i: int| 0 <= i < outcomes.len() && rate_limited(#[trigger] outcomes[i])
}

/// The loop as a mathematical value.
pub struct Collection {
    pub state: LoopState,
    /// The titles gathered so far, in the order of discovery.
    pub results: Seq<App>,
    /// The number of titles asked for.
    pub quota: nat,
    pub criteria: FilterCriteria,
    /// The number of rounds that have run to their end.
    pub rounds: nat,
    /// No search has been reported on yet.
    pub first_search_pending: bool,
}

/// The round count after one more round. The count stops at the largest `u64`.
pub open spec fn counted(rounds: nat) -> nat {
    if rounds < u64::MAX {
        rounds + 1
    } else {
        rounds
    }
}

impl Collection {
    /// The state agrees with the number of titles gathered: rounds go on only below the
    /// quota, and the loop is done only at or above it.
    pub open spec fn wf(self) -> bool {
        &&& self.state is Collecting ==> self.results.len() < self.quota
        &&& self.state is Done ==> self.results.len() >= self.quota
    }

    /// The loop before its first round.
    pub open spec fn initial(criteria: FilterCriteria, quota: nat) -> Collection {
        Collection {
            state: if quota == 0 {
                LoopState::Done
            } else {
                LoopState::Collecting
            },
            results: Seq::empty(),
            quota,
            criteria,
            rounds: 0,
            first_search_pending: true,
        }
    }

    /// The state to go on in when nothing calls for a pause.
    pub open spec fn settled(self) -> LoopState {
        if self.results.len() >= self.quota {
            LoopState::Done
        } else {
            LoopState::Collecting
        }
    }

    /// What the state asks the caller to do.
    pub open spec fn action(self) -> Action {
        match self.state {
            LoopState::Collecting => Action::Search {
                max_price_minor_units: self.criteria.max_price_minor_units,
            },
            LoopState::RateLimited => Action::Pause { seconds: PAUSE_SECONDS },
            LoopState::Done => Action::Finish,
        }
    }

    /// The very first search got no response at all. The loop itself would take this for
    /// a round without matches; a caller that starts up may take it for a reason to give
    /// up instead.
    pub open spec fn fails_at_startup(self, event: Event) -> bool {
        &&& self.state is Collecting
        &&& self.first_search_pending
        &&& event == Event::SearchFailed(SteamRequestError::Transport)
    }

    /// The loop after an event.
    ///
    /// While collecting: a rate-limited search leads to a pause, after which the round is
    /// tried again; any other failed search ends the round without matches; and fetched
    /// details end the round and add the titles they contribute, after which the loop
    /// pauses if any fetch was rate limited and else is done once the quota is reached.
    /// After a pause the loop is done if the quota is reached and else goes on collecting.
    /// An event that the state did not ask for changes nothing.
    pub open spec fn step(self, event: Event) -> Collection {
        match (self.state, event) {
            (LoopState::Collecting, Event::SearchFailed(error)) => if error
                == SteamRequestError::RateLimited {
                Collection { state: LoopState::RateLimited, first_search_pending: false, ..self }
            } else {
                Collection { rounds: counted(self.rounds), first_search_pending: false, ..self }
            },
            (LoopState::Collecting, Event::RoundFetched(outcomes)) => {
                let gathered = Collection {
                    results: self.results + accepted(outcomes@, self.criteria),
                    rounds: counted(self.rounds),
                    first_search_pending: false,
                    ..self
                };
                Collection {
                    state: if any_rate_limited(outcomes@) {
                        LoopState::RateLimited
                    } else {
                        gathered.settled()
                    },
                    ..gathered
                }
            },
            (LoopState::RateLimited, Event::PauseElapsed) => Collection {
                state: self.settled(),
                ..self
            },
            _ => self,
        }
    }

    /// The loop after a run of events, taken in order.
    pub open spec fn after(self, events: Seq<Event>) -> Collection
        decreases events.len(),
    {
        if events.len() == 0 {
            self
        } else {
            self.after(events.drop_last()).step(events.last())
        }
    }
}

/// What a round keeps of its first outcomes does not depend on the later ones, and the
/// other way round: the titles of two runs of outcomes, one after the other, are the titles
/// of the first followed by the titles of the second.
pub proof fn lemma_accepted_concat(
    first: Seq<Result<App, SteamRequestError>>,
    second: Seq<Result<App, SteamRequestError>>,
    criteria: FilterCriteria,
)
    ensures
        accepted(first + second, criteria) == accepted(first, criteria) + accepted(
            second,
            criteria,
        ),
    decreases second.len(),
{
    if second.len() == 0 {
        assert(first + second =~= first);
        assert(accepted(first, criteria) + accepted(second, criteria) =~= accepted(
            first,
            criteria,
        ));
    } else {
        lemma_accepted_concat(first, second.drop_last(), criteria);
        assert((first + second).drop_last() =~= first + second.drop_last());
        assert((first + second).last() == second.last());
        assert(accepted(first + second, criteria) =~= accepted(first, criteria) + accepted(
            second,
            criteria,
        ));
    }
}

/// A failed detail fetch takes nothing away from the round: the titles kept are those that
/// would have been kept had the failing match not been there.
pub proof fn lemma_failed_fetch_is_isolated(
    outcomes: Seq<Result<App, SteamRequestError>>,
    criteria: FilterCriteria,
    failed: int,
)
    requires
        0 <= failed < outcomes.len(),
        outcomes[failed] is Err,
    ensures
        accepted(outcomes, criteria) == accepted(outcomes.remove(failed), criteria),
{
    let before = outcomes.take(failed);
    let after = outcomes.skip(failed + 1);
    let one = seq![outcomes[failed]];
    assert(outcomes =~= before + one + after);
    assert(outcomes.remove(failed) =~= before + after);
    lemma_accepted_concat(before + one, after, criteria);
    lemma_accepted_concat(before, one, criteria);
    lemma_accepted_concat(before, after, criteria);
    assert(accepted(one, criteria) =~= Seq::<App>::empty()) by {
        Seq::lemma_filter_map_singleton(
            outcomes[failed],
            |outcome: Result<App, SteamRequestError>| kept(outcome, criteria),
        );
    }
    assert(accepted(before, criteria) + Seq::<App>::empty() =~= accepted(before, criteria));
}

/// A fetched title that passes the filter is kept, whatever became of the other fetches of
/// its round.
pub proof fn lemma_passing_title_is_kept(
    outcomes: Seq<Result<App, SteamRequestError>>,
    criteria: FilterCriteria,
    at: int,
)
    requires
        0 <= at < outcomes.len(),
        outcomes[at] is Ok,
        passes_filter(outcomes[at]->Ok_0, criteria),
    ensures
        accepted(outcomes, criteria).contains(outcomes[at]->Ok_0),
{
    let before = outcomes.take(at);
    let after = outcomes.skip(at + 1);
    let one = seq![outcomes[at]];
    assert(outcomes =~= before + one + after);
    lemma_accepted_concat(before + one, after, criteria);
    lemma_accepted_concat(before, one, criteria);
    assert(accepted(one, criteria) =~= seq![outcomes[at]->Ok_0]) by {
        Seq::lemma_filter_map_singleton(
            outcomes[at],
            |outcome: Result<App, SteamRequestError>| kept(outcome, criteria),
        );
    }
    let titles = accepted(outcomes, criteria);
    let position = accepted(before, criteria).len() as int;
    assert(titles[position] == outcomes[at]->Ok_0);
}

/// The loop starts out well formed.
pub proof fn lemma_initial_is_wf(criteria: FilterCriteria, quota: nat)
    ensures
        Collection::initial(criteria, quota).wf(),
{
}

/// Every event leaves a well-formed loop well formed.
pub proof fn lemma_step_keeps_wf(before: Collection, event: Event)
    requires
        before.wf(),
    ensures
        before.step(event).wf(),
{
}

/// The loop never loses a title: what was gathered before an event is still there after
/// it, in the same places.
pub proof fn lemma_step_keeps_results(before: Collection, event: Event)
    ensures
        before.results.is_prefix_of(before.step(event).results),
        before.step(event).quota == before.quota,
        before.step(event).criteria == before.criteria,
        before.step(event).rounds >= before.rounds,
{
    let after = before.step(event);
    assert(before.results =~= after.results.take(before.results.len() as int));
}

/// A new round is asked for only below the quota, and the loop finishes only at or above
/// it: once the quota is reached no round is issued any more, and below it the loop does not
/// stop.
pub proof fn lemma_rounds_stop_at_quota(collection: Collection)
    requires
        collection.wf(),
    ensures
        collection.action() is Search ==> collection.results.len() < collection.quota,
        collection.action() is Finish ==> collection.results.len() >= collection.quota,
        collection.results.len() >= collection.quota ==> !(collection.action() is Search),
        collection.results.len() < collection.quota ==> !(collection.action() is Finish),
{
}

/// No run of events makes a well-formed loop ill formed.
pub proof fn lemma_run_keeps_wf(start: Collection, events: Seq<Event>)
    requires
        start.wf(),
    ensures
        start.after(events).wf(),
    decreases events.len(),
{
    if events.len() > 0 {
        lemma_run_keeps_wf(start, events.drop_last());
        lemma_step_keeps_wf(start.after(events.drop_last()), events.last());
    }
}

/// No run of events loses a title, moves one, or changes what the loop was set up with.
pub proof fn lemma_run_keeps_results(start: Collection, events: Seq<Event>)
    ensures
        start.results.is_prefix_of(start.after(events).results),
        start.after(events).quota == start.quota,
        start.after(events).criteria == start.criteria,
    decreases events.len(),
{
    if events.len() > 0 {
        lemma_run_keeps_results(start, events.drop_last());
        lemma_step_keeps_results(start.after(events.drop_last()), events.last());
    }
}

/// Once the quota is reached the titles gathered are final: whatever is reported from then
/// on, no title is added or dropped and no round is asked for.
pub proof fn lemma_quota_reached_is_final(start: Collection, events: Seq<Event>)
    requires
        start.wf(),
        start.results.len() >= start.quota,
    ensures
        start.after(events).results == start.results,
        !(start.after(events).action() is Search),
    decreases events.len(),
{
    if events.len() > 0 {
        lemma_quota_reached_is_final(start, events.drop_last());
        lemma_run_keeps_wf(start, events.drop_last());
        lemma_run_keeps_results(start, events.drop_last());
    }
}

/// Once done, the loop stays as it is.
pub proof fn lemma_done_is_final(collection: Collection, event: Event)
    requires
        collection.state is Done,
    ensures
        collection.step(event) == collection,
{
}

/// After a pause the loop either goes on collecting or is done, and it has lost nothing.
pub proof fn lemma_pause_resumes(collection: Collection)
    requires
        collection.state is RateLimited,
    ensures
        collection.step(Event::PauseElapsed).state == collection.settled(),
        collection.step(Event::PauseElapsed).results == collection.results,
{
}

/// The identifiers to fetch details for, one outcome for every match and in the order of
/// the matches. A match whose thumbnail path holds no identifier gets
/// [`SteamRequestError::Other`] in its place.
pub fn identifiers(matches: &Vec<SearchItem>) -> (planned: Vec<Result<String, SteamRequestError>>)
    ensures
        planned@.len() == matches@.len(),
        forall|i: int|
            0 <= i < matches@.len() ==> as_text(#[trigger] planned@[i]) == extraction(
                matches@[i].logo@,
            ),
{
    let mut planned: Vec<Result<String, SteamRequestError>> = Vec::new();
    let mut at: usize = 0;
    while at < matches.len()
        invariant
            at <= matches@.len(),
            planned@.len() == at,
            forall|i: int|
                0 <= i < at ==> as_text(#[trigger] planned@[i]) == extraction(matches@[i].logo@),
        decreases matches@.len() - at,
    {
        planned.push(extract_identifier(matches[at].logo.as_str()));
        at = at + 1;
    }
    planned
}

/// Filters the detail outcomes of a round and appends the titles that pass to `list`, in
/// the order of the outcomes. Failed fetches are skipped. Says whether any fetch met a
/// rate-limiting signal.
pub fn get_filtered_games(
    list: &mut Vec<App>,
    outcomes: Vec<Result<App, SteamRequestError>>,
    criteria: &FilterCriteria,
) -> (limited: bool)
    ensures
        final(list)@ == old(list)@ + accepted(outcomes@, *criteria),
        limited == any_rate_limited(outcomes@),
{
    let ghost start = list@;
    let mut limited = false;
    proof {
        assert(accepted(outcomes@.take(0), *criteria) =~= Seq::<App>::empty());
        assert(start + Seq::<App>::empty() =~= start);
    }
    for outcome in it: outcomes
        invariant
            it.seq() == outcomes@,
            list@ == start + accepted(outcomes@.take(it.index() as int), *criteria),
            limited == any_rate_limited(outcomes@.take(it.index() as int)),
    {
        let ghost seen = outcomes@.take(it.index() as int);
        let ghost grown = outcomes@.take(it.index() + 1);
        proof {
            outcomes@.lemma_filter_map_take_succ(
                |outcome: Result<App, SteamRequestError>| kept(outcome, *criteria),
                it.index() as int,
            );
            assert(grown[it.index() as int] == outcome);
            assert(any_rate_limited(grown) <==> any_rate_limited(seen) || rate_limited(outcome))
                by {
                if any_rate_limited(seen) {
                    let k = choose|k: int| 0 <= k < seen.len() && rate_limited(#[trigger] seen[k]);
                    assert(grown[k] == seen[k]);
                }
                if any_rate_limited(grown) {
                    let k = choose|k: int|
                        0 <= k < grown.len() && rate_limited(#[trigger] grown[k]);
                    if k < seen.len() {
                        assert(seen[k] == grown[k]);
                    }
                }
            }
        }
        match outcome {
            Ok(game) => {
                if passes(&game, criteria) {
                    list.push(game);
                }
            },
            Err(SteamRequestError::RateLimited) => {
                limited = true;
            },
            Err(_) => {},
        }
    }
    proof {
        assert(outcomes@.take(outcomes@.len() as int) =~= outcomes@);
    }
    limited
}

fn count(rounds: u64) -> (more: u64)
    ensures
        more == counted(rounds as nat),
{
    if rounds < u64::MAX {
        rounds + 1
    } else {
        rounds
    }
}

/// The collection loop.
#[derive(Debug)]
pub struct Collector {
    state: LoopState,
    results: Vec<App>,
    quota: usize,
    criteria: FilterCriteria,
    rounds: u64,
    first_search_pending: bool,
}

impl View for Collector {
    type V = Collection;

    closed spec fn view(&self) -> Collection {
        Collection {
            state: self.state,
            results: self.results@,
            quota: self.quota as nat,
            criteria: self.criteria,
            rounds: self.rounds as nat,
            first_search_pending: self.first_search_pending,
        }
    }
}

impl Collector {
    #[verifier::type_invariant]
    spec fn well_formed(self) -> bool {
        self@.wf()
    }

    /// Sets the loop up to gather `quota` titles that pass `criteria`. Nothing is gathered
    /// yet; with a quota of zero there is nothing to do.
    pub fn new(criteria: FilterCriteria, quota: usize) -> (collector: Collector)
        ensures
            collector@ == Collection::initial(criteria, quota as nat),
            collector@.wf(),
    {
        let state = if quota == 0 {
            LoopState::Done
        } else {
            LoopState::Collecting
        };
        Collector {
            state,
            results: Vec::new(),
            quota,
            criteria,
            rounds: 0,
            first_search_pending: true,
        }
    }

    /// Where the loop stands.
    pub fn state(&self) -> (state: LoopState)
        ensures
            state == self@.state,
            self@.wf(),
    {
        proof {
            use_type_invariant(self);
        }
        self.state
    }

    /// The titles gathered so far, in the order of discovery.
    pub fn results(&self) -> (results: &Vec<App>)
        ensures
            results@ == self@.results,
    {
        &self.results
    }

    /// Ends the loop's work and hands over the titles gathered.
    pub fn into_results(self) -> (results: Vec<App>)
        ensures
            results@ == self@.results,
    {
        self.results
    }

    /// The number of titles asked for.
    pub fn quota(&self) -> (quota: usize)
        ensures
            quota == self@.quota,
    {
        self.quota
    }

    /// The number of rounds that have run to their end.
    pub fn rounds(&self) -> (rounds: u64)
        ensures
            rounds == self@.rounds,
    {
        self.rounds
    }

    /// The criteria that the titles are filtered by.
    pub fn criteria(&self) -> (criteria: FilterCriteria)
        ensures
            criteria == self@.criteria,
    {
        self.criteria
    }

    /// What the caller is to do now.
    pub fn next_action(&self) -> (action: Action)
        ensures
            action == self@.action(),
            action is Search ==> self@.results.len() < self@.quota,
            action is Finish ==> self@.results.len() >= self@.quota,
    {
        proof {
            use_type_invariant(self);
        }
        match self.state {
            LoopState::Collecting => Action::Search {
                max_price_minor_units: self.criteria.max_price_minor_units,
            },
            LoopState::RateLimited => Action::Pause { seconds: PAUSE_SECONDS },
            LoopState::Done => Action::Finish,
        }
    }

    /// Says whether an event, about to be handed to [`Collector::step`], reports that the
    /// very first search got no response at all.
    pub fn is_startup_failure(&self, event: &Event) -> (fatal: bool)
        ensures
            fatal == self@.fails_at_startup(*event),
    {
        match (self.state, event) {
            (LoopState::Collecting, Event::SearchFailed(SteamRequestError::Transport)) => {
                self.first_search_pending
            },
            _ => false,
        }
    }

    /// Takes in what happened and says what to do next.
    pub fn step(self, event: Event) -> (next: (Collector, Action))
        ensures
            next.0@ == self@.step(event),
            next.1 == next.0@.action(),
            next.0@.wf(),
    {
        proof {
            use_type_invariant(&self);
            lemma_step_keeps_wf(self@, event);
        }
        let Collector { state, results, quota, criteria, rounds, first_search_pending } = self;
        let mut results = results;
        let mut rounds = rounds;
        let mut first_search_pending = first_search_pending;
        let state = match (state, event) {
            (LoopState::Collecting, Event::SearchFailed(error)) => {
                first_search_pending = false;
                match error {
                    SteamRequestError::RateLimited => LoopState::RateLimited,
                    _ => {
                        rounds = count(rounds);
                        LoopState::Collecting
                    },
                }
            },
            (LoopState::Collecting, Event::RoundFetched(outcomes)) => {
                let limited = get_filtered_games(&mut results, outcomes, &criteria);
                rounds = count(rounds);
                first_search_pending = false;
                if limited {
                    LoopState::RateLimited
                } else if results.len() >= quota {
                    LoopState::Done
                } else {
                    LoopState::Collecting
                }
            },
            (LoopState::RateLimited, Event::PauseElapsed) => if results.len() >= quota {
                LoopState::Done
            } else {
                LoopState::Collecting
            },
            (state, _) => state,
        };
        let next = Collector { state, results, quota, criteria, rounds, first_search_pending };
        let action = next.next_action();
        (next, action)
    }
}

} // verus!
