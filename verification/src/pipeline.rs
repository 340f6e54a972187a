//! The pipeline as a whole: which turns are under way, and why no
//! fingerprint is under way twice.
//!
//! A turn is under way from the producer step that claims its fingerprint
//! and hands it to the queue until the worker step that marks it completed.
//! The model below follows the tracker's entries and the fingerprints under
//! way through every interleaving of producers, workers and cleanups.

use crate::tracker::{claimed_by, cleaned, marked_completed, TurnStatus};
use vstd::multiset::Multiset;
use vstd::prelude::*;

verus! {

/// The tracker's entries, and the fingerprint of each turn that is
/// enqueued or in the hands of a worker, once for each such turn.
pub struct PipelineState {
    pub entries: Map<u64, TurnStatus>,
    pub under_way: Multiset<u64>,
}

/// One step of some task of the pipeline.
pub enum PipelineEvent {
    /// A producer found a position with this fingerprint in its list.
    Offer(u64),
    /// A worker ended a turn with this fingerprint at the given time.
    Finish { hash: u64, now: u64 },
    /// The cleanup task ran at the given time.
    Cleanup { now: u64 },
}

/// The pipeline at startup: nothing known, nothing under way.
pub open spec fn initial() -> PipelineState {
    PipelineState { entries: Map::empty(), under_way: Multiset::empty() }
}

/// Whether the event can happen in the state: a worker can only end a turn
/// that is under way.
pub open spec fn possible(state: PipelineState, event: PipelineEvent) -> bool {
    match event {
        PipelineEvent::Finish { hash, .. } => state.under_way.count(hash) > 0,
        _ => true,
    }
}

/// The state after an event. An offer puts a turn under way only where the
/// claim of its fingerprint succeeds.
pub open spec fn after(
    state: PipelineState,
    event: PipelineEvent,
    retention: u64,
) -> PipelineState {
    match event {
        PipelineEvent::Offer(hash) => if state.entries.contains_key(hash) {
            state
        } else {
            PipelineState {
                entries: claimed_by(state.entries, hash),
                under_way: state.under_way.insert(hash),
            }
        },
        PipelineEvent::Finish { hash, now } => PipelineState {
            entries: marked_completed(state.entries, hash, now),
            under_way: state.under_way.remove(hash),
        },
        PipelineEvent::Cleanup { now } => PipelineState {
            entries: cleaned(state.entries, now, retention),
            under_way: state.under_way,
        },
    }
}

/// Whether the events can happen one after the other, starting in `state`.
pub open spec fn possible_run(
    state: PipelineState,
    events: Seq<PipelineEvent>,
    retention: u64,
) -> bool
    decreases events.len(),
{
    events.len() == 0 || (possible(state, events[0]) && possible_run(
        after(state, events[0], retention),
        events.drop_first(),
        retention,
    ))
}

/// The state after a run of events, first to last.
pub open spec fn after_run(
    state: PipelineState,
    events: Seq<PipelineEvent>,
    retention: u64,
) -> PipelineState
    decreases events.len(),
{
    if events.len() == 0 {
        state
    } else {
        after_run(after(state, events[0], retention), events.drop_first(), retention)
    }
}

/// No fingerprint is under way twice, and one that is under way is in
/// flight in the tracker.
pub open spec fn deduplicated(state: PipelineState) -> bool {
    forall|hash: u64|
        {
            &&& #[trigger] state.under_way.count(hash) <= 1
            &&& state.under_way.count(hash) == 1 ==> state.entries.contains_key(hash)
                && state.entries[hash] == TurnStatus::InFlight
        }
}

/// Every possible event keeps the pipeline deduplicated.
pub proof fn lemma_event_keeps_deduplicated(
    state: PipelineState,
    event: PipelineEvent,
    retention: u64,
)
    requires
        deduplicated(state),
        possible(state, event),
    ensures
        deduplicated(after(state, event, retention)),
{
    let next = after(state, event, retention);
    assert forall|hash: u64|
        {
            &&& #[trigger] next.under_way.count(hash) <= 1
            &&& next.under_way.count(hash) == 1 ==> next.entries.contains_key(hash)
                && next.entries[hash] == TurnStatus::InFlight
        } by {
        assert(state.under_way.count(hash) <= 1);
        match event {
            PipelineEvent::Offer(offered) => {
                assert(state.under_way.count(offered) <= 1);
            },
            PipelineEvent::Finish { hash: ended, now } => {
                assert(state.under_way.count(ended) <= 1);
            },
            PipelineEvent::Cleanup { now } => {},
        }
    }
}

/// Whatever the producers, workers and cleanups do, in whatever order: at
/// no time are two turns with one fingerprint under way, so at most one
/// worker is ever active for a fingerprint.
pub proof fn lemma_at_most_one_turn_per_fingerprint(
    state: PipelineState,
    events: Seq<PipelineEvent>,
    retention: u64,
)
    requires
        deduplicated(state),
        possible_run(state, events, retention),
    ensures
        deduplicated(after_run(state, events, retention)),
    decreases events.len(),
{
    if events.len() > 0 {
        lemma_event_keeps_deduplicated(state, events[0], retention);
        lemma_at_most_one_turn_per_fingerprint(
            after(state, events[0], retention),
            events.drop_first(),
            retention,
        );
    }
}

/// The pipeline starts deduplicated.
pub proof fn lemma_initial_deduplicated()
    ensures
        deduplicated(initial()),
{
}

} // verus!
