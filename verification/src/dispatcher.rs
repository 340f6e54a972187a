//! The dispatcher: one worker task per turn, and the set of tasks that
//! have not been seen to finish.

use crate::turn::GameTurn;
use tokio::task::JoinHandle;
use vstd::prelude::*;

verus! {

/// `tokio::task::JoinHandle`, the handle of a task spawned on the runtime.
/// Opaque: nothing is known of a handle but what a poll tells.
#[verifier::external_type_specification]
#[verifier::external_body]
#[verifier::reject_recursive_types(T)]
pub struct ExJoinHandle<T>(tokio::task::JoinHandle<T>);

/// `tokio::task::JoinError`, the error with which a task that was cancelled
/// or that panicked ends. Named here because a handle resolves to it; the
/// library never reads one.
#[verifier::external_type_specification]
#[verifier::external_body]
pub struct ExJoinError(tokio::task::JoinError);

/// `tokio::task::JoinHandle::is_finished`: whether the task has run to its
/// end. What it says depends on the runtime, so nothing is claimed of the
/// answer.
pub assume_specification<T>[ tokio::task::JoinHandle::<T>::is_finished ](
    handle: &tokio::task::JoinHandle<T>,
) -> (finished: bool)
;

/// The items that stay when each item with a raised flag leaves, in their
/// old order. Items beyond the flags stay.
pub open spec fn survivors<T>(items: Seq<T>, finished: Seq<bool>) -> Seq<T>
    decreases items.len(),
{
    if items.len() == 0 {
        Seq::empty()
    } else {
        let rest = survivors(items.drop_last(), finished);
        if items.len() <= finished.len() && finished[items.len() - 1] {
            rest
        } else {
            rest.push(items.last())
        }
    }
}

/// Drops from `items` each item whose flag in `finished` is raised.
pub fn retain_unfinished<T>(items: &mut Vec<T>, finished: &Vec<bool>)
    ensures
        final(items)@ == survivors(old(items)@, finished@),
{
    let mut kept: Vec<T> = Vec::new();
    let ghost target = survivors(items@, finished@);
    while items.len() > 0
        invariant
            survivors(items@, finished@) + kept@.reverse() == target,
        decreases items.len(),
    {
        let ghost before = items@;
        let ghost held = kept@;
        let at = items.len() - 1;
        let item = items.pop().unwrap();
        assert(items@ == before.drop_last());
        if !(at < finished.len() && finished[at]) {
            kept.push(item);
            assert(kept@.reverse() =~= seq![item] + held.reverse());
            assert(survivors(items@, finished@) + kept@.reverse() =~= survivors(
                before,
                finished@,
            ) + held.reverse());
        }
    }
    assert(items@ + kept@.reverse() =~= target);
    // `kept` holds the survivors last first.
    while kept.len() > 0
        invariant
            items@ + kept@.reverse() == target,
        decreases kept.len(),
    {
        let ghost before = items@;
        let ghost held = kept@;
        let item = kept.pop().unwrap();
        items.push(item);
        assert(held.reverse() =~= seq![item] + kept@.reverse());
        assert(items@ + kept@.reverse() =~= before + held.reverse());
    }
    assert(items@ =~= items@ + kept@.reverse());
}

/// Whether `after` is what a reap can leave of `before`: some of its items
/// have left, and the others stand in their old order.
pub open spec fn reaped<T>(before: Seq<T>, after: Seq<T>) -> bool {
    exists|finished: Seq<bool>|
        finished.len() == before.len() && after == #[trigger] survivors(before, finished)
}

/// What a reap can and cannot do: the survivors are no more than the items
/// were, each of them was among the items, and where no flag is raised all
/// items stay.
pub proof fn lemma_survivors_within<T>(items: Seq<T>, finished: Seq<bool>)
    ensures
        survivors(items, finished).len() <= items.len(),
        forall|i: int|
            0 <= i < survivors(items, finished).len() ==> items.contains(
                #[trigger] survivors(items, finished)[i],
            ),
        (forall|i: int| 0 <= i < finished.len() ==> !finished[i]) ==> survivors(items, finished)
            == items,
    decreases items.len(),
{
    if items.len() > 0 {
        let front = items.drop_last();
        lemma_survivors_within(front, finished);
        let kept = survivors(items, finished);
        let rest = survivors(front, finished);
        assert forall|i: int| 0 <= i < kept.len() implies items.contains(#[trigger] kept[i]) by {
            if i < rest.len() {
                assert(front.contains(rest[i]));
                let j = choose|j: int| 0 <= j < front.len() && front[j] == rest[i];
                assert(items[j] == kept[i]);
            } else {
                assert(items[items.len() - 1] == kept[i]);
            }
        }
        if forall|i: int| 0 <= i < finished.len() ==> !finished[i] {
            assert(kept =~= items);
        }
    } else {
        assert(survivors(items, finished) =~= items);
    }
}

/// Asks each handle once whether its task has finished.
fn poll_all(active: &Vec<JoinHandle<()>>) -> (finished: Vec<bool>)
    ensures
        finished@.len() == active@.len(),
{
    let mut finished: Vec<bool> = Vec::new();
    let mut i: usize = 0;
    while i < active.len()
        invariant
            i <= active@.len(),
            finished@.len() == i,
        decreases active.len() - i,
    {
        finished.push(active[i].is_finished());
        i += 1;
    }
    finished
}

/// Drops the handles of the tasks that are seen to have finished. Which
/// those are is the runtime's to say: whatever it says, no handle is added
/// and those that stay keep their order.
pub fn cleanup_processes(active: &mut Vec<JoinHandle<()>>)
    ensures
        reaped(old(active)@, final(active)@),
{
    let finished = poll_all(active);
    retain_unfinished(active, &finished);
}

/// What happened outside the dispatcher.
pub enum DispatcherEvent {
    /// The queue handed over a turn.
    Received(GameTurn),
    /// The queue had nothing to hand over.
    NothingReceived,
    /// The worker for the last turn runs as a task with this handle.
    Spawned(JoinHandle<()>),
}

/// What the dispatcher asks for next.
pub enum DispatcherAction {
    /// Take the next turn from the queue, waiting while it is empty.
    Receive,
    /// Start a worker for the turn as a task of its own, and do not wait
    /// for it.
    Spawn(GameTurn),
}

/// The single dispatcher, with the handles of the workers it has started
/// and not yet seen finished.
pub struct Dispatcher {
    active: Vec<JoinHandle<()>>,
}

impl Dispatcher {
    /// The outstanding handles, oldest first.
    pub closed spec fn outstanding(&self) -> Seq<JoinHandle<()>> {
        self.active@
    }

    /// A dispatcher with no worker outstanding.
    pub fn new() -> (dispatcher: Dispatcher)
        ensures
            dispatcher.outstanding() == Seq::<JoinHandle<()>>::empty(),
    {
        Dispatcher { active: Vec::new() }
    }

    /// The number of outstanding handles.
    pub fn outstanding_count(&self) -> (count: usize)
        ensures
            count == self.outstanding().len(),
    {
        self.active.len()
    }

    /// Answers an event: a turn received is to be started at once, and a
    /// handle is recorded and followed by a reap before the next receive.
    pub fn step(&mut self, event: DispatcherEvent) -> (action: DispatcherAction)
        ensures
            match event {
                DispatcherEvent::Received(turn) => {
                    &&& action == DispatcherAction::Spawn(turn)
                    &&& final(self).outstanding() == old(self).outstanding()
                },
                DispatcherEvent::NothingReceived => {
                    &&& action is Receive
                    &&& final(self).outstanding() == old(self).outstanding()
                },
                DispatcherEvent::Spawned(handle) => {
                    &&& action is Receive
                    &&& reaped(old(self).outstanding().push(handle), final(self).outstanding())
                },
            },
    {
        match event {
            DispatcherEvent::Received(turn) => DispatcherAction::Spawn(turn),
            DispatcherEvent::NothingReceived => DispatcherAction::Receive,
            DispatcherEvent::Spawned(handle) => {
                self.active.push(handle);
                cleanup_processes(&mut self.active);
                DispatcherAction::Receive
            },
        }
    }
}

} // verus!
