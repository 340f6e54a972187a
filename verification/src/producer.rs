//! The per-bot producer: what it does with each answer of the match
//! service, of the queue and of its timer.

use crate::fingerprint::{calculate_hash, fingerprint_of};
use crate::tracker::{marked_in_flight, TurnStatus, TurnTracker};
use crate::turn::{texts, Bot, GameTurn};
use vstd::prelude::*;

verus! {

/// What a producer is waiting for.
#[derive(Clone, Copy, Debug, PartialEq, Eq, Structural)]
pub enum ProducerStage {
    /// The answer of the match service.
    Fetching,
    /// Room in the queue for the turn it has handed out.
    Offering,
    /// The end of its pause between two cycles.
    Sleeping,
    /// Nothing: the queue is closed for good.
    Stopped,
}

/// What happened outside the producer.
#[derive(Debug)]
pub enum ProducerEvent {
    /// The match service listed these pending positions.
    Fetched(Vec<String>),
    /// The match service could not be asked.
    FetchFailed,
    /// The queue took the turn.
    Enqueued,
    /// The queue is closed for good.
    QueueClosed,
    /// The pause is over.
    Woke,
}

/// What the producer asks for next.
#[derive(Debug)]
pub enum ProducerAction {
    /// Ask the match service for the bot's pending positions.
    Fetch,
    /// Push the turn onto the queue, waiting for room if it is full.
    Enqueue(GameTurn),
    /// Pause for the poll interval.
    Sleep,
    /// End the producer.
    Stop,
    /// Go on waiting: the event did not answer what the producer waits for.
    Idle,
}

/// The index of the first position whose fingerprint `entries` does not
/// hold; the number of positions where it holds them all.
pub open spec fn first_unseen(positions: Seq<Seq<char>>, entries: Map<u64, TurnStatus>) -> nat
    decreases positions.len(),
{
    if positions.len() == 0 {
        0
    } else if !entries.contains_key(fingerprint_of(positions[0])) {
        0
    } else {
        1 + first_unseen(positions.drop_first(), entries)
    }
}

/// The producer of one bot.
pub struct Producer {
    bot: Bot,
    stage: ProducerStage,
    pending: Vec<String>,
    next: usize,
}

impl Producer {
    /// The bot that the producer works for.
    pub closed spec fn bot(&self) -> Bot {
        self.bot
    }

    /// What the producer is waiting for.
    pub closed spec fn stage(&self) -> ProducerStage {
        self.stage
    }

    /// The positions of the current cycle that are still to be looked at,
    /// in the order in which the match service listed them.
    pub closed spec fn remaining(&self) -> Seq<Seq<char>> {
        if self.next <= self.pending@.len() {
            Seq::new(
                (self.pending@.len() - self.next) as nat,
                |i: int| self.pending@[self.next + i]@,
            )
        } else {
            Seq::empty()
        }
    }

    /// A producer for `bot` that awaits the answer to its first fetch.
    pub fn new(bot: Bot) -> (producer: Producer)
        ensures
            producer.bot() == bot,
            producer.stage() == ProducerStage::Fetching,
            producer.remaining() == Seq::<Seq<char>>::empty(),
    {
        let producer = Producer {
            bot,
            stage: ProducerStage::Fetching,
            pending: Vec::new(),
            next: 0,
        };
        assert(producer.remaining() =~= Seq::<Seq<char>>::empty());
        producer
    }

    /// What the producer is waiting for.
    pub fn current_stage(&self) -> (stage: ProducerStage)
        ensures
            stage == self.stage(),
    {
        self.stage
    }

    /// Takes the producer from what it was waiting for to what it asks for
    /// next. A claim on the tracker is made here and nowhere else, in the
    /// same step that hands the turn out.
    pub fn step(&mut self, event: ProducerEvent, tracker: &mut TurnTracker) -> (action:
        ProducerAction)
        ensures
            final(self).bot() == old(self).bot(),
            final(tracker).retention_window() == old(tracker).retention_window(),
            match reaction(old(self).stage(), event, old(self).remaining()) {
                Reaction::Look(positions) => {
                    &&& offered(positions, old(tracker)@, old(self).bot(), action)
                    &&& final(self).stage() == stage_after_offer(positions, old(tracker)@)
                    &&& final(self).remaining() == remaining_after_offer(
                        positions,
                        old(tracker)@,
                    )
                    &&& final(tracker)@ == entries_after_offer(positions, old(tracker)@)
                },
                Reaction::Pause => {
                    &&& action is Sleep
                    &&& final(self).stage() == ProducerStage::Sleeping
                    &&& final(self).remaining() == old(self).remaining()
                    &&& final(tracker)@ == old(tracker)@
                },
                Reaction::Poll => {
                    &&& action is Fetch
                    &&& final(self).stage() == ProducerStage::Fetching
                    &&& final(self).remaining() == old(self).remaining()
                    &&& final(tracker)@ == old(tracker)@
                },
                Reaction::Halt => {
                    &&& action is Stop
                    &&& final(self).stage() == ProducerStage::Stopped
                    &&& final(self).remaining() == old(self).remaining()
                    &&& final(tracker)@ == old(tracker)@
                },
                Reaction::Ignore => {
                    &&& action is Idle
                    &&& final(self).stage() == old(self).stage()
                    &&& final(self).remaining() == old(self).remaining()
                    &&& final(tracker)@ == old(tracker)@
                },
            },
    {
        match (self.stage, event) {
            (ProducerStage::Fetching, ProducerEvent::Fetched(positions)) => {
                self.pending = positions;
                self.next = 0;
                assert(self.remaining() =~= texts(positions@));
                self.advance(tracker)
            },
            (ProducerStage::Fetching, ProducerEvent::FetchFailed) => {
                self.stage = ProducerStage::Sleeping;
                ProducerAction::Sleep
            },
            (ProducerStage::Offering, ProducerEvent::Enqueued) => self.advance(tracker),
            (ProducerStage::Offering, ProducerEvent::QueueClosed) => {
                self.stage = ProducerStage::Stopped;
                ProducerAction::Stop
            },
            (ProducerStage::Sleeping, ProducerEvent::Woke) => {
                self.stage = ProducerStage::Fetching;
                ProducerAction::Fetch
            },
            _ => ProducerAction::Idle,
        }
    }

    /// Looks for the next position that the tracker does not hold, claims
    /// it and hands it out as a turn; pauses where none is left.
    fn advance(&mut self, tracker: &mut TurnTracker) -> (action: ProducerAction)
        ensures
            final(self).bot() == old(self).bot(),
            final(tracker).retention_window() == old(tracker).retention_window(),
            offered(old(self).remaining(), old(tracker)@, old(self).bot(), action),
            final(self).stage() == stage_after_offer(old(self).remaining(), old(tracker)@),
            final(self).remaining() == remaining_after_offer(old(self).remaining(), old(tracker)@),
            final(tracker)@ == entries_after_offer(old(self).remaining(), old(tracker)@),
    {
        while self.next < self.pending.len()
            invariant
                self.bot == old(self).bot,
                tracker@ == old(tracker)@,
                tracker.retention_window() == old(tracker).retention_window(),
                self.remaining().len() <= old(self).remaining().len(),
                self.remaining() == old(self).remaining().skip(
                    old(self).remaining().len() - self.remaining().len(),
                ),
                first_unseen(old(self).remaining(), tracker@) == (old(self).remaining().len()
                    - self.remaining().len()) + first_unseen(self.remaining(), tracker@),
            decreases self.pending.len() - self.next,
        {
            let ghost before = self.remaining();
            let position = self.pending[self.next].clone();
            let hash = calculate_hash(position.as_str());
            self.next = self.next + 1;
            proof {
                assert(before[0] == position@);
                assert(self.remaining() =~= before.drop_first());
                assert(self.remaining() =~= old(self).remaining().skip(
                    old(self).remaining().len() - self.remaining().len(),
                ));
            }
            if tracker.claim(hash) {
                self.stage = ProducerStage::Offering;
                let turn = GameTurn { game_string: position, hash, bot: self.bot.clone() };
                return ProducerAction::Enqueue(turn);
            }
        }
        self.stage = ProducerStage::Sleeping;
        assert(self.remaining() =~= Seq::<Seq<char>>::empty());
        ProducerAction::Sleep
    }
}

/// How a producer answers an event.
pub enum Reaction {
    /// It looks through these positions for the next unseen one.
    Look(Seq<Seq<char>>),
    /// It pauses without a look at anything.
    Pause,
    /// It asks the match service again.
    Poll,
    /// It ends.
    Halt,
    /// It leaves everything as it is.
    Ignore,
}

/// The answer of a producer in `stage`, with `remaining` positions of the
/// cycle left, to `event`. A fetch that failed counts as an empty cycle,
/// and only a closed queue ends the producer.
pub open spec fn reaction(
    stage: ProducerStage,
    event: ProducerEvent,
    remaining: Seq<Seq<char>>,
) -> Reaction {
    match (stage, event) {
        (ProducerStage::Fetching, ProducerEvent::Fetched(positions)) => Reaction::Look(
            texts(positions@),
        ),
        (ProducerStage::Fetching, ProducerEvent::FetchFailed) => Reaction::Pause,
        (ProducerStage::Offering, ProducerEvent::Enqueued) => Reaction::Look(remaining),
        (ProducerStage::Offering, ProducerEvent::QueueClosed) => Reaction::Halt,
        (ProducerStage::Sleeping, ProducerEvent::Woke) => Reaction::Poll,
        _ => Reaction::Ignore,
    }
}

/// The stage after a look through `positions`: offering where one of them
/// is unseen, sleeping where none is.
pub open spec fn stage_after_offer(
    positions: Seq<Seq<char>>,
    entries: Map<u64, TurnStatus>,
) -> ProducerStage {
    if first_unseen(positions, entries) < positions.len() {
        ProducerStage::Offering
    } else {
        ProducerStage::Sleeping
    }
}

/// The positions that are left after a look through `positions`: those
/// behind the first unseen one.
pub open spec fn remaining_after_offer(
    positions: Seq<Seq<char>>,
    entries: Map<u64, TurnStatus>,
) -> Seq<Seq<char>> {
    let k = first_unseen(positions, entries);
    if k < positions.len() {
        positions.skip(k as int + 1)
    } else {
        Seq::empty()
    }
}

/// The tracker's entries after a look through `positions`: the first
/// unseen one is in flight, and nothing else has changed.
pub open spec fn entries_after_offer(
    positions: Seq<Seq<char>>,
    entries: Map<u64, TurnStatus>,
) -> Map<u64, TurnStatus> {
    let k = first_unseen(positions, entries);
    if k < positions.len() {
        marked_in_flight(entries, fingerprint_of(positions[k as int]))
    } else {
        entries
    }
}

/// Whether `action` is what a look through `positions` asks for: the first
/// unseen position as a turn of `bot`, or a pause where none is unseen.
pub open spec fn offered(
    positions: Seq<Seq<char>>,
    entries: Map<u64, TurnStatus>,
    bot: Bot,
    action: ProducerAction,
) -> bool {
    let k = first_unseen(positions, entries);
    if k < positions.len() {
        &&& action matches ProducerAction::Enqueue(turn)
        &&& turn.game_string@ == positions[k as int]
        &&& turn.hash == fingerprint_of(positions[k as int])
        &&& turn.bot == bot
    } else {
        action is Sleep
    }
}

/// What the first unseen position is: every position before it is held by
/// the tracker, and it is not. So a look hands out a position if and only
/// if the tracker does not hold all of them, and passes over none that the
/// tracker does not hold.
pub proof fn lemma_first_unseen(positions: Seq<Seq<char>>, entries: Map<u64, TurnStatus>)
    ensures
        first_unseen(positions, entries) <= positions.len(),
        forall|j: int|
            0 <= j < first_unseen(positions, entries) ==> entries.contains_key(
                fingerprint_of(#[trigger] positions[j]),
            ),
        first_unseen(positions, entries) < positions.len() ==> !entries.contains_key(
            fingerprint_of(positions[first_unseen(positions, entries) as int]),
        ),
    decreases positions.len(),
{
    if positions.len() > 0 && entries.contains_key(fingerprint_of(positions[0])) {
        let rest = positions.drop_first();
        lemma_first_unseen(rest, entries);
        assert forall|j: int|
            0 <= j < first_unseen(positions, entries) implies entries.contains_key(
            fingerprint_of(#[trigger] positions[j]),
        ) by {
            if j > 0 {
                assert(positions[j] == rest[j - 1]);
            }
        }
        if first_unseen(positions, entries) < positions.len() {
            assert(positions[first_unseen(positions, entries) as int] == rest[first_unseen(
                rest,
                entries,
            ) as int]);
        }
    }
}

/// A position that a look hands out is in flight afterwards, so the next
/// look, by this producer or by another, passes over it: a turn is
/// enqueued only for a fingerprint that the tracker did not hold, and not
/// again while the tracker holds it.
pub proof fn lemma_offered_once(positions: Seq<Seq<char>>, entries: Map<u64, TurnStatus>)
    requires
        first_unseen(positions, entries) < positions.len(),
    ensures
        ({
            let hash = fingerprint_of(positions[first_unseen(positions, entries) as int]);
            let marked = entries_after_offer(positions, entries);
            &&& !entries.contains_key(hash)
            &&& marked.contains_key(hash)
            &&& marked[hash] == TurnStatus::InFlight
            &&& first_unseen(seq![positions[first_unseen(positions, entries) as int]], marked) == 1
        }),
{
    lemma_first_unseen(positions, entries);
    let k = first_unseen(positions, entries) as int;
    let marked = entries_after_offer(positions, entries);
    let again = seq![positions[k]];
    assert(again.drop_first().len() == 0);
    assert(first_unseen(again.drop_first(), marked) == 0);
}

} // verus!
