//! The worker that takes one turn through its engine and marks it
//! completed, however the engine fares.

use crate::engine::{
    announced_move, command_words, move_in, move_prefix, move_request, position_prefix,
    position_request, words_of,
};
use crate::tracker::{marked_completed, TurnTracker};
use crate::turn::{texts, GameTurn};
use vstd::prelude::*;

verus! {

/// How far a worker has come with its turn.
#[derive(Clone, Copy, Debug, PartialEq, Eq, Structural)]
pub enum WorkerStage {
    /// It waits for a permit of the shared pool.
    AwaitingPermit,
    /// It holds a permit and waits for its engine to start.
    Launching,
    /// It waits for the position line to be written.
    SendingPosition,
    /// It waits for the move request to be written.
    SendingRequest,
    /// It waits for the next output line of the engine.
    Reading,
    /// The turn is marked completed and the permit given back.
    Finished,
}

/// What happened outside the worker.
#[derive(Debug)]
pub enum WorkerEvent {
    /// The pool granted a permit.
    PermitGranted,
    /// The engine process runs.
    Launched,
    /// The engine process could not be started.
    LaunchFailed(String),
    /// The line was written to the engine.
    Sent,
    /// The engine printed this line.
    Line(String),
    /// The engine's output has ended.
    OutputClosed,
    /// Writing to the engine or reading from it failed.
    IoFailed(String),
}

/// How a turn ended.
#[derive(Debug)]
pub enum TurnOutcome {
    /// The engine announced this move.
    BestMove(String),
    /// The engine could not be started, for the given reason.
    LaunchFailed(String),
    /// The engine's output ended before it announced a move.
    NoMove,
    /// The exchange with the engine broke, for the given reason.
    IoFailed(String),
}

/// What the worker asks for next.
#[derive(Debug)]
pub enum WorkerAction {
    /// Start the engine: the program with these arguments. The program is
    /// empty where the bot's command line holds no word.
    Launch { program: String, arguments: Vec<String> },
    /// Write this request line to the engine.
    Send(String),
    /// Read the next output line of the engine.
    ReadLine,
    /// Report the outcome and give the permit back: the turn is done.
    Finish(TurnOutcome),
    /// Go on waiting: the event did not answer what the worker waits for.
    Idle,
}

/// The stage that follows `stage` on `event`. Every way in which an engine
/// can fail leads to `Finished`, as the announced move does; an event that
/// does not answer what the worker waits for changes nothing.
pub open spec fn next_stage(stage: WorkerStage, event: WorkerEvent) -> WorkerStage {
    match (stage, event) {
        (WorkerStage::AwaitingPermit, WorkerEvent::PermitGranted) => WorkerStage::Launching,
        (WorkerStage::Launching, WorkerEvent::Launched) => WorkerStage::SendingPosition,
        (WorkerStage::Launching, WorkerEvent::LaunchFailed(_)) => WorkerStage::Finished,
        (WorkerStage::SendingPosition, WorkerEvent::Sent) => WorkerStage::SendingRequest,
        (WorkerStage::SendingRequest, WorkerEvent::Sent) => WorkerStage::Reading,
        (WorkerStage::Reading, WorkerEvent::Line(line)) => if move_in(line@) is Some {
            WorkerStage::Finished
        } else {
            WorkerStage::Reading
        },
        (WorkerStage::Reading, WorkerEvent::OutputClosed) => WorkerStage::Finished,
        (WorkerStage::SendingPosition, WorkerEvent::IoFailed(_)) => WorkerStage::Finished,
        (WorkerStage::SendingRequest, WorkerEvent::IoFailed(_)) => WorkerStage::Finished,
        (WorkerStage::Reading, WorkerEvent::IoFailed(_)) => WorkerStage::Finished,
        _ => stage,
    }
}

/// Whether the step from `stage` on `event` is the one that ends the turn.
pub open spec fn completes(stage: WorkerStage, event: WorkerEvent) -> bool {
    stage != WorkerStage::Finished && next_stage(stage, event) == WorkerStage::Finished
}

/// Whether a program and its arguments are what the words of a command
/// line ask for: the first word and the words behind it.
pub open spec fn launches(
    words: Seq<Seq<char>>,
    program: Seq<char>,
    arguments: Seq<Seq<char>>,
) -> bool {
    if words.len() == 0 {
        program.len() == 0 && arguments.len() == 0
    } else {
        program == words[0] && arguments == words.drop_first()
    }
}

/// Whether `action` is what a worker on `turn` asks for when `event`
/// reaches it in `stage`.
pub open spec fn answers(
    turn: GameTurn,
    stage: WorkerStage,
    event: WorkerEvent,
    action: WorkerAction,
) -> bool {
    match (stage, event) {
        (WorkerStage::AwaitingPermit, WorkerEvent::PermitGranted) => {
            &&& action matches WorkerAction::Launch { program, arguments }
            &&& launches(words_of(turn.bot.ai_command@), program@, texts(arguments@))
        },
        (WorkerStage::Launching, WorkerEvent::Launched) => {
            &&& action matches WorkerAction::Send(line)
            &&& line@ == position_prefix() + turn.game_string@
        },
        (WorkerStage::Launching, WorkerEvent::LaunchFailed(reason)) => {
            action == WorkerAction::Finish(TurnOutcome::LaunchFailed(reason))
        },
        (WorkerStage::SendingPosition, WorkerEvent::Sent) => {
            &&& action matches WorkerAction::Send(line)
            &&& line@ == move_prefix() + turn.bot.bestmove_command_args@
        },
        (WorkerStage::SendingRequest, WorkerEvent::Sent) => action is ReadLine,
        (WorkerStage::Reading, WorkerEvent::Line(line)) => match move_in(line@) {
            Some(text) => {
                &&& action matches WorkerAction::Finish(TurnOutcome::BestMove(found))
                &&& found@ == text
            },
            None => action is ReadLine,
        },
        (WorkerStage::Reading, WorkerEvent::OutputClosed) => {
            action == WorkerAction::Finish(TurnOutcome::NoMove)
        },
        (WorkerStage::SendingPosition, WorkerEvent::IoFailed(reason)) => {
            action == WorkerAction::Finish(TurnOutcome::IoFailed(reason))
        },
        (WorkerStage::SendingRequest, WorkerEvent::IoFailed(reason)) => {
            action == WorkerAction::Finish(TurnOutcome::IoFailed(reason))
        },
        (WorkerStage::Reading, WorkerEvent::IoFailed(reason)) => {
            action == WorkerAction::Finish(TurnOutcome::IoFailed(reason))
        },
        _ => action is Idle,
    }
}

/// The worker of one turn.
pub struct Worker {
    turn: GameTurn,
    stage: WorkerStage,
}

impl Worker {
    /// The turn that the worker processes.
    pub closed spec fn turn(&self) -> GameTurn {
        self.turn
    }

    /// How far the worker has come.
    pub closed spec fn stage(&self) -> WorkerStage {
        self.stage
    }

    /// A worker for `turn` that waits for its permit.
    pub fn new(turn: GameTurn) -> (worker: Worker)
        ensures
            worker.turn() == turn,
            worker.stage() == WorkerStage::AwaitingPermit,
    {
        Worker { turn, stage: WorkerStage::AwaitingPermit }
    }

    /// How far the worker has come.
    pub fn current_stage(&self) -> (stage: WorkerStage)
        ensures
            stage == self.stage(),
    {
        self.stage
    }

    /// The fingerprint of the worker's turn.
    pub fn hash(&self) -> (hash: u64)
        ensures
            hash == self.turn().hash,
    {
        self.turn.hash
    }

    /// Takes the worker one event further. The step that ends the turn,
    /// and no other, marks its fingerprint completed at `now`.
    pub fn step(&mut self, event: WorkerEvent, tracker: &mut TurnTracker, now: u64) -> (action:
        WorkerAction)
        ensures
            final(self).turn() == old(self).turn(),
            final(self).stage() == next_stage(old(self).stage(), event),
            answers(old(self).turn(), old(self).stage(), event, action),
            action is Finish <==> completes(old(self).stage(), event),
            final(tracker)@ == (if completes(old(self).stage(), event) {
                marked_completed(old(tracker)@, old(self).turn().hash, now)
            } else {
                old(tracker)@
            }),
            final(tracker).retention_window() == old(tracker).retention_window(),
    {
        match (self.stage, event) {
            (WorkerStage::AwaitingPermit, WorkerEvent::PermitGranted) => {
                self.stage = WorkerStage::Launching;
                let mut arguments = command_words(self.turn.bot.ai_command.as_str());
                let ghost words = arguments@;
                let program = if arguments.len() > 0 {
                    arguments.remove(0)
                } else {
                    String::new()
                };
                assert(words.len() > 0 ==> texts(arguments@) =~= texts(words).drop_first());
                WorkerAction::Launch { program, arguments }
            },
            (WorkerStage::Launching, WorkerEvent::Launched) => {
                self.stage = WorkerStage::SendingPosition;
                WorkerAction::Send(position_request(self.turn.game_string.as_str()))
            },
            (WorkerStage::Launching, WorkerEvent::LaunchFailed(reason)) => self.finish(
                TurnOutcome::LaunchFailed(reason),
                tracker,
                now,
            ),
            (WorkerStage::SendingPosition, WorkerEvent::Sent) => {
                self.stage = WorkerStage::SendingRequest;
                WorkerAction::Send(move_request(self.turn.bot.bestmove_command_args.as_str()))
            },
            (WorkerStage::SendingRequest, WorkerEvent::Sent) => {
                self.stage = WorkerStage::Reading;
                WorkerAction::ReadLine
            },
            (WorkerStage::Reading, WorkerEvent::Line(line)) => {
                match announced_move(line.as_str()) {
                    Some(found) => self.finish(TurnOutcome::BestMove(found), tracker, now),
                    None => WorkerAction::ReadLine,
                }
            },
            (WorkerStage::Reading, WorkerEvent::OutputClosed) => self.finish(
                TurnOutcome::NoMove,
                tracker,
                now,
            ),
            (WorkerStage::SendingPosition, WorkerEvent::IoFailed(reason)) => self.finish(
                TurnOutcome::IoFailed(reason),
                tracker,
                now,
            ),
            (WorkerStage::SendingRequest, WorkerEvent::IoFailed(reason)) => self.finish(
                TurnOutcome::IoFailed(reason),
                tracker,
                now,
            ),
            (WorkerStage::Reading, WorkerEvent::IoFailed(reason)) => self.finish(
                TurnOutcome::IoFailed(reason),
                tracker,
                now,
            ),
            _ => WorkerAction::Idle,
        }
    }

    /// Ends the turn with `outcome`: marks it completed, once.
    fn finish(&mut self, outcome: TurnOutcome, tracker: &mut TurnTracker, now: u64) -> (action:
        WorkerAction)
        ensures
            final(self).turn() == old(self).turn(),
            final(self).stage() == WorkerStage::Finished,
            action == WorkerAction::Finish(outcome),
            final(tracker)@ == marked_completed(old(tracker)@, old(self).turn().hash, now),
            final(tracker).retention_window() == old(tracker).retention_window(),
    {
        tracker.mark_completed(self.turn.hash, now);
        self.stage = WorkerStage::Finished;
        WorkerAction::Finish(outcome)
    }
}

/// Whether `event` is one of the ways in which a turn in `stage` ends: the
/// engine does not start, the exchange breaks, the output ends, or the
/// move is announced.
pub open spec fn is_ending(stage: WorkerStage, event: WorkerEvent) -> bool {
    match event {
        WorkerEvent::LaunchFailed(_) => stage == WorkerStage::Launching,
        WorkerEvent::IoFailed(_) => stage == WorkerStage::SendingPosition || stage
            == WorkerStage::SendingRequest || stage == WorkerStage::Reading,
        WorkerEvent::OutputClosed => stage == WorkerStage::Reading,
        WorkerEvent::Line(line) => stage == WorkerStage::Reading && move_in(line@) is Some,
        _ => false,
    }
}

/// A step marks the turn completed if and only if its event is an ending
/// of the turn: success and every failure alike, and nothing else.
pub proof fn lemma_every_ending_completes(stage: WorkerStage, event: WorkerEvent)
    ensures
        completes(stage, event) <==> is_ending(stage, event),
{
}

/// The stage that a worker reaches from `stage` through a run of events,
/// first to last.
pub open spec fn stage_after(stage: WorkerStage, events: Seq<WorkerEvent>) -> WorkerStage
    decreases events.len(),
{
    if events.len() == 0 {
        stage
    } else {
        stage_after(next_stage(stage, events[0]), events.drop_first())
    }
}

/// The number of steps in a run from `stage` that mark the turn completed.
pub open spec fn completions(stage: WorkerStage, events: Seq<WorkerEvent>) -> nat
    decreases events.len(),
{
    if events.len() == 0 {
        0
    } else {
        let marks: nat = if completes(stage, events[0]) {
            1
        } else {
            0
        };
        marks + completions(next_stage(stage, events[0]), events.drop_first())
    }
}

/// Along every run of events a worker marks its turn completed at most
/// once, and exactly once where the run ends its turn: whether the engine
/// announced a move, could not be started, fell silent or broke.
pub proof fn lemma_completed_exactly_once(stage: WorkerStage, events: Seq<WorkerEvent>)
    ensures
        completions(stage, events) == (if stage != WorkerStage::Finished && stage_after(
            stage,
            events,
        ) == WorkerStage::Finished {
            1nat
        } else {
            0nat
        }),
        stage == WorkerStage::Finished ==> stage_after(stage, events) == WorkerStage::Finished,
    decreases events.len(),
{
    if events.len() > 0 {
        lemma_completed_exactly_once(next_stage(stage, events[0]), events.drop_first());
    }
}

/// A worker that has left the wait for its permit has been granted one:
/// no engine is started, and no line exchanged, before the pool's grant.
pub proof fn lemma_engine_only_under_permit(events: Seq<WorkerEvent>)
    requires
        stage_after(WorkerStage::AwaitingPermit, events) != WorkerStage::AwaitingPermit,
    ensures
        exists|i: int| 0 <= i < events.len() && events[i] is PermitGranted,
    decreases events.len(),
{
    if events.len() > 0 {
        if events[0] is PermitGranted {
            assert(events[0] is PermitGranted);
        } else {
            let rest = events.drop_first();
            lemma_engine_only_under_permit(rest);
            let i = choose|i: int| 0 <= i < rest.len() && rest[i] is PermitGranted;
            assert(events[i + 1] is PermitGranted);
        }
    }
}

} // verus!
