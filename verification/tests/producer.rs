use tokio::sync::mpsc;
use tokio::sync::mpsc::error::TrySendError;
use turn_pipeline::fingerprint::calculate_hash;
use turn_pipeline::producer::{Producer, ProducerAction, ProducerEvent, ProducerStage};
use turn_pipeline::tracker::{TurnStatus, TurnTracker};
use turn_pipeline::turn::{Bot, GameTurn};

fn bot(name: &str) -> Bot {
    Bot {
        name: String::from(name),
        uri: format!("/games/{}", name),
        api_key: format!("{}_key", name),
        ai_command: String::from("engine uhp --threads=1"),
        bestmove_command_args: String::from("depth 1"),
    }
}

fn positions(texts: &[&str]) -> Vec<String> {
    texts.iter().map(|text| String::from(*text)).collect()
}

fn enqueued(action: ProducerAction) -> GameTurn {
    match action {
        ProducerAction::Enqueue(turn) => turn,
        other => panic!("no turn was handed out: {:?}", other),
    }
}

#[test]
fn game_turn_carries_the_fingerprint_of_its_position() {
    let owner = bot("one");
    let turn = GameTurn::new(String::from("Base;NotStarted;White[1]"), &owner);
    assert_eq!(turn.game_string, "Base;NotStarted;White[1]");
    assert_eq!(turn.hash, calculate_hash("Base;NotStarted;White[1]"));
    assert_eq!(turn.bot.name, "one");
    assert_eq!(turn.bot.uri, "/games/one");
    assert_eq!(turn.bot.api_key, "one_key");
    assert_eq!(turn.bot.ai_command, "engine uhp --threads=1");
    assert_eq!(turn.bot.bestmove_command_args, "depth 1");
}

#[test]
fn bot_clone_keeps_every_field() {
    let owner = bot("two");
    let copy = owner.clone();
    assert_eq!(copy.name, owner.name);
    assert_eq!(copy.uri, owner.uri);
    assert_eq!(copy.api_key, owner.api_key);
    assert_eq!(copy.ai_command, owner.ai_command);
    assert_eq!(copy.bestmove_command_args, owner.bestmove_command_args);
}

#[test]
fn a_new_producer_waits_for_its_first_fetch() {
    let producer = Producer::new(bot("one"));
    assert_eq!(producer.current_stage(), ProducerStage::Fetching);
}

#[test]
fn producer_hands_out_each_new_position_in_order() {
    let mut tracker = TurnTracker::new(5_000);
    let mut producer = Producer::new(bot("one"));
    let first = enqueued(producer.step(ProducerEvent::Fetched(positions(&["first", "second", "third"])), &mut tracker));
    assert_eq!(first.game_string, "first");
    assert_eq!(first.hash, calculate_hash("first"));
    assert_eq!(first.bot.name, "one");
    assert_eq!(producer.current_stage(), ProducerStage::Offering);
    assert_eq!(tracker.status(calculate_hash("first")), Some(TurnStatus::InFlight));
    assert!(!tracker.is_tracked(calculate_hash("second")));
    let second = enqueued(producer.step(ProducerEvent::Enqueued, &mut tracker));
    assert_eq!(second.game_string, "second");
    assert!(!tracker.is_tracked(calculate_hash("third")));
    let third = enqueued(producer.step(ProducerEvent::Enqueued, &mut tracker));
    assert_eq!(third.game_string, "third");
    assert!(matches!(producer.step(ProducerEvent::Enqueued, &mut tracker), ProducerAction::Sleep));
    assert_eq!(producer.current_stage(), ProducerStage::Sleeping);
    assert!(matches!(producer.step(ProducerEvent::Woke, &mut tracker), ProducerAction::Fetch));
    assert_eq!(producer.current_stage(), ProducerStage::Fetching);
}

#[test]
fn producer_skips_what_the_tracker_holds() {
    let mut tracker = TurnTracker::new(5_000);
    tracker.mark_in_flight(calculate_hash("first"));
    tracker.mark_completed(calculate_hash("second"), 100);
    let mut producer = Producer::new(bot("one"));
    let turn = enqueued(producer.step(ProducerEvent::Fetched(positions(&["first", "second", "third", "first"])), &mut tracker));
    assert_eq!(turn.game_string, "third");
    assert_eq!(tracker.status(calculate_hash("first")), Some(TurnStatus::InFlight));
    assert_eq!(tracker.status(calculate_hash("second")), Some(TurnStatus::Completed { at: 100 }));
    assert!(matches!(producer.step(ProducerEvent::Enqueued, &mut tracker), ProducerAction::Sleep));
}

#[test]
fn producer_skips_a_position_listed_twice() {
    let mut tracker = TurnTracker::new(5_000);
    let mut producer = Producer::new(bot("one"));
    let turn = enqueued(producer.step(ProducerEvent::Fetched(positions(&["first", "first", "second"])), &mut tracker));
    assert_eq!(turn.game_string, "first");
    let turn = enqueued(producer.step(ProducerEvent::Enqueued, &mut tracker));
    assert_eq!(turn.game_string, "second");
    assert!(matches!(producer.step(ProducerEvent::Enqueued, &mut tracker), ProducerAction::Sleep));
}

#[test]
fn producer_looks_at_the_tracker_when_each_turn_is_due() {
    let mut tracker = TurnTracker::new(5_000);
    let mut producer = Producer::new(bot("one"));
    let turn = enqueued(producer.step(ProducerEvent::Fetched(positions(&["first", "second", "third"])), &mut tracker));
    assert_eq!(turn.game_string, "first");
    tracker.mark_in_flight(calculate_hash("second"));
    let turn = enqueued(producer.step(ProducerEvent::Enqueued, &mut tracker));
    assert_eq!(turn.game_string, "third");
}

#[test]
fn producer_pauses_on_an_empty_list() {
    let mut tracker = TurnTracker::new(5_000);
    let mut producer = Producer::new(bot("one"));
    assert!(matches!(producer.step(ProducerEvent::Fetched(Vec::new()), &mut tracker), ProducerAction::Sleep));
    assert_eq!(producer.current_stage(), ProducerStage::Sleeping);
}

#[test]
fn producer_survives_a_failed_fetch() {
    let mut tracker = TurnTracker::new(5_000);
    let mut producer = Producer::new(bot("one"));
    assert!(matches!(producer.step(ProducerEvent::FetchFailed, &mut tracker), ProducerAction::Sleep));
    assert_eq!(producer.current_stage(), ProducerStage::Sleeping);
    assert!(matches!(producer.step(ProducerEvent::Woke, &mut tracker), ProducerAction::Fetch));
    let turn = enqueued(producer.step(ProducerEvent::Fetched(positions(&["first"])), &mut tracker));
    assert_eq!(turn.game_string, "first");
}

#[test]
fn producer_ends_when_the_queue_is_closed() {
    let mut tracker = TurnTracker::new(5_000);
    let mut producer = Producer::new(bot("one"));
    enqueued(producer.step(ProducerEvent::Fetched(positions(&["first", "second"])), &mut tracker));
    assert!(matches!(producer.step(ProducerEvent::QueueClosed, &mut tracker), ProducerAction::Stop));
    assert_eq!(producer.current_stage(), ProducerStage::Stopped);
    assert!(!tracker.is_tracked(calculate_hash("second")));
    assert!(matches!(producer.step(ProducerEvent::Woke, &mut tracker), ProducerAction::Idle));
    assert!(matches!(producer.step(ProducerEvent::Enqueued, &mut tracker), ProducerAction::Idle));
    assert!(matches!(producer.step(ProducerEvent::Fetched(positions(&["third"])), &mut tracker), ProducerAction::Idle));
    assert_eq!(producer.current_stage(), ProducerStage::Stopped);
    assert!(!tracker.is_tracked(calculate_hash("third")));
}

#[test]
fn producer_keeps_its_turn_until_the_queue_answers() {
    let mut tracker = TurnTracker::new(5_000);
    let mut producer = Producer::new(bot("one"));
    enqueued(producer.step(ProducerEvent::Fetched(positions(&["first", "second"])), &mut tracker));
    assert!(matches!(producer.step(ProducerEvent::Woke, &mut tracker), ProducerAction::Idle));
    assert!(matches!(producer.step(ProducerEvent::FetchFailed, &mut tracker), ProducerAction::Idle));
    assert!(matches!(producer.step(ProducerEvent::Fetched(positions(&["late"])), &mut tracker), ProducerAction::Idle));
    assert_eq!(producer.current_stage(), ProducerStage::Offering);
    assert!(!tracker.is_tracked(calculate_hash("second")));
    assert!(!tracker.is_tracked(calculate_hash("late")));
    let turn = enqueued(producer.step(ProducerEvent::Enqueued, &mut tracker));
    assert_eq!(turn.game_string, "second");
}

#[test]
fn producer_ignores_events_it_does_not_wait_for() {
    let mut tracker = TurnTracker::new(5_000);
    let mut producer = Producer::new(bot("one"));
    assert!(matches!(producer.step(ProducerEvent::Woke, &mut tracker), ProducerAction::Idle));
    assert!(matches!(producer.step(ProducerEvent::Enqueued, &mut tracker), ProducerAction::Idle));
    assert!(matches!(producer.step(ProducerEvent::QueueClosed, &mut tracker), ProducerAction::Idle));
    assert_eq!(producer.current_stage(), ProducerStage::Fetching);
    producer.step(ProducerEvent::FetchFailed, &mut tracker);
    assert!(matches!(producer.step(ProducerEvent::FetchFailed, &mut tracker), ProducerAction::Idle));
    assert!(matches!(producer.step(ProducerEvent::QueueClosed, &mut tracker), ProducerAction::Idle));
    assert_eq!(producer.current_stage(), ProducerStage::Sleeping);
}

#[test]
fn two_producers_reporting_one_position_enqueue_it_once() {
    let mut tracker = TurnTracker::new(5_000);
    let mut first = Producer::new(bot("one"));
    let mut second = Producer::new(bot("two"));
    let position = "Base;InProgress;White[3];wS1;bG1 -wS1";
    let turn = enqueued(first.step(ProducerEvent::Fetched(positions(&[position])), &mut tracker));
    assert_eq!(turn.bot.name, "one");
    assert_eq!(turn.game_string, position);
    assert!(tracker.is_tracked(calculate_hash(position)));
    let action = second.step(ProducerEvent::Fetched(positions(&[position])), &mut tracker);
    assert!(matches!(action, ProducerAction::Sleep));
    assert_eq!(second.current_stage(), ProducerStage::Sleeping);
    assert_eq!(tracker.status(calculate_hash(position)), Some(TurnStatus::InFlight));
}

#[test]
fn a_full_queue_holds_the_producer_back_without_losing_the_turn() {
    let mut tracker = TurnTracker::new(5_000);
    let mut producer = Producer::new(bot("one"));
    let (sender, mut receiver) = mpsc::channel::<GameTurn>(1);
    let first = enqueued(producer.step(ProducerEvent::Fetched(positions(&["first", "second", "third"])), &mut tracker));
    assert!(sender.try_send(first).is_ok());
    let second = enqueued(producer.step(ProducerEvent::Enqueued, &mut tracker));
    let held = match sender.try_send(second) {
        Err(TrySendError::Full(turn)) => turn,
        _ => panic!("the queue took more than it holds"),
    };
    assert_eq!(held.game_string, "second");
    assert_eq!(producer.current_stage(), ProducerStage::Offering);
    assert!(!tracker.is_tracked(calculate_hash("third")));
    assert_eq!(receiver.try_recv().unwrap().game_string, "first");
    assert!(sender.try_send(held).is_ok());
    let third = enqueued(producer.step(ProducerEvent::Enqueued, &mut tracker));
    assert_eq!(third.game_string, "third");
    assert_eq!(receiver.try_recv().unwrap().game_string, "second");
}
