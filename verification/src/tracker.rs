//! The store that remembers which turns are in flight or lately completed.

use std::collections::HashMap;
use vstd::std_specs::iter::IteratorSpec;
use vstd::prelude::*;

verus! {

/// What the tracker knows of a fingerprint that it holds. A fingerprint
/// that it does not hold is unseen.
#[derive(Clone, Copy, Debug, PartialEq, Eq, Structural)]
pub enum TurnStatus {
    /// Enqueued or being processed.
    InFlight,
    /// Processed at the given time, in milliseconds.
    Completed { at: u64 },
}

/// The time that has passed at `now` since `at`; zero where the clock
/// reads earlier than `at`.
pub open spec fn age(at: u64, now: u64) -> nat {
    if now >= at {
        (now - at) as nat
    } else {
        0
    }
}

/// Whether an entry is due for removal at `now`: it is completed and older
/// than the retention window.
pub open spec fn expired(status: TurnStatus, now: u64, retention: u64) -> bool {
    match status {
        TurnStatus::InFlight => false,
        TurnStatus::Completed { at } => age(at, now) > retention,
    }
}

/// The entries after a fingerprint has been marked in flight.
pub open spec fn marked_in_flight(entries: Map<u64, TurnStatus>, hash: u64) -> Map<
    u64,
    TurnStatus,
> {
    entries.insert(hash, TurnStatus::InFlight)
}

/// The entries after a fingerprint has been marked completed at `now`.
pub open spec fn marked_completed(entries: Map<u64, TurnStatus>, hash: u64, now: u64) -> Map<
    u64,
    TurnStatus,
> {
    entries.insert(hash, TurnStatus::Completed { at: now })
}

/// The entries that a cleanup at `now` leaves: all but the expired ones.
pub open spec fn cleaned(entries: Map<u64, TurnStatus>, now: u64, retention: u64) -> Map<
    u64,
    TurnStatus,
> {
    Map::new(
        |hash: u64| entries.contains_key(hash) && !expired(entries[hash], now, retention),
        |hash: u64| entries[hash],
    )
}

/// The entries after a claim of a fingerprint: marked in flight if it was
/// unseen, else as they were.
pub open spec fn claimed_by(entries: Map<u64, TurnStatus>, hash: u64) -> Map<u64, TurnStatus> {
    if entries.contains_key(hash) {
        entries
    } else {
        marked_in_flight(entries, hash)
    }
}

/// Deduplication store keyed by turn fingerprint. Its view is the map from
/// each fingerprint it holds to that fingerprint's status.
pub struct TurnTracker {
    entries: HashMap<u64, TurnStatus>,
    retention: u64,
}

impl View for TurnTracker {
    type V = Map<u64, TurnStatus>;

    closed spec fn view(&self) -> Map<u64, TurnStatus> {
        self.entries@
    }
}

impl TurnTracker {
    /// The retention window in milliseconds.
    pub closed spec fn retention_window(&self) -> u64 {
        self.retention
    }

    /// An empty tracker that keeps completed entries for `retention`
    /// milliseconds.
    pub fn new(retention: u64) -> (tracker: TurnTracker)
        ensures
            tracker@ == Map::<u64, TurnStatus>::empty(),
            tracker.retention_window() == retention,
    {
        TurnTracker { entries: HashMap::new(), retention }
    }

    /// The retention window in milliseconds.
    pub fn retention(&self) -> (window: u64)
        ensures
            window == self.retention_window(),
    {
        self.retention
    }

    /// Whether the fingerprint is in flight or completed.
    pub fn is_tracked(&self, hash: u64) -> (known: bool)
        ensures
            known == self@.contains_key(hash),
    {
        self.entries.contains_key(&hash)
    }

    /// The status of a fingerprint, if the tracker holds it.
    pub fn status(&self, hash: u64) -> (found: Option<TurnStatus>)
        ensures
            found == (if self@.contains_key(hash) {
                Some(self@[hash])
            } else {
                None
            }),
    {
        match self.entries.get(&hash) {
            Some(status) => Some(*status),
            None => None,
        }
    }

    /// Marks a fingerprint in flight, whatever was known of it.
    pub fn mark_in_flight(&mut self, hash: u64)
        ensures
            final(self)@ == marked_in_flight(old(self)@, hash),
            final(self).retention_window() == old(self).retention_window(),
    {
        self.entries.insert(hash, TurnStatus::InFlight);
    }

    /// Marks a fingerprint completed at `now`, whatever was known of it.
    pub fn mark_completed(&mut self, hash: u64, now: u64)
        ensures
            final(self)@ == marked_completed(old(self)@, hash, now),
            final(self).retention_window() == old(self).retention_window(),
    {
        self.entries.insert(hash, TurnStatus::Completed { at: now });
    }

    /// Marks a fingerprint in flight if the tracker does not hold it, and
    /// says whether it did: the check and the mark in one step.
    pub fn claim(&mut self, hash: u64) -> (claimed: bool)
        ensures
            claimed == !old(self)@.contains_key(hash),
            final(self)@ == claimed_by(old(self)@, hash),
            final(self).retention_window() == old(self).retention_window(),
    {
        if self.is_tracked(hash) {
            false
        } else {
            self.mark_in_flight(hash);
            true
        }
    }

    /// Removes every completed entry that at `now` is older than the
    /// retention window. Entries in flight stay.
    pub fn cleanup(&mut self, now: u64)
        ensures
            final(self)@ == cleaned(old(self)@, now, old(self).retention_window()),
            final(self).retention_window() == old(self).retention_window(),
    {
        let keys = self.hashes();
        let mut i: usize = 0;
        while i < keys.len()
            invariant
                i <= keys.len(),
                keys@.to_set() == old(self)@.dom(),
                self.retention == old(self).retention,
                forall|hash: u64|
                    self@.contains_key(hash) <==> old(self)@.contains_key(hash) && !(keys@.take(
                        i as int,
                    ).contains(hash) && expired(old(self)@[hash], now, self.retention)),
                forall|hash: u64| self@.contains_key(hash) ==> self@[hash] == old(self)@[hash],
            decreases keys.len() - i,
        {
            let hash = keys[i];
            assert(keys@.to_set().contains(hash));
            proof {
                let before = keys@.take(i as int);
                let after = keys@.take(i + 1);
                assert forall|other: u64|
                    after.contains(other) <==> (before.contains(other) || other == hash) by {
                    if before.contains(other) {
                        let j = choose|j: int| 0 <= j < before.len() && before[j] == other;
                        assert(after[j] == other);
                    }
                    if other == hash {
                        assert(after[i as int] == other);
                    }
                    if after.contains(other) {
                        let j = choose|j: int| 0 <= j < after.len() && after[j] == other;
                        if j < i {
                            assert(before[j] == other);
                        }
                    }
                }
            }
            if self.is_due(hash, now) {
                self.entries.remove(&hash);
            }
            i += 1;
        }
        assert(keys@.take(i as int) =~= keys@);
        assert(self@ =~= cleaned(old(self)@, now, old(self).retention_window()));
    }

    fn is_due(&self, hash: u64, now: u64) -> (due: bool)
        ensures
            due == (self@.contains_key(hash) && expired(self@[hash], now, self.retention)),
    {
        match self.entries.get(&hash) {
            Some(TurnStatus::Completed { at }) => now >= *at && now - *at > self.retention,
            _ => false,
        }
    }

    fn hashes(&self) -> (keys: Vec<u64>)
        ensures
            keys@.to_set() == self@.dom(),
    {
        let mut keys: Vec<u64> = Vec::new();
        for hash in iter: self.entries.keys()
            invariant
                keys@.len() == iter.index(),
                forall|i: int| 0 <= i < keys@.len() ==> keys@[i] == *iter.seq()[i],
                iter.seq() == self.entries.keys().remaining(),
        {
            keys.push(*hash);
        }
        assert(keys@ =~= self.entries.keys().remaining().unref());
        keys
    }
}

/// One operation on a tracker, as the laws below speak of it.
pub enum TrackerOp {
    /// A producer's claim of a fingerprint.
    Claim(u64),
    /// An unconditional mark in flight.
    MarkInFlight(u64),
    /// A mark completed at the given time.
    MarkCompleted { hash: u64, now: u64 },
    /// A cleanup at the given time.
    Cleanup { now: u64 },
}

/// The entries after one operation on a tracker with the given window.
pub open spec fn applied(entries: Map<u64, TurnStatus>, op: TrackerOp, retention: u64) -> Map<
    u64,
    TurnStatus,
> {
    match op {
        TrackerOp::Claim(hash) => claimed_by(entries, hash),
        TrackerOp::MarkInFlight(hash) => marked_in_flight(entries, hash),
        TrackerOp::MarkCompleted { hash, now } => marked_completed(entries, hash, now),
        TrackerOp::Cleanup { now } => cleaned(entries, now, retention),
    }
}

/// The entries after a run of operations, first to last.
pub open spec fn applied_all(
    entries: Map<u64, TurnStatus>,
    ops: Seq<TrackerOp>,
    retention: u64,
) -> Map<u64, TurnStatus>
    decreases ops.len(),
{
    if ops.len() == 0 {
        entries
    } else {
        applied_all(applied(entries, ops[0], retention), ops.drop_first(), retention)
    }
}

/// Whether the operation marks `hash` completed.
pub open spec fn completes_hash(op: TrackerOp, hash: u64) -> bool {
    op matches TrackerOp::MarkCompleted { hash: marked, .. } && marked == hash
}

/// A fingerprint in flight stays in flight through every run of operations
/// that does not mark it completed, at whatever times cleanups are made:
/// until then a claim of it fails and changes nothing, so no second turn is
/// enqueued for it.
pub proof fn lemma_in_flight_until_completed(
    entries: Map<u64, TurnStatus>,
    hash: u64,
    ops: Seq<TrackerOp>,
    retention: u64,
)
    requires
        entries.contains_key(hash),
        entries[hash] == TurnStatus::InFlight,
        forall|i: int| 0 <= i < ops.len() ==> !completes_hash(#[trigger] ops[i], hash),
    ensures
        applied_all(entries, ops, retention).contains_key(hash),
        applied_all(entries, ops, retention)[hash] == TurnStatus::InFlight,
        claimed_by(applied_all(entries, ops, retention), hash) == applied_all(
            entries,
            ops,
            retention,
        ),
    decreases ops.len(),
{
    if ops.len() > 0 {
        let rest = ops.drop_first();
        assert(!completes_hash(ops[0], hash));
        assert forall|i: int| 0 <= i < rest.len() implies !completes_hash(
            #[trigger] rest[i],
            hash,
        ) by {
            assert(rest[i] == ops[i + 1]);
        }
        lemma_in_flight_until_completed(applied(entries, ops[0], retention), hash, rest, retention);
    }
}

/// What a cleanup does to each fingerprint: an entry in flight stays; a
/// completed entry stays while its age is within the retention window and
/// leaves once its age exceeds it; and nothing is added.
pub proof fn lemma_cleanup_by_age(
    entries: Map<u64, TurnStatus>,
    hash: u64,
    now: u64,
    retention: u64,
)
    ensures
        !entries.contains_key(hash) ==> !cleaned(entries, now, retention).contains_key(hash),
        entries.contains_key(hash) ==> match entries[hash] {
            TurnStatus::InFlight => {
                &&& cleaned(entries, now, retention).contains_key(hash)
                &&& cleaned(entries, now, retention)[hash] == TurnStatus::InFlight
            },
            TurnStatus::Completed { at } => if age(at, now) > retention {
                !cleaned(entries, now, retention).contains_key(hash)
            } else {
                &&& cleaned(entries, now, retention).contains_key(hash)
                &&& cleaned(entries, now, retention)[hash] == entries[hash]
            },
        },
{
}

/// A fingerprint that was marked completed can be claimed again after a
/// cleanup made later than the retention window, and not after one made
/// within it.
pub proof fn lemma_completed_returns_after_window(
    entries: Map<u64, TurnStatus>,
    hash: u64,
    at: u64,
    now: u64,
    retention: u64,
)
    ensures
        ({
            let swept = cleaned(marked_completed(entries, hash, at), now, retention);
            swept.contains_key(hash) <==> age(at, now) <= retention
        }),
{
}

} // verus!
