//! Fingerprints of serialized positions.

use std::collections::hash_map::DefaultHasher;
use std::hash::Hash;
use vstd::prelude::*;
use vstd::std_specs::hash::DefaultHasherAdditionalSpecFns;

verus! {

/// The run of writes that `<str as Hash>::hash` makes to a hasher for a
/// string of the given content.
pub uninterp spec fn str_hash_writes(text: Seq<char>) -> Seq<Seq<u8>>;

/// The fingerprint of a serialized position: the digest of a fresh default
/// hasher that was fed the position and nothing else.
pub open spec fn fingerprint_of(text: Seq<char>) -> u64 {
    DefaultHasher::spec_finish(str_hash_writes(text))
}

/// Calls `<str as Hash>::hash` on a `DefaultHasher`. Trusted: the call adds
/// to the hasher a run of writes that depends on the content of `text`
/// alone, and leaves what was written before in place.
#[verifier::external_body]
fn feed_str(state: &mut DefaultHasher, text: &str)
    ensures
        final(state)@ == old(state)@ + str_hash_writes(text@),
{
    text.hash(state)
}

/// Computes the fingerprint under which a position is tracked.
pub fn calculate_hash(game_string: &str) -> (hash: u64)
    ensures
        hash == fingerprint_of(game_string@),
{
    let mut hasher = DefaultHasher::new();
    feed_str(&mut hasher, game_string);
    assert(hasher@ =~= str_hash_writes(game_string@));
    std::hash::Hasher::finish(&hasher)
}

} // verus!
