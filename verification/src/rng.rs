//! Randomness for the simulation: trusted handles into the `rand` crate
//! and the randomized spawn-gap timer.
//!
//! Every random draw goes through one of the wrappers below; the logic
//! that consumes a draw is verified for every value the wrapper's
//! contract allows.

use vstd::prelude::*;
use crate::kinds::BoxType;

verus! {

/// rand's thread-local generator, declared opaquely so that values of it
/// can flow through the library's signatures.
#[verifier::external_type_specification]
#[verifier::external_body]
pub struct ExThreadRng(rand::rngs::ThreadRng);

/// Relies on rand::thread_rng: hands out the thread-local generator.
#[verifier::external_body]
pub(crate) fn new_rng() -> rand::rngs::ThreadRng {
    rand::thread_rng()
}

/// Relies on rand::Rng::gen_range over a half-open integer range: the
/// result lies in `[lo, hi)`. The call panics on an empty range, which
/// the precondition rules out.
#[verifier::external_body]
pub(crate) fn gen_range_u64(rng: &mut rand::rngs::ThreadRng, lo: u64, hi: u64) -> (r: u64)
    requires
        lo < hi,
    ensures
        lo <= r < hi,
{
    rand::Rng::gen_range(rng, lo..hi)
}

/// Relies on rand::Rng::gen_range over a half-open integer range: the
/// result lies in `[lo, hi)`. The call panics on an empty range, which
/// the precondition rules out.
#[verifier::external_body]
pub(crate) fn gen_range_i64(rng: &mut rand::rngs::ThreadRng, lo: i64, hi: i64) -> (r: i64)
    requires
        lo < hi,
    ensures
        lo <= r < hi,
{
    rand::Rng::gen_range(rng, lo..hi)
}

/// Relies on rand::seq::SliceRandom::choose: `None` exactly on an empty
/// slice, otherwise one of the slice's elements.
#[verifier::external_body]
pub(crate) fn choose_box_type(rng: &mut rand::rngs::ThreadRng, pool: &Vec<BoxType>) -> (r: Option<BoxType>)
    ensures
        r is Some <==> pool@.len() > 0,
        r matches Some(k) ==> pool@.contains(k),
{
    rand::seq::SliceRandom::choose(pool.as_slice(), rng).copied()
}

/// A randomized interval timer: when the deadline has passed, it fires
/// and draws the next deadline a uniform gap into the future.
///
/// Times are in simulated milliseconds.
pub struct RandomSpawnTimer {
    /// Smallest gap (inclusive) between two firings.
    pub spawn_min_ms: u64,
    /// Largest gap (exclusive) between two firings.
    pub spawn_max_ms: u64,
    /// The next moment at which the timer fires.
    pub next_spawn_ms: u64,
}

impl RandomSpawnTimer {
    /// The gap range is non-empty and small enough that deadlines never
    /// overflow the clock.
    pub open spec fn wf(self) -> bool {
        0 < self.spawn_min_ms < self.spawn_max_ms <= 0x1000_0000
    }

    /// Fires when the deadline has passed, drawing the next deadline
    /// between `spawn_min_ms` and `spawn_max_ms` after the current time.
    pub fn tick(&mut self, rng: &mut rand::rngs::ThreadRng, current_time_ms: u64) -> (fired: bool)
        requires
            old(self).wf(),
            current_time_ms <= 0x1000_0000_0000,
        ensures
            final(self).wf(),
            final(self).spawn_min_ms == old(self).spawn_min_ms,
            final(self).spawn_max_ms == old(self).spawn_max_ms,
            fired == (old(self).next_spawn_ms < current_time_ms),
            fired ==> current_time_ms + final(self).spawn_min_ms <= final(self).next_spawn_ms
                < current_time_ms + final(self).spawn_max_ms,
            !fired ==> final(self).next_spawn_ms == old(self).next_spawn_ms,
    {
        if self.next_spawn_ms < current_time_ms {
            let gap = gen_range_u64(rng, self.spawn_min_ms, self.spawn_max_ms);
            self.next_spawn_ms = current_time_ms + gap;
            true
        } else {
            false
        }
    }
}

impl Default for RandomSpawnTimer {
    /// Starts with a 15 to 20 second gap and a first deadline 5 seconds in.
    fn default() -> (t: Self)
        ensures
            t.wf(),
            t.spawn_min_ms == 15000,
            t.spawn_max_ms == 20000,
            t.next_spawn_ms == 5000,
    {
        RandomSpawnTimer { spawn_min_ms: 15000, spawn_max_ms: 20000, next_spawn_ms: 5000 }
    }
}

} // verus!
