//! The spawn/lifecycle scheduler: a self-tuning randomized interval timer
//! queues ship requests, the gap range narrowing over play time toward a
//! floor so spawn pressure rises without ever reaching zero gap.

use vstd::prelude::*;
use crate::kinds::{BoxType, box_demands, box_demands_spec};
use crate::rng::{RandomSpawnTimer, gen_range_u64, choose_box_type};

verus! {

/// The most outstanding, un-actioned ship requests at once; at the cap
/// the scheduler is suspended, not advanced.
pub const MAX_SPAWN_REQUESTS: usize = 5;

/// The floor the smallest spawn gap narrows toward, in milliseconds.
pub const SPAWN_GAP_FLOOR_MS: u64 = 8000;

/// The floor of the largest spawn gap, in milliseconds.
pub const SPAWN_CEILING_FLOOR_MS: u64 = 9000;

/// How much the smallest gap shrinks per scheduler check, in milliseconds.
pub const SPAWN_SPEED_UP_MS: u64 = 50;

/// How much the gap span shrinks per scheduler check, in milliseconds.
pub const SPAWN_SPAN_SHRINK_MS: u64 = 10;

/// How often the scheduler checks its timer, in milliseconds.
pub const QUEUE_CHECK_INTERVAL_MS: u64 = 1000;

/// A pending, player-visible ship request: the demands the ship would
/// carry and the deadline after which the request is discarded.
#[derive(Clone, Debug)]
pub struct SpawnShipRequest {
    pub demands: Vec<BoxType>,
    pub expiry_ms: u64,
}

/// The shape the queuing timer keeps: its smallest gap stays at or above
/// the floor, and its span stays wide enough that narrowing can never
/// empty the range.
pub open spec fn queue_timer_wf(t: RandomSpawnTimer) -> bool {
    &&& t.wf()
    &&& t.spawn_min_ms >= SPAWN_GAP_FLOOR_MS
    &&& 5 * (t.spawn_max_ms - t.spawn_min_ms)
        >= 5000 + (t.spawn_min_ms - SPAWN_GAP_FLOOR_MS)
}

/// Periodically queues a ship request. Once per check interval, unless
/// the cap of outstanding requests is reached (then nothing at all is
/// advanced), the gap range narrows toward its floors and the randomized
/// timer ticks; when it fires, a request with one to three demands drawn
/// from the demand pool is produced, expiring one minimum gap from now.
pub fn ship_queuing_system(
    timer: &mut RandomSpawnTimer,
    next_check_ms: &mut u64,
    n_outstanding: usize,
    now_ms: u64,
    rng: &mut rand::rngs::ThreadRng,
) -> (request: Option<SpawnShipRequest>)
    requires
        queue_timer_wf(*old(timer)),
        now_ms <= 0x1000_0000_0000,
    ensures
        queue_timer_wf(*final(timer)),
        (now_ms < *old(next_check_ms) || n_outstanding >= MAX_SPAWN_REQUESTS) ==> {
            &&& request is None
            &&& *final(timer) == *old(timer)
            &&& *final(next_check_ms) == *old(next_check_ms)
        },
        !(now_ms < *old(next_check_ms) || n_outstanding >= MAX_SPAWN_REQUESTS) ==> {
            &&& *final(next_check_ms) == now_ms + QUEUE_CHECK_INTERVAL_MS
            &&& final(timer).spawn_min_ms == if old(timer).spawn_min_ms - SPAWN_SPEED_UP_MS
                >= SPAWN_GAP_FLOOR_MS {
                (old(timer).spawn_min_ms - SPAWN_SPEED_UP_MS) as u64
            } else {
                SPAWN_GAP_FLOOR_MS
            }
            &&& final(timer).spawn_max_ms == {
                let shrunk = final(timer).spawn_min_ms + (old(timer).spawn_max_ms
                    - old(timer).spawn_min_ms) - SPAWN_SPAN_SHRINK_MS;
                if shrunk >= SPAWN_CEILING_FLOOR_MS {
                    shrunk as u64
                } else {
                    SPAWN_CEILING_FLOOR_MS
                }
            }
            &&& (request is Some <==> old(timer).next_spawn_ms < now_ms)
        },
        request matches Some(req) ==> {
            &&& 1 <= req.demands@.len() <= 3
            &&& forall|i: int|
                0 <= i < req.demands@.len() ==> box_demands_spec().contains(#[trigger] req.demands@[i])
            &&& req.expiry_ms == now_ms + final(timer).spawn_min_ms
        },
{
    if now_ms < *next_check_ms {
        return None;
    }
    if n_outstanding >= MAX_SPAWN_REQUESTS {
        return None;
    }
    *next_check_ms = now_ms + QUEUE_CHECK_INTERVAL_MS;

    // narrow the gap range toward its floors
    let span = timer.spawn_max_ms - timer.spawn_min_ms;
    let new_min = if timer.spawn_min_ms - SPAWN_SPEED_UP_MS >= SPAWN_GAP_FLOOR_MS {
        timer.spawn_min_ms - SPAWN_SPEED_UP_MS
    } else {
        SPAWN_GAP_FLOOR_MS
    };
    let candidate = new_min + span - SPAWN_SPAN_SHRINK_MS;
    let new_max = if candidate >= SPAWN_CEILING_FLOOR_MS {
        candidate
    } else {
        SPAWN_CEILING_FLOOR_MS
    };
    timer.spawn_min_ms = new_min;
    timer.spawn_max_ms = new_max;

    if !timer.tick(rng, now_ms) {
        return None;
    }

    let pool = box_demands();
    let n = gen_range_u64(rng, 1, 4);
    let mut demands: Vec<BoxType> = Vec::new();
    let mut i: u64 = 0;
    #[verifier::loop_isolation(false)]
    while i < n
        invariant
            0 <= i <= n,
            demands@.len() == i,
            pool@ == box_demands_spec(),
            forall|j: int|
                0 <= j < demands@.len() ==> box_demands_spec().contains(#[trigger] demands@[j]),
        decreases n - i,
    {
        let drawn = match choose_box_type(rng, &pool) {
            Some(k) => k,
            None => {
                proof {
                    assert(false);
                }
                BoxType::Apples
            },
        };
        demands.push(drawn);
        i = i + 1;
    }

    Some(SpawnShipRequest { demands, expiry_ms: now_ms + timer.spawn_min_ms })
}

/// The requests still alive at `now_ms`, in order.
pub open spec fn keep_unexpired(s: Seq<SpawnShipRequest>, now_ms: u64) -> Seq<SpawnShipRequest>
    decreases s.len(),
{
    if s.len() == 0 {
        s
    } else if s[0].expiry_ms > now_ms {
        seq![s[0]] + keep_unexpired(s.drop_first(), now_ms)
    } else {
        keep_unexpired(s.drop_first(), now_ms)
    }
}

/// Discards every request whose deadline has passed; an expired request
/// is dropped with no penalty. The survivors keep their order.
pub fn ship_request_expiry_system(requests: &mut Vec<SpawnShipRequest>, now_ms: u64)
    ensures
        final(requests)@ == keep_unexpired(old(requests)@, now_ms),
{
    let ghost orig = requests@;
    let mut kept: Vec<SpawnShipRequest> = Vec::new();
    proof {
        assert(kept@ + keep_unexpired(orig, now_ms) =~= keep_unexpired(orig, now_ms));
    }
    #[verifier::loop_isolation(false)]
    while requests.len() > 0
        invariant
            keep_unexpired(orig, now_ms) == kept@ + keep_unexpired(requests@, now_ms),
        decreases requests@.len(),
    {
        let r = requests.remove(0);
        let ghost rest = requests@;
        if r.expiry_ms > now_ms {
            kept.push(r);
            proof {
                assert(kept@ + keep_unexpired(rest, now_ms)
                    =~= (kept@.drop_last() + (seq![r] + keep_unexpired(rest, now_ms))));
            }
        }
    }
    proof {
        assert(kept@ + keep_unexpired(requests@, now_ms) =~= kept@);
    }
    *requests = kept;
}

} // verus!
