//! The scoring engine: one running score, mutated additively by delivery
//! outcomes and ship launches, with game-over detection.

use vstd::prelude::*;
use crate::events::{OnCoinsReceived, OnDropCrateOnShip};
use crate::hold::{ShipHold, unmet_demands_spec};

verus! {

/// Coins gained when a delivered crate was still demanded.
pub const CRATE_REWARD: i64 = 10;

/// Coins lost when a delivered crate was not demanded.
pub const CRATE_PENALTY: i64 = 5;

/// Coins lost per unmet demand when a ship is launched.
pub const UNMET_DEMAND_PENALTY: i64 = 40;

/// Scores further than this from zero are outside the game's working
/// range; the mutating operations ask callers to stay inside it so that
/// the arithmetic cannot overflow.
pub const SCORE_RANGE: i64 = 0x1000_0000_0000;

/// The running score of one playthrough, created at zero.
#[derive(Clone, Copy, Debug, PartialEq, Eq, Structural)]
pub struct Score(pub i64);

impl Score {
    pub open spec fn in_range(self) -> bool {
        -SCORE_RANGE <= self.0 <= SCORE_RANGE
    }
}

impl Default for Score {
    /// A fresh playthrough starts at zero.
    fn default() -> (s: Score)
        ensures
            s.0 == 0,
    {
        Score(0)
    }
}

/// What one delivery outcome adds to the score.
pub open spec fn delivery_delta(e: OnDropCrateOnShip) -> int {
    if e.was_demanded {
        CRATE_REWARD as int
    } else {
        -(CRATE_PENALTY as int)
    }
}

/// What a batch of delivery outcomes adds to the score, in order.
pub open spec fn deliveries_delta(s: Seq<OnDropCrateOnShip>) -> int
    decreases s.len(),
{
    if s.len() == 0 {
        0
    } else {
        delivery_delta(s[0]) + deliveries_delta(s.drop_first())
    }
}

/// How many of the batch were demanded deliveries.
pub open spec fn count_demanded(s: Seq<OnDropCrateOnShip>) -> int
    decreases s.len(),
{
    if s.len() == 0 {
        0
    } else {
        (if s[0].was_demanded { 1 as int } else { 0 as int }) + count_demanded(s.drop_first())
    }
}

/// Each batch delta is small: at most the reward per event either way.
proof fn lemma_deliveries_delta_bound(s: Seq<OnDropCrateOnShip>)
    ensures
        -(CRATE_REWARD as int) * s.len() <= deliveries_delta(s) <= (CRATE_REWARD as int) * s.len(),
    decreases s.len(),
{
    if s.len() > 0 {
        lemma_deliveries_delta_bound(s.drop_first());
    }
}

/// Applies a frame's delivery outcomes to the score: a reward for each
/// demanded crate, a penalty for each undemanded one. A coin cue is
/// emitted per rewarded delivery, and the game-over check runs once, after
/// the batch.
pub fn score_update(score: &mut Score, deliveries: &Vec<OnDropCrateOnShip>) -> (r: (Vec<
    OnCoinsReceived,
>, bool))
    requires
        old(score).in_range(),
        deliveries@.len() <= 0x1000_0000,
    ensures
        final(score).0 == old(score).0 + deliveries_delta(deliveries@),
        r.0@.len() == count_demanded(deliveries@),
        r.1 == (final(score).0 < 0),
{
    let ghost all = deliveries@;
    let mut coins: Vec<OnCoinsReceived> = Vec::new();
    let mut i: usize = 0;
    #[verifier::loop_isolation(false)]
    while i < deliveries.len()
        invariant
            0 <= i <= deliveries@.len(),
            score.0 == old(score).0 + deliveries_delta(all.take(i as int)),
            coins@.len() == count_demanded(all.take(i as int)),
            -SCORE_RANGE - (CRATE_REWARD as int) * (i as int) <= score.0,
            score.0 <= SCORE_RANGE + (CRATE_REWARD as int) * (i as int),
        decreases deliveries@.len() - i,
    {
        proof {
            lemma_batch_take_step(all, i as int);
        }
        let evt = deliveries[i];
        let amt: i64 = if evt.was_demanded {
            coins.push(OnCoinsReceived);
            CRATE_REWARD
        } else {
            -CRATE_PENALTY
        };
        score.0 = score.0 + amt;
        i = i + 1;
    }
    proof {
        assert(all.take(i as int) =~= all);
    }
    let game_over = score.0 < 0;
    (coins, game_over)
}

/// One step of the batch fold: the delta and demand count of a prefix
/// grow by exactly the next event's contribution.
proof fn lemma_batch_take_step(s: Seq<OnDropCrateOnShip>, i: int)
    requires
        0 <= i < s.len(),
    ensures
        deliveries_delta(s.take(i + 1)) == deliveries_delta(s.take(i)) + delivery_delta(s[i]),
        count_demanded(s.take(i + 1)) == count_demanded(s.take(i))
            + if s[i].was_demanded { 1 as int } else { 0 as int },
    decreases i,
{
    if i == 0 {
        assert(s.take(1) =~= seq![s[0]]);
        assert(s.take(1).drop_first() =~= Seq::<OnDropCrateOnShip>::empty());
        assert(s.take(0) =~= Seq::<OnDropCrateOnShip>::empty());
    } else {
        lemma_batch_take_step(s.drop_first(), i - 1);
        assert(s.take(i + 1).drop_first() =~= s.drop_first().take(i));
        assert(s.take(i).drop_first() =~= s.drop_first().take(i - 1));
        assert(s.take(i + 1)[0] == s[0]);
        assert(s.take(i)[0] == s[0]);
        assert(s.drop_first()[i - 1] == s[i]);
    }
}

/// The launch penalty for a hold: the number of unmet demands times the
/// departure penalty.
pub open spec fn launch_penalty(hold: ShipHold) -> int {
    (UNMET_DEMAND_PENALTY as int) * unmet_demands_spec(hold.demands@, hold.crates@).len()
}

/// Applies the departure penalty for a launched ship: its count of unmet
/// demands times the fixed penalty, deducted exactly once, at launch. The
/// game-over check runs once, after the deduction.
pub fn penalise_unmet_demands(score: &mut Score, hold: &ShipHold) -> (r: (i64, bool))
    requires
        old(score).in_range(),
        hold.demands@.len() <= 1000,
    ensures
        final(score).0 == old(score).0 - launch_penalty(*hold),
        r.0 == launch_penalty(*hold),
        r.1 == (final(score).0 < 0),
{
    let unmet = hold.get_unmet_demands();
    proof {
        lemma_unmet_len_bound(hold.demands@, hold.crates@);
    }
    let penalty = (unmet.len() as i64) * UNMET_DEMAND_PENALTY;
    score.0 = score.0 - penalty;
    (penalty, score.0 < 0)
}

/// Unmet demands are never more numerous than the demands themselves.
pub proof fn lemma_unmet_len_bound(demands: Seq<crate::kinds::BoxType>, crates: Seq<crate::kinds::BoxType>)
    ensures
        unmet_demands_spec(demands, crates).len() <= demands.len(),
    decreases crates.len(),
{
    if crates.len() > 0 {
        crate::hold::lemma_remove_first_len(demands, crates[0]);
        lemma_unmet_len_bound(crate::hold::remove_first(demands, crates[0]), crates.drop_first());
    }
}

} // verus!
