//! Launching ships: the slot empties immediately, the departure penalty
//! is applied exactly once, and the ship's demand markers are torn down
//! at launch — even when the launch command arrives twice in one frame.

use vstd::prelude::*;
use crate::events::OnLaunchShip;
use crate::hold::ShipHold;
use crate::score::{Score, launch_penalty, penalise_unmet_demands};
use crate::slots::{ShipSlots, ShipSlotType};

verus! {

/// One ship in the world: its identity, its hold, whether it is sailing
/// away, and whether its demand-marker visuals are still attached.
#[derive(Clone, Debug)]
pub struct ShipRecord {
    pub id: u64,
    pub hold: ShipHold,
    /// Set at launch; a departing ship despawns when its travel ends.
    pub departing: bool,
    /// Demand markers are attached from spawn and torn down exactly
    /// once, at launch.
    pub demand_markers: bool,
}

/// The part of the game state a launch command touches.
pub struct LaunchModel {
    pub slots: Seq<ShipSlotType>,
    pub ships: Seq<ShipRecord>,
    pub score: int,
}

/// The first ship record carrying this identity, if any.
pub open spec fn find_ship(ships: Seq<ShipRecord>, id: u64) -> Option<int>
    decreases ships.len(),
{
    if ships.len() == 0 {
        None
    } else if ships[0].id == id {
        Some(0)
    } else {
        match find_ship(ships.drop_first(), id) {
            Some(k) => Some(k + 1),
            None => None,
        }
    }
}

/// What one launch command does: nothing unless the slot holds a docked
/// ship; otherwise the slot empties immediately, and if the ship is known
/// it starts departing, loses its demand markers, and pays the departure
/// penalty for its unmet demands.
pub open spec fn launch_step(m: LaunchModel, slot_id: int) -> LaunchModel {
    if 0 <= slot_id < m.slots.len() && m.slots[slot_id] is Occupied {
        let ship = m.slots[slot_id]->Occupied_0;
        let freed = m.slots.update(slot_id, ShipSlotType::Empty);
        match find_ship(m.ships, ship) {
            Some(k) => LaunchModel {
                slots: freed,
                ships: m.ships.update(
                    k,
                    ShipRecord { departing: true, demand_markers: false, ..m.ships[k] },
                ),
                score: m.score - launch_penalty(m.ships[k].hold),
            },
            None => LaunchModel { slots: freed, ..m },
        }
    } else {
        m
    }
}

/// A batch of launch commands, applied in order.
pub open spec fn launch_steps(m: LaunchModel, slot_ids: Seq<int>) -> LaunchModel
    decreases slot_ids.len(),
{
    if slot_ids.len() == 0 {
        m
    } else {
        launch_steps(launch_step(m, slot_ids[0]), slot_ids.drop_first())
    }
}

/// Scoring idempotence boundary: a second launch command for the same
/// slot is a no-op — the slot is already empty — so the unmet-demand
/// penalty is applied exactly once however often the command fires.
pub proof fn lemma_launch_idempotent(m: LaunchModel, slot_id: int)
    ensures
        launch_step(launch_step(m, slot_id), slot_id) == launch_step(m, slot_id),
{
    if 0 <= slot_id < m.slots.len() && m.slots[slot_id] is Occupied {
        assert(launch_step(m, slot_id).slots[slot_id] is Empty);
    }
}

/// Does the batch so far already hold this slot?
fn contains_slot(v: &Vec<usize>, x: usize) -> (r: bool)
    ensures
        r == v@.contains(x),
{
    let mut i: usize = 0;
    #[verifier::loop_isolation(false)]
    while i < v.len()
        invariant
            0 <= i <= v@.len(),
            forall|j: int| 0 <= j < i ==> v@[j] != x,
        decreases v@.len() - i,
    {
        if v[i] == x {
            return true;
        }
        i = i + 1;
    }
    false
}

/// The first record with this identity, scanned in order.
pub fn find_ship_index(ships: &Vec<ShipRecord>, id: u64) -> (r: Option<usize>)
    ensures
        r matches Some(k) ==> k < ships@.len() && find_ship(ships@, id) == Some(k as int),
        r is None ==> find_ship(ships@, id) is None,
{
    let mut i: usize = 0;
    #[verifier::loop_isolation(false)]
    while i < ships.len()
        invariant
            0 <= i <= ships@.len(),
            forall|j: int| 0 <= j < i ==> ships@[j].id != id,
        decreases ships@.len() - i,
    {
        if ships[i].id == id {
            proof {
                lemma_find_ship_found(ships@, id, i as int);
            }
            return Some(i);
        }
        i = i + 1;
    }
    proof {
        lemma_find_ship_missing(ships@, id);
    }
    None
}

/// Finding a record at `i` after a clean prefix pins the spec's answer.
pub(crate) proof fn lemma_find_ship_found(ships: Seq<ShipRecord>, id: u64, i: int)
    requires
        0 <= i < ships.len(),
        ships[i].id == id,
        forall|j: int| 0 <= j < i ==> ships[j].id != id,
    ensures
        find_ship(ships, id) == Some(i),
    decreases i,
{
    if i > 0 {
        lemma_find_ship_found(ships.drop_first(), id, i - 1);
    }
}

/// When every record misses, the spec finds none.
proof fn lemma_find_ship_missing(ships: Seq<ShipRecord>, id: u64)
    requires
        forall|j: int| 0 <= j < ships.len() ==> ships[j].id != id,
    ensures
        find_ship(ships, id) is None,
    decreases ships.len(),
{
    if ships.len() > 0 {
        lemma_find_ship_missing(ships.drop_first(), id);
    }
}

/// What the scan's answer means: the found index is in range and carries
/// the identity.
pub proof fn lemma_find_ship_id(ships: Seq<ShipRecord>, id: u64)
    ensures
        find_ship(ships, id) matches Some(k) ==> 0 <= k < ships.len() && ships[k].id == id,
    decreases ships.len(),
{
    if ships.len() > 0 {
        lemma_find_ship_id(ships.drop_first(), id);
    }
}

/// A found index comes after a clean prefix: no earlier record carries
/// the identity.
pub proof fn lemma_find_ship_first(ships: Seq<ShipRecord>, id: u64)
    ensures
        find_ship(ships, id) matches Some(j) ==> forall|m: int| 0 <= m < j ==> ships[m].id != id,
    decreases ships.len(),
{
    if ships.len() > 0 {
        lemma_find_ship_first(ships.drop_first(), id);
        lemma_find_ship_id(ships, id);
        if ships[0].id != id && find_ship(ships.drop_first(), id) is Some {
            let j = find_ship(ships, id).unwrap();
            assert forall|m: int| 0 <= m < j implies ships[m].id != id by {
                if m > 0 {
                    assert(ships[m] == ships.drop_first()[m - 1]);
                    assert(ships.drop_first()[m - 1].id != id);
                }
            }
        }
    }
}

/// The scan depends only on the identities: two registries with the same
/// identities in the same order give the same answer.
pub proof fn lemma_find_ship_ids_equal(s1: Seq<ShipRecord>, s2: Seq<ShipRecord>, id: u64)
    requires
        s1.len() == s2.len(),
        forall|i: int| 0 <= i < s1.len() ==> (#[trigger] s1[i]).id == s2[i].id,
    ensures
        find_ship(s1, id) == find_ship(s2, id),
    decreases s1.len(),
{
    if s1.len() > 0 {
        assert forall|i: int| 0 <= i < s1.drop_first().len() implies (
        #[trigger] s1.drop_first()[i]).id == s2.drop_first()[i].id by {
            assert(s1.drop_first()[i] == s1[i + 1]);
            assert(s2.drop_first()[i] == s2[i + 1]);
        }
        lemma_find_ship_ids_equal(s1.drop_first(), s2.drop_first(), id);
    }
}

/// Appending a record never loses an already-found one.
pub proof fn lemma_find_ship_push_keeps(s: Seq<ShipRecord>, r: ShipRecord, id: u64)
    requires
        find_ship(s, id) is Some,
    ensures
        find_ship(s.push(r), id) == find_ship(s, id),
    decreases s.len(),
{
    lemma_find_ship_id(s, id);
    let j = find_ship(s, id).unwrap();
    lemma_find_ship_first(s, id);
    assert(s.push(r)[j] == s[j]);
    assert forall|m: int| 0 <= m < j implies s.push(r)[m].id != id by {
        assert(s.push(r)[m] == s[m]);
    }
    lemma_find_ship_found(s.push(r), id, j);
}

/// Removing a different record never loses a found one.
pub proof fn lemma_find_ship_remove_keeps(s: Seq<ShipRecord>, k: int, id: u64)
    requires
        0 <= k < s.len(),
        find_ship(s, id) matches Some(j) && j != k,
    ensures
        find_ship(s.remove(k), id) is Some,
{
    lemma_find_ship_id(s, id);
    lemma_find_ship_first(s, id);
    let j = find_ship(s, id).unwrap();
    let r = s.remove(k);
    let j2: int = if j < k {
        j
    } else {
        j - 1
    };
    assert(r[j2] == s[j]);
    assert forall|m: int| 0 <= m < j2 implies r[m].id != id by {
        if m < k {
            assert(r[m] == s[m]);
        } else {
            assert(r[m] == s[m + 1]);
        }
    }
    lemma_find_ship_found(r, id, j2);
}

/// Is some slot in the list associated with this ship?
pub open spec fn seq_holds_ship(slots: Seq<ShipSlotType>, ship: u64) -> bool {
    exists|i: int| 0 <= i < slots.len() && (#[trigger] slots[i]).ship() == Some(ship)
}

/// The launch model a dock, a ship registry and a score present together.
pub open spec fn launch_model(slots: ShipSlots, ships: Seq<ShipRecord>, score: Score) -> LaunchModel {
    LaunchModel { slots: slots.slots@, ships, score: score.0 as int }
}

/// The slots a batch of launch commands names, in order.
pub open spec fn slot_ids_of(events: Seq<OnLaunchShip>) -> Seq<int> {
    events.map_values(|e: OnLaunchShip| e.slot_id as int)
}

/// Folding one more command onto a processed prefix.
proof fn lemma_launch_steps_take(m: LaunchModel, ids: Seq<int>, i: int)
    requires
        0 <= i < ids.len(),
    ensures
        launch_steps(m, ids.take(i + 1)) == launch_step(launch_steps(m, ids.take(i)), ids[i]),
    decreases i,
{
    if i == 0 {
        assert(ids.take(1)[0] == ids[0]);
        assert(ids.take(1).drop_first() =~= Seq::<int>::empty());
        assert(ids.take(0) =~= Seq::<int>::empty());
        assert(launch_steps(m, ids.take(1)) == launch_steps(
            launch_step(m, ids[0]),
            Seq::<int>::empty(),
        ));
    } else {
        let m1 = launch_step(m, ids[0]);
        let dro = ids.drop_first();
        lemma_launch_steps_take(m1, dro, i - 1);
        assert(ids.take(i + 1)[0] == ids[0]);
        assert(ids.take(i)[0] == ids[0]);
        assert(ids.take(i + 1).drop_first() =~= dro.take(i));
        assert(ids.take(i).drop_first() =~= dro.take(i - 1));
        assert(dro[i - 1] == ids[i]);
        assert(launch_steps(m, ids.take(i + 1)) == launch_steps(m1, dro.take(i)));
        assert(launch_steps(m, ids.take(i)) == launch_steps(m1, dro.take(i - 1)));
        assert(launch_steps(m1, dro.take(i)) == launch_step(launch_steps(m1, dro.take(i - 1)), dro[i - 1]));
    }
}

/// Handles a frame's launch commands. Each slot launches at most once per
/// frame: a repeated command for the same slot is debounced, and a
/// command for a slot without a docked ship is ignored. A launched ship's
/// slot empties immediately, the ship starts departing, its demand
/// markers come down, and the departure penalty for its unmet demands is
/// deducted exactly once. Returns the ships that launched, in order.
pub fn trigger_launch(
    slots: &mut ShipSlots,
    ships: &mut Vec<ShipRecord>,
    score: &mut Score,
    events: &Vec<OnLaunchShip>,
) -> (launched: Vec<u64>)
    requires
        old(slots).wf(),
        -0x0800_0000_0000 <= old(score).0 <= 0x0800_0000_0000,
        events@.len() <= 1000,
        forall|i: int|
            0 <= i < old(ships)@.len() ==> (#[trigger] old(ships)@[i]).hold.demands@.len() <= 64,
    ensures
        final(slots).wf(),
        launch_model(*final(slots), final(ships)@, *final(score)) == launch_steps(
            launch_model(*old(slots), old(ships)@, *old(score)),
            slot_ids_of(events@),
        ),
        old(score).0 - 2560 * events@.len() <= final(score).0 <= old(score).0,
        final(ships)@.len() == old(ships)@.len(),
        forall|i: int|
            0 <= i < final(ships)@.len() ==> (#[trigger] final(ships)@[i]).id == old(ships)@[i].id
                && final(ships)@[i].hold.demands@ == old(ships)@[i].hold.demands@,
        final(slots).slots@.len() == old(slots).slots@.len(),
        forall|j: int|
            0 <= j < final(slots).slots@.len() ==> (#[trigger] final(slots).slots@[j]) == old(
                slots,
            ).slots@[j] || final(slots).slots@[j] is Empty,
        forall|i: int|
            0 <= i < final(ships)@.len() ==> ((#[trigger] final(ships)@[i]).departing == old(
                ships,
            )@[i].departing || !seq_holds_ship(final(slots).slots@, final(ships)@[i].id)),
        launched@.len() <= events@.len(),
{
    let ghost m0 = launch_model(*old(slots), old(ships)@, *old(score));
    let ghost ids = slot_ids_of(events@);

    let mut launched_slots: Vec<usize> = Vec::new();
    let mut launched_ships: Vec<u64> = Vec::new();

    proof {
        assert(ids.take(0) =~= Seq::<int>::empty());
    }

    let mut i: usize = 0;
    #[verifier::loop_isolation(false)]
    while i < events.len()
        invariant
            0 <= i <= events@.len(),
            slots.wf(),
            launch_model(*slots, ships@, *score) == launch_steps(m0, ids.take(i as int)),
            old(score).0 - 2560 * (i as int) <= score.0 <= old(score).0,
            forall|j: int|
                0 <= j < launched_slots@.len()
                    ==> ((#[trigger] launched_slots@[j]) as int) < slots.slots@.len()
                    ==> !(slots.slots@[launched_slots@[j] as int] is Occupied),
            slots.slots@.len() == old(slots).slots@.len(),
            forall|j: int|
                0 <= j < slots.slots@.len() ==> (#[trigger] slots.slots@[j]) == old(
                    slots,
                ).slots@[j] || slots.slots@[j] is Empty,
            ships@.len() == old(ships)@.len(),
            forall|j: int|
                0 <= j < ships@.len() ==> (#[trigger] ships@[j]).id == old(ships)@[j].id
                    && ships@[j].hold.demands@ == old(ships)@[j].hold.demands@,
            forall|j: int|
                0 <= j < ships@.len() ==> ((#[trigger] ships@[j]).departing == old(
                    ships,
                )@[j].departing || !seq_holds_ship(slots.slots@, ships@[j].id)),
            launched_ships@.len() <= i,
        decreases events@.len() - i,
    {
        proof {
            lemma_launch_steps_take(m0, ids, i as int);
        }
        let ghost m_pre = launch_model(*slots, ships@, *score);
        let slot_id = events[i].slot_id;
        proof {
            assert(ids[i as int] == slot_id as int);
        }

        if contains_slot(&launched_slots, slot_id) {
            // debounced: this slot already launched this frame, so it no
            // longer holds a docked ship and the command is a no-op
            proof {
                assert(launch_step(m_pre, slot_id as int) == m_pre);
            }
        } else {
            launched_slots.push(slot_id);
            let ghost slots_pre = slots.slots@;
            match slots.free_slot(slot_id) {
                Some(ship) => {
                    match find_ship_index(ships, ship) {
                        Some(k) => {
                            let ghost ships_pre = ships@;
                            let rec = ships.remove(k);
                            proof {
                                crate::score::lemma_unmet_len_bound(
                                    rec.hold.demands@,
                                    rec.hold.crates@,
                                );
                            }
                            let _outcome = penalise_unmet_demands(score, &rec.hold);
                            let updated = ShipRecord {
                                departing: true,
                                demand_markers: false,
                                ..rec
                            };
                            ships.insert(k, updated);
                            launched_ships.push(ship);
                            proof {
                                assert(ships@ =~= ships_pre.update(k as int, updated));
                                let m_post = launch_step(m_pre, slot_id as int);
                                assert(slots.slots@ =~= m_post.slots);
                                assert(ships@ =~= m_post.ships);
                                assert(score.0 as int == m_post.score);
                                lemma_freed_ship_not_held(slots_pre, slots.slots@, slot_id as int, ship);
                                lemma_find_ship_id(ships_pre, ship);
                                assert(ships@[k as int].id == ship);
                                assert forall|j: int|
                                    0 <= j < ships@.len() implies ((#[trigger] ships@[j]).departing
                                    == old(ships)@[j].departing || !seq_holds_ship(
                                    slots.slots@,
                                    ships@[j].id,
                                )) by {
                                    if j == k {
                                        assert(!seq_holds_ship(slots.slots@, ship)) by {
                                            if seq_holds_ship(slots.slots@, ship) {
                                                let w = choose|w: int|
                                                    0 <= w < slots.slots@.len() && (
                                                    #[trigger] slots.slots@[w]).ship() == Some(
                                                        ship,
                                                    );
                                            }
                                        }
                                    } else {
                                        assert(ships@[j] == ships_pre[j]);
                                        if !seq_holds_ship(slots_pre, ships@[j].id) {
                                            lemma_emptying_never_holds(
                                                slots_pre,
                                                slots.slots@,
                                                slot_id as int,
                                                ships@[j].id,
                                            );
                                        }
                                    }
                                }
                            }
                        },
                        None => {
                            // stale ship reference: the slot is freed and
                            // the signal is otherwise dropped silently
                            proof {
                                let m_post = launch_step(m_pre, slot_id as int);
                                assert(slots.slots@ =~= m_post.slots);
                                assert forall|j: int|
                                    0 <= j < ships@.len() implies ((#[trigger] ships@[j]).departing
                                    == old(ships)@[j].departing || !seq_holds_ship(
                                    slots.slots@,
                                    ships@[j].id,
                                )) by {
                                    if !seq_holds_ship(slots_pre, ships@[j].id) {
                                        lemma_emptying_never_holds(
                                            slots_pre,
                                            slots.slots@,
                                            slot_id as int,
                                            ships@[j].id,
                                        );
                                    }
                                }
                            }
                        },
                    }
                },
                None => {
                    // no docked ship in this slot: the command is ignored
                    proof {
                        assert(launch_step(m_pre, slot_id as int) == m_pre);
                    }
                },
            }
        }
        i = i + 1;
    }
    proof {
        assert(ids.take(i as int) =~= ids);
    }
    launched_ships
}

/// After its only slot is freed, a launched ship is held by no slot: the
/// dock's exclusivity says no other slot carried it.
proof fn lemma_freed_ship_not_held(pre: Seq<ShipSlotType>, post: Seq<ShipSlotType>, slot_id: int, ship: u64)
    requires
        0 <= slot_id < pre.len(),
        pre[slot_id].ship() == Some(ship),
        forall|i: int, j: int|
            0 <= i < j < pre.len() && pre[i].ship() is Some && pre[j].ship() is Some ==> pre[i].ship()
                != pre[j].ship(),
        post == pre.update(slot_id, ShipSlotType::Empty),
    ensures
        forall|i: int| 0 <= i < post.len() ==> (#[trigger] post[i]).ship() != Some(ship),
{
    assert forall|i: int| 0 <= i < post.len() implies (#[trigger] post[i]).ship() != Some(ship) by {
        if i != slot_id {
            assert(post[i] == pre[i]);
        }
    }
}

/// Emptying a slot never makes a ship held that was not held before.
proof fn lemma_emptying_never_holds(pre: Seq<ShipSlotType>, post: Seq<ShipSlotType>, slot_id: int, ship: u64)
    requires
        (0 <= slot_id < pre.len() && post == pre.update(slot_id, ShipSlotType::Empty)) || post
            == pre,
        !seq_holds_ship(pre, ship),
    ensures
        !seq_holds_ship(post, ship),
{
    if seq_holds_ship(post, ship) {
        let i = choose|i: int| 0 <= i < post.len() && (#[trigger] post[i]).ship() == Some(ship);
        if post == pre {
            assert(pre[i].ship() == Some(ship));
        } else if i == slot_id {
            assert(post[i] is Empty);
        } else {
            assert(post[i] == pre[i]);
            assert(pre[i].ship() == Some(ship));
        }
    }
}

} // verus!
