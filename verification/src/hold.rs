//! The cargo state owned by one ship: the crates already loaded and the
//! list of demanded kinds. Demands are a multiset: a duplicated demand
//! needs a duplicated delivery to be met.

use vstd::prelude::*;
use crate::kinds::BoxType;

verus! {

/// How many times `x` occurs in `s`.
pub open spec fn count_of(s: Seq<BoxType>, x: BoxType) -> nat
    decreases s.len(),
{
    if s.len() == 0 {
        0
    } else {
        (if s[0] == x { 1 as nat } else { 0 as nat }) + count_of(s.drop_first(), x)
    }
}

/// `s` with its first occurrence of `x` removed, or `s` itself when `x`
/// does not occur.
pub open spec fn remove_first(s: Seq<BoxType>, x: BoxType) -> Seq<BoxType>
    decreases s.len(),
{
    if s.len() == 0 {
        s
    } else if s[0] == x {
        s.drop_first()
    } else {
        seq![s[0]] + remove_first(s.drop_first(), x)
    }
}

/// The demands still unmet after the delivered crates are matched off,
/// one demand per delivered crate of the same kind, in demand order.
pub open spec fn unmet_demands_spec(demands: Seq<BoxType>, crates: Seq<BoxType>) -> Seq<BoxType>
    decreases crates.len(),
{
    if crates.len() == 0 {
        demands
    } else {
        unmet_demands_spec(remove_first(demands, crates[0]), crates.drop_first())
    }
}

/// Removing an absent kind changes nothing.
pub proof fn lemma_remove_first_absent(s: Seq<BoxType>, x: BoxType)
    requires
        count_of(s, x) == 0,
    ensures
        remove_first(s, x) == s,
    decreases s.len(),
{
    if s.len() > 0 {
        lemma_remove_first_absent(s.drop_first(), x);
        assert(seq![s[0]] + s.drop_first() =~= s);
    }
}

/// Removing the first occurrence of `x` takes away one `x` and nothing
/// else.
pub proof fn lemma_remove_first_counts(s: Seq<BoxType>, x: BoxType, k: BoxType)
    requires
        count_of(s, x) > 0,
    ensures
        remove_first(s, x).len() == s.len() - 1,
        count_of(remove_first(s, x), k)
            == count_of(s, k) - (if k == x { 1 as int } else { 0 as int }),
    decreases s.len(),
{
    if s[0] == x {
    } else {
        lemma_remove_first_counts(s.drop_first(), x, k);
        let rest = remove_first(s.drop_first(), x);
        assert((seq![s[0]] + rest).drop_first() =~= rest);
    }
}

/// Removing at most one element never lengthens a sequence.
pub proof fn lemma_remove_first_len(s: Seq<BoxType>, x: BoxType)
    ensures
        remove_first(s, x).len() <= s.len(),
    decreases s.len(),
{
    if s.len() > 0 && s[0] != x {
        lemma_remove_first_len(s.drop_first(), x);
    }
}

/// `count_of` agrees with sequence membership.
pub proof fn lemma_count_contains(s: Seq<BoxType>, x: BoxType)
    ensures
        count_of(s, x) > 0 <==> s.contains(x),
    decreases s.len(),
{
    if s.len() > 0 {
        lemma_count_contains(s.drop_first(), x);
        if s[0] != x && s.drop_first().contains(x) {
            let i = choose|i: int| 0 <= i < s.drop_first().len() && s.drop_first()[i] == x;
            assert(s[i + 1] == x);
        }
        if s.contains(x) && s[0] != x {
            let i = choose|i: int| 0 <= i < s.len() && s[i] == x;
            assert(s.drop_first()[i - 1] == x);
        }
    }
}

/// Unmet-demand accounting: each demanded kind stays unmet exactly as
/// often as it was demanded beyond what was delivered — a multiset
/// difference, never negative.
pub proof fn lemma_unmet_demand_counts(demands: Seq<BoxType>, crates: Seq<BoxType>, k: BoxType)
    ensures
        count_of(unmet_demands_spec(demands, crates), k)
            == if count_of(demands, k) >= count_of(crates, k) {
                count_of(demands, k) - count_of(crates, k)
            } else {
                0
            },
    decreases crates.len(),
{
    if crates.len() > 0 {
        let c0 = crates[0];
        if count_of(demands, c0) == 0 {
            lemma_remove_first_absent(demands, c0);
        } else {
            lemma_remove_first_counts(demands, c0, k);
        }
        lemma_unmet_demand_counts(remove_first(demands, c0), crates.drop_first(), k);
    }
}

/// A delivery counts as demanded exactly when its kind was demanded more
/// often than it was delivered so far — so a duplicated demand requires a
/// duplicated delivery before the kind stops being demanded.
pub proof fn lemma_was_demanded(demands: Seq<BoxType>, crates: Seq<BoxType>, k: BoxType)
    ensures
        unmet_demands_spec(demands, crates).contains(k) <==> count_of(demands, k) > count_of(
            crates,
            k,
        ),
{
    lemma_unmet_demand_counts(demands, crates, k);
    lemma_count_contains(unmet_demands_spec(demands, crates), k);
}

/// The weight a ship's hold comfortably carries.
pub const DEFAULT_WEIGHT_CAPACITY: u64 = 60;

/// The volume a ship's hold comfortably stows.
pub const DEFAULT_VOLUME_CAPACITY: u64 = 60;

/// The summed weight of a load of crates.
pub open spec fn total_weight(s: Seq<BoxType>) -> int
    decreases s.len(),
{
    if s.len() == 0 {
        0
    } else {
        s[0].weight_spec() + total_weight(s.drop_first())
    }
}

/// The summed volume of a load of crates.
pub open spec fn total_volume(s: Seq<BoxType>) -> int
    decreases s.len(),
{
    if s.len() == 0 {
        0
    } else {
        s[0].volume_spec() + total_volume(s.drop_first())
    }
}

/// The cargo state of one ship: what has been loaded and what is demanded.
#[derive(Clone, Debug)]
pub struct ShipHold {
    pub crates: Vec<BoxType>,
    pub demands: Vec<BoxType>,
    /// Exceeding the capacities is allowed, only flagged.
    pub weight_capacity: u64,
    pub volume_capacity: u64,
}

impl ShipHold {
    /// A hold with the given demand list, the standard capacities, and
    /// nothing loaded yet.
    pub fn new(demands: Vec<BoxType>) -> (hold: ShipHold)
        ensures
            hold.crates@ == Seq::<BoxType>::empty(),
            hold.demands@ == demands@,
            hold.weight_capacity == DEFAULT_WEIGHT_CAPACITY,
            hold.volume_capacity == DEFAULT_VOLUME_CAPACITY,
    {
        let hold = ShipHold {
            crates: Vec::new(),
            demands,
            weight_capacity: DEFAULT_WEIGHT_CAPACITY,
            volume_capacity: DEFAULT_VOLUME_CAPACITY,
        };
        proof {
            assert(hold.crates@ =~= Seq::<BoxType>::empty());
        }
        hold
    }

    /// The weight the loaded crates add up to.
    pub fn current_weight(&self) -> (w: u64)
        requires
            self.crates@.len() <= 0x1000_0000,
        ensures
            w == total_weight(self.crates@),
    {
        self.hold_totals().0
    }

    /// The volume the loaded crates add up to.
    pub fn current_volume(&self) -> (v: u64)
        requires
            self.crates@.len() <= 0x1000_0000,
        ensures
            v == total_volume(self.crates@),
    {
        self.hold_totals().1
    }

    /// Both running totals in one pass.
    pub fn hold_totals(&self) -> (r: (u64, u64))
        requires
            self.crates@.len() <= 0x1000_0000,
        ensures
            r.0 == total_weight(self.crates@),
            r.1 == total_volume(self.crates@),
    {
        let ghost all = self.crates@;
        let mut weight: u64 = 0;
        let mut volume: u64 = 0;
        let mut i: usize = 0;
        #[verifier::loop_isolation(false)]
        while i < self.crates.len()
            invariant
                0 <= i <= all.len(),
                weight == total_weight(all.take(i as int)),
                volume == total_volume(all.take(i as int)),
                weight <= 20 * (i as int),
                volume <= 20 * (i as int),
            decreases all.len() - i,
        {
            proof {
                lemma_totals_take_step(all, i as int);
            }
            let kind = self.crates[i];
            weight = weight + kind.weight();
            volume = volume + kind.volume();
            i = i + 1;
        }
        proof {
            assert(all.take(i as int) =~= all);
        }
        (weight, volume)
    }

    /// Whether the load exceeds the weight and volume capacities. An
    /// overfull hold is flagged for the UI, never rejected.
    pub fn over_capacity(&self) -> (r: (bool, bool))
        requires
            self.crates@.len() <= 0x1000_0000,
        ensures
            r.0 == (total_weight(self.crates@) > self.weight_capacity),
            r.1 == (total_volume(self.crates@) > self.volume_capacity),
    {
        let (weight, volume) = self.hold_totals();
        (weight > self.weight_capacity, volume > self.volume_capacity)
    }

    /// The demands not yet met by the loaded crates: the multiset
    /// difference of demands and crates, kept in demand order.
    pub fn get_unmet_demands(&self) -> (unmet: Vec<BoxType>)
        ensures
            unmet@ == unmet_demands_spec(self.demands@, self.crates@),
    {
        let mut unmet: Vec<BoxType> = Vec::new();
        let mut d: usize = 0;
        #[verifier::loop_isolation(false)]
        while d < self.demands.len()
            invariant
                0 <= d <= self.demands.len(),
                unmet@ =~= self.demands@.take(d as int),
            decreases self.demands.len() - d,
        {
            unmet.push(self.demands[d]);
            d = d + 1;
        }
        proof {
            assert(unmet@ =~= self.demands@);
        }

        let ghost all_crates = self.crates@;
        proof {
            assert(all_crates.skip(0) =~= all_crates);
        }
        let mut c: usize = 0;
        #[verifier::loop_isolation(false)]
        while c < self.crates.len()
            invariant
                0 <= c <= self.crates.len(),
                unmet_demands_spec(self.demands@, all_crates)
                    == unmet_demands_spec(unmet@, all_crates.skip(c as int)),
            decreases self.crates.len() - c,
        {
            proof {
                assert(all_crates.skip(c as int).drop_first() =~= all_crates.skip(c as int + 1));
                assert(all_crates.skip(c as int)[0] == all_crates[c as int]);
            }
            remove_first_crate(&mut unmet, self.crates[c]);
            c = c + 1;
        }
        proof {
            assert(all_crates.skip(c as int).len() == 0);
        }
        unmet
    }

    /// Accepts a crate unconditionally, reporting whether it was still
    /// demanded at the moment it arrived. Overflowing the demands is
    /// allowed; the crate is loaded either way.
    pub fn receive_crate(&mut self, box_type: BoxType) -> (was_demanded: bool)
        ensures
            final(self).crates@ == old(self).crates@.push(box_type),
            final(self).demands@ == old(self).demands@,
            final(self).weight_capacity == old(self).weight_capacity,
            final(self).volume_capacity == old(self).volume_capacity,
            was_demanded == unmet_demands_spec(old(self).demands@, old(self).crates@).contains(box_type),
    {
        let unmet = self.get_unmet_demands();
        let was_demanded = contains_box(&unmet, box_type);
        self.crates.push(box_type);
        was_demanded
    }
}

/// Removes the first crate equal to `x` from `v`, if one is there.
fn remove_first_crate(v: &mut Vec<BoxType>, x: BoxType)
    ensures
        final(v)@ == remove_first(old(v)@, x),
{
    let ghost orig = v@;
    let mut i: usize = 0;
    #[verifier::loop_isolation(false)]
    while i < v.len()
        invariant
            0 <= i <= v.len(),
            v@ == orig,
            forall|j: int| 0 <= j < i ==> orig[j] != x,
        decreases v.len() - i,
    {
        if v[i] == x {
            v.remove(i);
            proof {
                lemma_remove_first_at(orig, x, i as int);
                assert(v@ =~= remove_first(orig, x));
            }
            return;
        }
        i = i + 1;
    }
    proof {
        lemma_count_not_present(orig, x);
        lemma_remove_first_absent(orig, x);
    }
}

/// Does `v` hold `x`?
fn contains_box(v: &Vec<BoxType>, x: BoxType) -> (r: bool)
    ensures
        r == v@.contains(x),
{
    let mut i: usize = 0;
    #[verifier::loop_isolation(false)]
    while i < v.len()
        invariant
            0 <= i <= v.len(),
            forall|j: int| 0 <= j < i ==> v@[j] != x,
        decreases v.len() - i,
    {
        if v[i] == x {
            return true;
        }
        i = i + 1;
    }
    false
}

/// One step of the totals scan.
proof fn lemma_totals_take_step(s: Seq<BoxType>, i: int)
    requires
        0 <= i < s.len(),
    ensures
        total_weight(s.take(i + 1)) == total_weight(s.take(i)) + s[i].weight_spec(),
        total_volume(s.take(i + 1)) == total_volume(s.take(i)) + s[i].volume_spec(),
    decreases i,
{
    if i == 0 {
        assert(s.take(1)[0] == s[0]);
        assert(s.take(1).drop_first() =~= Seq::<BoxType>::empty());
        assert(s.take(0) =~= Seq::<BoxType>::empty());
    } else {
        lemma_totals_take_step(s.drop_first(), i - 1);
        assert(s.take(i + 1)[0] == s[0]);
        assert(s.take(i)[0] == s[0]);
        assert(s.take(i + 1).drop_first() =~= s.drop_first().take(i));
        assert(s.take(i).drop_first() =~= s.drop_first().take(i - 1));
        assert(s.drop_first()[i - 1] == s[i]);
    }
}

/// A kind that occurs nowhere has count zero.
proof fn lemma_count_not_present(s: Seq<BoxType>, x: BoxType)
    requires
        forall|j: int| 0 <= j < s.len() ==> s[j] != x,
    ensures
        count_of(s, x) == 0,
    decreases s.len(),
{
    if s.len() > 0 {
        lemma_count_not_present(s.drop_first(), x);
    }
}

/// Removing the first occurrence, found at index `i`, is removing index
/// `i`.
proof fn lemma_remove_first_at(s: Seq<BoxType>, x: BoxType, i: int)
    requires
        0 <= i < s.len(),
        s[i] == x,
        forall|j: int| 0 <= j < i ==> s[j] != x,
    ensures
        remove_first(s, x) =~= s.remove(i),
    decreases i,
{
    if i == 0 {
        assert(s.drop_first() =~= s.remove(0));
    } else {
        assert(forall|j: int| 0 <= j < i - 1 ==> s.drop_first()[j] != x);
        lemma_remove_first_at(s.drop_first(), x, i - 1);
        assert(seq![s[0]] + s.drop_first().remove(i - 1) =~= s.remove(i));
    }
}

} // verus!
