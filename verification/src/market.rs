//! The market: a per-kind price process, a bounded random walk with
//! momentum. Prices are kept in hundredths of a coin so that the walk is
//! exact integer arithmetic.

use vstd::prelude::*;
use vstd::pervasive::VecAdditionalExecFns;
use crate::kinds::BoxType;
use crate::rng::gen_range_i64;

verus! {

/// How often the market moves, in simulated milliseconds.
pub const MARKET_UPDATE_FREQUENCY_MS: u64 = 1500;

/// The largest magnitude the price acceleration may reach: one whole coin
/// per tick, in hundredths.
pub const ACCELERATION_LIMIT: i64 = 100;

/// The largest starting price a market entry may carry, in hundredths.
pub const STARTING_PRICE_LIMIT: i64 = 1_000_000;

/// `x` clamped into `[lo, hi]`.
pub open spec fn clamp_spec(x: int, lo: int, hi: int) -> int {
    if x < lo {
        lo
    } else if x > hi {
        hi
    } else {
        x
    }
}

/// The floor a price may fall to: two fifths of its starting price.
pub open spec fn min_price(starting_price: int) -> int {
    2 * starting_price / 5
}

/// The ceiling a price may rise to: seven fifths of its starting price.
pub open spec fn max_price(starting_price: int) -> int {
    7 * starting_price / 5
}

/// The abstract state of one price process.
pub struct PriceModel {
    pub price: int,
    pub accel: int,
    pub vol: int,
    pub sp: int,
}

impl PriceModel {
    /// Market bounds: the price stays between two fifths and seven
    /// fifths of its starting price, and the acceleration within one
    /// whole coin per tick.
    pub open spec fn wf(self) -> bool {
        &&& 0 < self.sp <= STARTING_PRICE_LIMIT
        &&& 1 <= self.vol <= 10
        &&& -(ACCELERATION_LIMIT as int) <= self.accel <= ACCELERATION_LIMIT as int
        &&& min_price(self.sp) <= self.price <= max_price(self.sp)
    }
}

/// One market tick on one price: the price moves by the current
/// acceleration and is clamped to its bounds; the acceleration moves by
/// the random draw and is clamped to its own bounds.
pub open spec fn update_price_spec(m: PriceModel, delta: int) -> PriceModel {
    PriceModel {
        price: clamp_spec(m.price + m.accel, min_price(m.sp), max_price(m.sp)),
        accel: clamp_spec(m.accel + delta, -(ACCELERATION_LIMIT as int), ACCELERATION_LIMIT as int),
        ..m
    }
}

/// A whole run of market ticks, applied in order.
pub open spec fn update_many_spec(m: PriceModel, deltas: Seq<int>) -> PriceModel
    decreases deltas.len(),
{
    if deltas.len() == 0 {
        m
    } else {
        update_many_spec(update_price_spec(m, deltas[0]), deltas.drop_first())
    }
}

/// Market bounds: however many ticks pass and whatever the random draws
/// were, the price stays within its clamp bounds and the acceleration
/// within one coin per tick.
pub proof fn lemma_market_bounds(m: PriceModel, deltas: Seq<int>)
    requires
        m.wf(),
    ensures
        update_many_spec(m, deltas).wf(),
        min_price(m.sp) <= update_many_spec(m, deltas).price <= max_price(m.sp),
        -(ACCELERATION_LIMIT as int) <= update_many_spec(m, deltas).accel <= ACCELERATION_LIMIT as int,
    decreases deltas.len(),
{
    if deltas.len() > 0 {
        lemma_market_bounds(update_price_spec(m, deltas[0]), deltas.drop_first());
    }
}

/// One price process: the bounded random walk for a single crate kind.
#[derive(Clone, Copy, Debug)]
pub struct MarketPrice {
    pub current_price: i64,
    pub price_acceleration: i64,
    pub volatility: i64,
    pub starting_price: i64,
}

impl View for MarketPrice {
    type V = PriceModel;

    open spec fn view(&self) -> PriceModel {
        PriceModel {
            price: self.current_price as int,
            accel: self.price_acceleration as int,
            vol: self.volatility as int,
            sp: self.starting_price as int,
        }
    }
}

impl MarketPrice {
    /// A fresh price process: the price starts somewhere between its
    /// clamp bounds, with a random acceleration and volatility.
    pub fn new(starting_price: i64, rng: &mut rand::rngs::ThreadRng) -> (p: MarketPrice)
        requires
            0 < starting_price <= STARTING_PRICE_LIMIT,
        ensures
            p@.wf(),
            p@.sp == starting_price,
    {
        proof {
            assert(2 * starting_price / 5 < 7 * starting_price / 5) by (nonlinear_arith)
                requires 0 < starting_price;
        }
        let lo = 2 * starting_price / 5;
        let hi = 7 * starting_price / 5;
        MarketPrice {
            current_price: gen_range_i64(rng, lo, hi),
            price_acceleration: gen_range_i64(rng, -ACCELERATION_LIMIT, ACCELERATION_LIMIT),
            volatility: gen_range_i64(rng, 1, 10),
            starting_price,
        }
    }

    /// One tick with a given draw. Exactly the clamped walk of
    /// `update_price_spec`.
    pub fn update_with(&mut self, delta: i64)
        requires
            old(self)@.wf(),
            -old(self)@.vol <= delta as int <= old(self)@.vol,
        ensures
            final(self)@.wf(),
            final(self)@ == update_price_spec(old(self)@, delta as int),
    {
        let lo = 2 * self.starting_price / 5;
        let hi = 7 * self.starting_price / 5;
        let moved = self.current_price + self.price_acceleration;
        self.current_price = if moved < lo {
            lo
        } else if moved > hi {
            hi
        } else {
            moved
        };
        let accel = self.price_acceleration + delta;
        self.price_acceleration = if accel < -ACCELERATION_LIMIT {
            -ACCELERATION_LIMIT
        } else if accel > ACCELERATION_LIMIT {
            ACCELERATION_LIMIT
        } else {
            accel
        };
    }

    /// One tick with a fresh uniform draw from `[-volatility, volatility)`.
    pub fn update(&mut self, rng: &mut rand::rngs::ThreadRng)
        requires
            old(self)@.wf(),
        ensures
            final(self)@.wf(),
            exists|delta: int|
                -old(self)@.vol <= delta <= old(self)@.vol
                    && final(self)@ == update_price_spec(old(self)@, delta),
    {
        let delta = gen_range_i64(rng, -self.volatility, self.volatility);
        self.update_with(delta);
    }
}

/// The current price of `kind` in the entry list, or `None` when the
/// market does not trade it.
pub open spec fn price_of(s: Seq<(BoxType, MarketPrice)>, kind: BoxType) -> Option<MarketPrice>
    decreases s.len(),
{
    if s.len() == 0 {
        None
    } else if s[0].0 == kind {
        Some(s[0].1)
    } else {
        price_of(s.drop_first(), kind)
    }
}

/// The mapping from crate kind to its price process; created once at game
/// start, mutated only by the market tick, never destroyed in a session.
#[derive(Clone, Debug)]
pub struct Market {
    pub market: Vec<(BoxType, MarketPrice)>,
}

impl Market {
    /// Every price process respects its bounds.
    pub open spec fn wf(self) -> bool {
        forall|i: int| 0 <= i < self.market@.len() ==> (#[trigger] self.market@[i]).1@.wf()
    }

    /// The kinds traded, in entry order.
    pub open spec fn kinds(self) -> Seq<BoxType> {
        self.market@.map_values(|e: (BoxType, MarketPrice)| e.0)
    }

    /// The current price of `kind`, or `None` when the market does not
    /// trade it.
    pub fn get_price(&self, kind: BoxType) -> (r: Option<i64>)
        ensures
            r matches Some(p) ==> price_of(self.market@, kind) matches Some(mp)
                && p == mp.current_price,
            r is None <==> price_of(self.market@, kind) is None,
    {
        let ghost entries = self.market@;
        proof {
            assert(entries.skip(0) =~= entries);
        }
        let mut i: usize = 0;
        #[verifier::loop_isolation(false)]
        while i < self.market.len()
            invariant
                0 <= i <= self.market.len(),
                price_of(entries, kind) == price_of(entries.skip(i as int), kind),
            decreases self.market.len() - i,
        {
            proof {
                assert(entries.skip(i as int)[0] == entries[i as int]);
                assert(entries.skip(i as int).drop_first() =~= entries.skip(i as int + 1));
            }
            let entry = self.market[i];
            if entry.0 == kind {
                return Some(entry.1.current_price);
            }
            i = i + 1;
        }
        None
    }

    /// One market tick: every traded kind's price process moves once,
    /// independently; kinds, volatilities and starting prices are kept.
    pub fn market_movement(&mut self, rng: &mut rand::rngs::ThreadRng)
        requires
            old(self).wf(),
        ensures
            final(self).wf(),
            final(self).market@.len() == old(self).market@.len(),
            forall|i: int| 0 <= i < final(self).market@.len() ==> {
                &&& (#[trigger] final(self).market@[i]).0 == old(self).market@[i].0
                &&& final(self).market@[i].1@.sp == old(self).market@[i].1@.sp
                &&& final(self).market@[i].1@.vol == old(self).market@[i].1@.vol
                &&& exists|delta: int|
                    -old(self).market@[i].1@.vol <= delta <= old(self).market@[i].1@.vol
                        && final(self).market@[i].1@
                            == update_price_spec(old(self).market@[i].1@, delta)
            },
    {
        let n = self.market.len();
        let mut i: usize = 0;
        #[verifier::loop_isolation(false)]
        while i < n
            invariant
                0 <= i <= n,
                self.market@.len() == old(self).market@.len() == n,
                forall|j: int| i <= j < n ==> #[trigger] self.market@[j] == old(self).market@[j],
                forall|j: int| 0 <= j < i ==> {
                    &&& (#[trigger] self.market@[j]).0 == old(self).market@[j].0
                    &&& self.market@[j].1@.sp == old(self).market@[j].1@.sp
                    &&& self.market@[j].1@.vol == old(self).market@[j].1@.vol
                    &&& self.market@[j].1@.wf()
                    &&& exists|delta: int|
                        -old(self).market@[j].1@.vol <= delta <= old(self).market@[j].1@.vol
                            && self.market@[j].1@
                                == update_price_spec(old(self).market@[j].1@, delta)
                },
            decreases n - i,
        {
            let mut entry = self.market[i];
            entry.1.update(rng);
            self.market.set(i, entry);
            i = i + 1;
        }
    }
}

/// What a hold's crates fetch at current prices: each crate sells at the
/// market's price for its kind, and a kind the market does not trade
/// fetches nothing.
pub open spec fn sale_value_spec(entries: Seq<(BoxType, MarketPrice)>, crates: Seq<BoxType>) -> int
    decreases crates.len(),
{
    if crates.len() == 0 {
        0
    } else {
        (match price_of(entries, crates[0]) {
            Some(mp) => mp.current_price as int,
            None => 0,
        }) + sale_value_spec(entries, crates.drop_first())
    }
}

impl Market {
    /// The coins a launched hold's crates sell for at current prices (the
    /// market-sale scoring variant: on departure every crate in the hold
    /// is sold at the current price for its kind).
    pub fn sale_value(&self, crates: &Vec<BoxType>) -> (total: i64)
        requires
            self.wf(),
            crates@.len() <= 0x1000_0000,
        ensures
            total == sale_value_spec(self.market@, crates@),
    {
        let ghost all = crates@;
        let mut total: i64 = 0;
        let mut i: usize = 0;
        #[verifier::loop_isolation(false)]
        while i < crates.len()
            invariant
                0 <= i <= all.len(),
                total == sale_value_spec(self.market@, all.take(i as int)),
                0 <= total <= (i as int) * (7 * STARTING_PRICE_LIMIT as int),
            decreases all.len() - i,
        {
            proof {
                lemma_sale_take_step(self.market@, all, i as int);
                lemma_price_of_wf(self.market@, all[i as int]);
                let cap = 7 * STARTING_PRICE_LIMIT as int;
                assert((i as int + 1) * cap == (i as int) * cap + cap) by (nonlinear_arith);
                assert((i as int) * cap <= 0x1000_0000 * cap) by (nonlinear_arith)
                    requires
                        0 <= i as int <= 0x1000_0000,
                        cap == 7 * STARTING_PRICE_LIMIT as int,
                ;
            }
            let piece = match self.get_price(crates[i]) {
                Some(p) => p,
                None => 0,
            };
            total = total + piece;
            i = i + 1;
        }
        proof {
            assert(all.take(i as int) =~= all);
        }
        total
    }
}

/// One step of the sale sum.
proof fn lemma_sale_take_step(entries: Seq<(BoxType, MarketPrice)>, s: Seq<BoxType>, i: int)
    requires
        0 <= i < s.len(),
    ensures
        sale_value_spec(entries, s.take(i + 1)) == sale_value_spec(entries, s.take(i)) + (
        match price_of(entries, s[i]) {
            Some(mp) => mp.current_price as int,
            None => 0,
        }),
    decreases i,
{
    if i == 0 {
        assert(s.take(1)[0] == s[0]);
        assert(s.take(1).drop_first() =~= Seq::<BoxType>::empty());
        assert(s.take(0) =~= Seq::<BoxType>::empty());
    } else {
        lemma_sale_take_step(entries, s.drop_first(), i - 1);
        assert(s.take(i + 1)[0] == s[0]);
        assert(s.take(i)[0] == s[0]);
        assert(s.take(i + 1).drop_first() =~= s.drop_first().take(i));
        assert(s.take(i).drop_first() =~= s.drop_first().take(i - 1));
        assert(s.drop_first()[i - 1] == s[i]);
    }
}

/// A traded price found in a well-formed market respects the price cap.
proof fn lemma_price_of_wf(entries: Seq<(BoxType, MarketPrice)>, kind: BoxType)
    requires
        forall|i: int| 0 <= i < entries.len() ==> (#[trigger] entries[i]).1@.wf(),
    ensures
        price_of(entries, kind) matches Some(mp) ==> mp@.wf() && 0 <= mp.current_price <= 7
            * STARTING_PRICE_LIMIT,
    decreases entries.len(),
{
    if entries.len() > 0 {
        assert(entries[0] == entries[0]);
        assert forall|i: int| 0 <= i < entries.drop_first().len() implies (#[trigger] entries.drop_first()[i]).1@.wf() by {
            assert(entries.drop_first()[i] == entries[i + 1]);
        }
        lemma_price_of_wf(entries.drop_first(), kind);
        if entries[0].0 == kind {
            let mp = entries[0].1;
            assert(mp@.wf());
            assert(min_price(mp@.sp) >= 0) by (nonlinear_arith)
                requires mp@.sp > 0;
            assert(max_price(mp@.sp) <= 7 * STARTING_PRICE_LIMIT as int) by (nonlinear_arith)
                requires 0 < mp@.sp <= STARTING_PRICE_LIMIT as int;
        }
    }
}

impl Default for Market {
    /// The market of the four traded commodities, with randomized
    /// starting conditions — except fruit, whose first sale is kept
    /// safe: its price starts at its starting price with no momentum.
    fn default() -> (m: Market)
        ensures
            m.wf(),
            m.kinds() =~= seq![BoxType::MedicalSupplies, BoxType::Fruit, BoxType::Iron, BoxType::Rum],
            m.market@[0].1@.sp == 8500,
            m.market@[1].1@.sp == 3500,
            m.market@[2].1@.sp == 7200,
            m.market@[3].1@.sp == 1500,
            m.market@[1].1@.price == 3500 && m.market@[1].1@.accel == 0,
    {
        let mut rng = crate::rng::new_rng();
        let mut entries: Vec<(BoxType, MarketPrice)> = Vec::new();
        entries.push((BoxType::MedicalSupplies, MarketPrice::new(8500, &mut rng)));

        let mut fruit = MarketPrice::new(3500, &mut rng);
        fruit.current_price = 3500;
        fruit.price_acceleration = 0;
        proof {
            assert(min_price(3500) <= 3500 <= max_price(3500));
        }
        entries.push((BoxType::Fruit, fruit));

        entries.push((BoxType::Iron, MarketPrice::new(7200, &mut rng)));
        entries.push((BoxType::Rum, MarketPrice::new(1500, &mut rng)));
        Market { market: entries }
    }
}

} // verus!
