//! The delivery router: interprets the contact signals of one crate in
//! flight and picks the single target its delivery resolves to.
//!
//! Priority when several targets overlap in one step: the factory input
//! first, then the splash catcher, then a ship hold; with no usable
//! target the crate stays in flight.

use vstd::prelude::*;

verus! {

/// One contact signal between a flying crate and a collider, as handed in
/// by broad-phase collision detection.
#[derive(Clone, Copy, Debug, PartialEq, Eq, Structural)]
pub enum ContactTarget {
    /// The factory's input hopper.
    FactoryInput,
    /// The catch-all water collider (a boundary escape is reported the
    /// same way: a pure loss).
    SplashCatcher,
    /// The hold of the ship with this identifier.
    Ship(u64),
}

/// Where a crate's delivery resolves to this step.
#[derive(Clone, Copy, Debug, PartialEq, Eq, Structural)]
pub enum RouteDecision {
    /// Forward the crate's kind to the factory and consume the crate.
    ToFactory,
    /// The crate is lost with no economic effect.
    Splash,
    /// Deliver the crate to this ship's hold.
    ToShip(u64),
    /// No usable target: the crate remains in flight.
    NoTarget,
}

pub open spec fn has_factory(s: Seq<ContactTarget>) -> bool {
    exists|i: int| 0 <= i < s.len() && s[i] is FactoryInput
}

pub open spec fn has_splash(s: Seq<ContactTarget>) -> bool {
    exists|i: int| 0 <= i < s.len() && s[i] is SplashCatcher
}

/// The ship of the first ship contact, if any.
pub open spec fn first_ship(s: Seq<ContactTarget>) -> Option<u64>
    decreases s.len(),
{
    if s.len() == 0 {
        None
    } else if s[0] is Ship {
        Some(s[0]->Ship_0)
    } else {
        first_ship(s.drop_first())
    }
}

/// The resolution order: factory input first, then the splash catcher,
/// then the first ship hold, else no target.
pub open spec fn route_spec(s: Seq<ContactTarget>) -> RouteDecision {
    if has_factory(s) {
        RouteDecision::ToFactory
    } else if has_splash(s) {
        RouteDecision::Splash
    } else {
        match first_ship(s) {
            Some(ship) => RouteDecision::ToShip(ship),
            None => RouteDecision::NoTarget,
        }
    }
}

/// Picks the single target the crate's delivery resolves to this step.
pub fn route_crate(targets: &Vec<ContactTarget>) -> (d: RouteDecision)
    ensures
        d == route_spec(targets@),
{
    let ghost s = targets@;
    let mut saw_factory = false;
    let mut saw_splash = false;
    let mut ship: Option<u64> = None;

    let mut i: usize = 0;
    #[verifier::loop_isolation(false)]
    while i < targets.len()
        invariant
            0 <= i <= s.len(),
            saw_factory == has_factory(s.take(i as int)),
            saw_splash == has_splash(s.take(i as int)),
            ship == first_ship(s.take(i as int)),
        decreases s.len() - i,
    {
        proof {
            lemma_route_take_step(s, i as int);
        }
        match targets[i] {
            ContactTarget::FactoryInput => {
                saw_factory = true;
            },
            ContactTarget::SplashCatcher => {
                saw_splash = true;
            },
            ContactTarget::Ship(id) => {
                if ship.is_none() {
                    ship = Some(id);
                }
            },
        }
        i = i + 1;
    }
    proof {
        assert(s.take(i as int) =~= s);
    }

    if saw_factory {
        RouteDecision::ToFactory
    } else if saw_splash {
        RouteDecision::Splash
    } else {
        match ship {
            Some(id) => RouteDecision::ToShip(id),
            None => RouteDecision::NoTarget,
        }
    }
}

/// One step of the scan: how the three observations grow when the next
/// contact is taken in.
proof fn lemma_route_take_step(s: Seq<ContactTarget>, i: int)
    requires
        0 <= i < s.len(),
    ensures
        has_factory(s.take(i + 1)) == (has_factory(s.take(i)) || s[i] is FactoryInput),
        has_splash(s.take(i + 1)) == (has_splash(s.take(i)) || s[i] is SplashCatcher),
        first_ship(s.take(i + 1)) == if first_ship(s.take(i)) is Some {
            first_ship(s.take(i))
        } else if s[i] is Ship {
            Some(s[i]->Ship_0)
        } else {
            None::<u64>
        },
    decreases i,
{
    let pre = s.take(i);
    let post = s.take(i + 1);
    assert(post[i] == s[i]);
    assert(forall|j: int| 0 <= j < i ==> post[j] == pre[j]);
    if has_factory(pre) {
        let j = choose|j: int| 0 <= j < pre.len() && pre[j] is FactoryInput;
        assert(post[j] is FactoryInput);
    }
    if has_factory(post) {
        let j = choose|j: int| 0 <= j < post.len() && post[j] is FactoryInput;
        assert(j < i ==> pre[j] is FactoryInput);
    }
    if has_splash(pre) {
        let j = choose|j: int| 0 <= j < pre.len() && pre[j] is SplashCatcher;
        assert(post[j] is SplashCatcher);
    }
    if has_splash(post) {
        let j = choose|j: int| 0 <= j < post.len() && post[j] is SplashCatcher;
        assert(j < i ==> pre[j] is SplashCatcher);
    }
    if i == 0 {
        assert(pre =~= Seq::<ContactTarget>::empty());
        assert(post =~= seq![s[0]]);
        assert(post.drop_first() =~= Seq::<ContactTarget>::empty());
    } else {
        lemma_route_take_step(s.drop_first(), i - 1);
        assert(post.drop_first() =~= s.drop_first().take(i));
        assert(pre.drop_first() =~= s.drop_first().take(i - 1));
        assert(post[0] == s[0]);
        assert(pre[0] == s[0]);
        assert(s.drop_first()[i - 1] == s[i]);
    }
}

} // verus!
