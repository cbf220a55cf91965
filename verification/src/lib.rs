//! Logistics and economy core of a cargo-trading arcade game.
//!
//! Crates of typed cargo travel from carts and a factory to docked ships.
//! The factory turns pairs of inputs into manufactured goods through a
//! recipe table, ships occupy one of three dock slots and carry demand
//! lists, a market drifts per-kind prices inside fixed bounds, and a
//! scoring engine turns delivery outcomes and ship departures into a
//! running score. Everything here is a plain synchronous state machine,
//! stepped once per frame by the surrounding presentation layer.

pub mod carts;
pub mod dragging;
pub mod events;
pub mod factory;
pub mod hold;
pub mod kinds;
pub mod market;
pub mod recipes;
pub mod rng;
pub mod router;
pub mod scheduler;
pub mod ship_launch;
pub mod sim;
pub mod score;
pub mod slots;
pub mod timer;
