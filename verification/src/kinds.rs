//! The typed cargo unit: a closed set of crate kinds.

use vstd::prelude::*;

verus! {

/// A kind of tradeable cargo. Identity is purely the variant tag; the raw
/// inputs combine in the factory into the manufactured outputs, while the
/// commodity kinds are traded against the market.
#[derive(Clone, Copy, Debug, PartialEq, Eq, Structural, Hash)]
pub enum BoxType {
    // raw inputs
    Glassware,
    Grapes,
    Apples,
    Wheat,
    Honey,

    // manufactured outputs
    Beer,
    Cider,
    Mead,
    Wine,

    // traded commodities
    MedicalSupplies,
    Fruit,
    Iron,
    Rum,
}

impl BoxType {
    /// The weight of one crate of this kind, a fact derived from the tag.
    pub open spec fn weight_spec(self) -> u64 {
        match self {
            BoxType::Glassware => 8,
            BoxType::Grapes => 4,
            BoxType::Apples => 5,
            BoxType::Wheat => 3,
            BoxType::Honey => 6,
            BoxType::Beer => 12,
            BoxType::Cider => 11,
            BoxType::Mead => 13,
            BoxType::Wine => 12,
            BoxType::MedicalSupplies => 7,
            BoxType::Fruit => 5,
            BoxType::Iron => 20,
            BoxType::Rum => 9,
        }
    }

    /// The volume of one crate of this kind, a fact derived from the tag.
    pub open spec fn volume_spec(self) -> u64 {
        match self {
            BoxType::Glassware => 10,
            BoxType::Grapes => 6,
            BoxType::Apples => 6,
            BoxType::Wheat => 8,
            BoxType::Honey => 4,
            BoxType::Beer => 9,
            BoxType::Cider => 9,
            BoxType::Mead => 7,
            BoxType::Wine => 8,
            BoxType::MedicalSupplies => 12,
            BoxType::Fruit => 7,
            BoxType::Iron => 5,
            BoxType::Rum => 6,
        }
    }

    /// Executable form of `weight_spec`. No kind weighs more than 20.
    pub fn weight(self) -> (w: u64)
        ensures
            w == self.weight_spec(),
            0 < w <= 20,
    {
        match self {
            BoxType::Glassware => 8,
            BoxType::Grapes => 4,
            BoxType::Apples => 5,
            BoxType::Wheat => 3,
            BoxType::Honey => 6,
            BoxType::Beer => 12,
            BoxType::Cider => 11,
            BoxType::Mead => 13,
            BoxType::Wine => 12,
            BoxType::MedicalSupplies => 7,
            BoxType::Fruit => 5,
            BoxType::Iron => 20,
            BoxType::Rum => 9,
        }
    }

    /// Executable form of `volume_spec`. No kind fills more than 20.
    pub fn volume(self) -> (v: u64)
        ensures
            v == self.volume_spec(),
            0 < v <= 20,
    {
        match self {
            BoxType::Glassware => 10,
            BoxType::Grapes => 6,
            BoxType::Apples => 6,
            BoxType::Wheat => 8,
            BoxType::Honey => 4,
            BoxType::Beer => 9,
            BoxType::Cider => 9,
            BoxType::Mead => 7,
            BoxType::Wine => 8,
            BoxType::MedicalSupplies => 12,
            BoxType::Fruit => 7,
            BoxType::Iron => 5,
            BoxType::Rum => 6,
        }
    }
}

/// What the demand pool holds, in order. Kinds that should be demanded
/// more often appear more than once.
pub open spec fn box_demands_spec() -> Seq<BoxType> {
    seq![
        BoxType::Apples,
        BoxType::Grapes,
        BoxType::Honey,
        BoxType::Wheat,
        BoxType::Cider,
        BoxType::Cider,
        BoxType::Cider,
        BoxType::Wine,
        BoxType::Wine,
        BoxType::Wine,
        BoxType::Mead,
        BoxType::Mead,
        BoxType::Mead,
        BoxType::Beer,
        BoxType::Beer,
        BoxType::Beer,
    ]
}

/// The pool a ship request draws its demands from.
pub fn box_demands() -> (pool: Vec<BoxType>)
    ensures
        pool@ == box_demands_spec(),
{
    let mut pool: Vec<BoxType> = Vec::new();
    pool.push(BoxType::Apples);
    pool.push(BoxType::Grapes);
    pool.push(BoxType::Honey);
    pool.push(BoxType::Wheat);
    pool.push(BoxType::Cider);
    pool.push(BoxType::Cider);
    pool.push(BoxType::Cider);
    pool.push(BoxType::Wine);
    pool.push(BoxType::Wine);
    pool.push(BoxType::Wine);
    pool.push(BoxType::Mead);
    pool.push(BoxType::Mead);
    pool.push(BoxType::Mead);
    pool.push(BoxType::Beer);
    pool.push(BoxType::Beer);
    pool.push(BoxType::Beer);
    proof {
        assert(pool@ =~= box_demands_spec());
    }
    pool
}

} // verus!
