//! The recipe table: unordered pairs of input kinds mapped to one output
//! kind. A pair and its mirror image are the same recipe.

use vstd::prelude::*;
use crate::kinds::BoxType;

verus! {

/// An unordered pair of input kinds. `RecipeInputs(a, b)` and
/// `RecipeInputs(b, a)` compare equal.
#[derive(Clone, Copy, Debug)]
pub struct RecipeInputs(pub BoxType, pub BoxType);

impl RecipeInputs {
    /// A pair exists only when both input slots are filled.
    pub fn from_inputs(inputs: &[Option<BoxType>; 2]) -> (r: Option<RecipeInputs>)
        ensures
            r matches Some(k) ==> inputs[0] == Some(k.0) && inputs[1] == Some(k.1),
            r is None <==> (inputs[0] is None || inputs[1] is None),
    {
        match (inputs[0], inputs[1]) {
            (Some(a), Some(b)) => Some(RecipeInputs(a, b)),
            _ => None,
        }
    }
}

impl PartialEq for RecipeInputs {
    fn eq(&self, other: &Self) -> (r: bool) {
        (self.0 == other.0 && self.1 == other.1) || (self.1 == other.0 && self.0 == other.1)
    }
}

impl Eq for RecipeInputs {}

impl vstd::std_specs::cmp::PartialEqSpecImpl for RecipeInputs {
    open spec fn obeys_eq_spec() -> bool {
        true
    }

    open spec fn eq_spec(&self, other: &Self) -> bool {
        (self.0 == other.0 && self.1 == other.1) || (self.1 == other.0 && self.0 == other.1)
    }
}

/// Does the table key `k` stand for the unordered pair `{a, b}`?
pub open spec fn key_matches(k: RecipeInputs, a: BoxType, b: BoxType) -> bool {
    (k.0 == a && k.1 == b) || (k.0 == b && k.1 == a)
}

/// The output of the first table entry whose key stands for `{a, b}`,
/// or `None` when no entry does.
pub open spec fn lookup_seq(s: Seq<(RecipeInputs, BoxType)>, a: BoxType, b: BoxType) -> Option<BoxType>
    decreases s.len(),
{
    if s.len() == 0 {
        None
    } else if key_matches(s[0].0, a, b) {
        Some(s[0].1)
    } else {
        lookup_seq(s.drop_first(), a, b)
    }
}

/// Recipe symmetry: a pair of kinds and its mirror image look up the same
/// output in any recipe table.
pub proof fn lemma_recipe_symmetry(s: Seq<(RecipeInputs, BoxType)>, a: BoxType, b: BoxType)
    ensures
        lookup_seq(s, a, b) == lookup_seq(s, b, a),
    decreases s.len(),
{
    if s.len() > 0 {
        lemma_recipe_symmetry(s.drop_first(), a, b);
    }
}

/// The entries of the standard recipe table: glassware plus a raw good
/// makes the bottled good.
pub open spec fn default_recipes() -> Seq<(RecipeInputs, BoxType)> {
    seq![
        (RecipeInputs(BoxType::Glassware, BoxType::Wheat), BoxType::Beer),
        (RecipeInputs(BoxType::Glassware, BoxType::Grapes), BoxType::Wine),
        (RecipeInputs(BoxType::Glassware, BoxType::Apples), BoxType::Cider),
        (RecipeInputs(BoxType::Glassware, BoxType::Honey), BoxType::Mead),
    ]
}

/// The read-only recipe table, populated once at startup.
pub struct Recipes(pub Vec<(RecipeInputs, BoxType)>);

impl Recipes {
    /// The unique output for an unordered pair of filled inputs, or `None`
    /// when a slot is empty or no recipe exists. Absence is not an error:
    /// it is the "wasted combination" outcome the factory consumes.
    pub fn get_output(&self, inputs: &[Option<BoxType>; 2]) -> (r: Option<BoxType>)
        ensures
            (inputs[0] is None || inputs[1] is None) ==> r is None,
            (inputs[0] is Some && inputs[1] is Some)
                ==> r == lookup_seq(self.0@, inputs[0].unwrap(), inputs[1].unwrap()),
    {
        let key = match RecipeInputs::from_inputs(inputs) {
            Some(k) => k,
            None => {
                return None;
            },
        };

        let ghost table = self.0@;
        proof {
            assert(table.skip(0) =~= table);
        }
        let mut i: usize = 0;
        #[verifier::loop_isolation(false)]
        while i < self.0.len()
            invariant
                0 <= i <= self.0.len(),
                table == self.0@,
                lookup_seq(table, key.0, key.1) == lookup_seq(table.skip(i as int), key.0, key.1),
            decreases self.0.len() - i,
        {
            let entry = self.0[i];
            if entry.0 == key {
                proof {
                    assert(table.skip(i as int)[0] == table[i as int]);
                }
                return Some(entry.1);
            }
            proof {
                assert(table.skip(i as int).drop_first() =~= table.skip(i as int + 1));
            }
            i = i + 1;
        }
        proof {
            assert(table.skip(i as int).len() == 0);
        }
        None
    }
}

impl Default for Recipes {
    /// The standard table of four recipes.
    fn default() -> (r: Self)
        ensures
            r.0@ == default_recipes(),
    {
        let mut entries: Vec<(RecipeInputs, BoxType)> = Vec::new();
        entries.push((RecipeInputs(BoxType::Glassware, BoxType::Wheat), BoxType::Beer));
        entries.push((RecipeInputs(BoxType::Glassware, BoxType::Grapes), BoxType::Wine));
        entries.push((RecipeInputs(BoxType::Glassware, BoxType::Apples), BoxType::Cider));
        entries.push((RecipeInputs(BoxType::Glassware, BoxType::Honey), BoxType::Mead));
        proof {
            assert(entries@ =~= default_recipes());
        }
        Recipes(entries)
    }
}

} // verus!
