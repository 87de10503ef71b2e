//! The seeder capability: a source of seed material for random generators.
//!
//! The core imposes nothing on where seeds come from; a binding layer wraps
//! externally supplied seed material into this same capability.

use vstd::prelude::*;

verus! {

/// A random seed.
#[derive(Clone, Copy, Debug, PartialEq, Eq, Structural)]
pub struct Seed(pub u128);

/// A source of seeds, implemented by callers: a hardware source, a binding
/// layer handing in external seed material, or a fixed value for tests.
pub trait Seeder {
    /// Returns the next seed.
    fn seed(&mut self) -> Seed;

    /// Whether this seeder can be used on the current target.
    fn is_available() -> bool;
}

/// A seeder that always hands out the one seed it was built with.
pub struct ConstantSeeder {
    seed: Seed,
}

impl ConstantSeeder {
    /// The seed the seeder was built with.
    pub closed spec fn spec_seed(&self) -> Seed {
        self.seed
    }

    /// Builds a seeder that will always hand out `seed`.
    pub fn new(seed: Seed) -> (s: ConstantSeeder)
        ensures
            s.spec_seed() == seed,
    {
        ConstantSeeder { seed }
    }
}

impl Seeder for ConstantSeeder {
    fn seed(&mut self) -> Seed {
        self.seed
    }

    fn is_available() -> bool {
        true
    }
}

} // verus!
