//! Entity identifiers.

use vstd::prelude::*;

verus! {

/// A stable identifier of an entity in the scene store. The library never
/// looks inside it; it only compares identifiers.
#[derive(Clone, Copy, Debug, PartialEq, Eq, Structural)]
pub struct Entity {
    pub bits: u64,
}

impl Entity {
    /// The entity with the given identifier.
    pub fn from_bits(bits: u64) -> (entity: Entity)
        ensures
            entity.bits == bits,
    {
        Entity { bits }
    }

    /// The identifier of this entity.
    pub fn to_bits(&self) -> (bits: u64)
        ensures
            bits == self.bits,
    {
        self.bits
    }
}

} // verus!
