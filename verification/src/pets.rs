//! The kinds of pet a record can carry.
use std::collections::HashMap;
use vstd::prelude::*;

verus! {

broadcast use vstd::std_specs::hash::group_hash_axioms;

/// The kinds a pet record distinguishes.
#[derive(Clone, Debug, PartialEq, Eq, Structural)]
pub enum PetType {
    Cat,
    Dog,
    Lizard,
    Horse,
}

/// The fixed numbering of pet kinds used by stored records and forms.
pub fn types() -> (r: HashMap<u32, PetType>)
    ensures
        r@ == map![1u32 => PetType::Cat, 2u32 => PetType::Dog, 3u32 => PetType::Lizard, 4u32 => PetType::Horse],
{
    let mut m: HashMap<u32, PetType> = HashMap::new();
    m.insert(1, PetType::Cat);
    m.insert(2, PetType::Dog);
    m.insert(3, PetType::Lizard);
    m.insert(4, PetType::Horse);
    proof {
        assert(m@ =~= map![1u32 => PetType::Cat, 2u32 => PetType::Dog, 3u32 => PetType::Lizard, 4u32 => PetType::Horse]);
    }
    m
}

} // verus!
