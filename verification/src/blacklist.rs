//! The exclusion set: world-object type ids that are never interacted with.

use std::collections::HashSet;
use vstd::prelude::*;

verus! {

/// World-object type ids that are unsuitable for automatic interaction.
pub const BLACKLISTED_OBJECTS: [u32; 4] = [179830, 179831, 179785, 179786];

/// The exclusion set as a mathematical set.
pub open spec fn blacklisted_ids() -> Set<u32> {
    set![179830u32, 179831u32, 179785u32, 179786u32]
}

/// The exclusion set holds four distinct ids.
pub proof fn lemma_blacklist_size()
    ensures
        blacklisted_ids().finite(),
        blacklisted_ids().len() == 4,
{
    let s0 = Set::<u32>::empty();
    let s1 = s0.insert(179830u32);
    let s2 = s1.insert(179831u32);
    let s3 = s2.insert(179785u32);
    let s4 = s3.insert(179786u32);
    assert(s1.len() == 1);
    assert(s2.len() == 2);
    assert(s3.len() == 3);
    assert(s4.len() == 4);
    assert(blacklisted_ids() =~= s4);
}

/// Whether a world-object type id is in the exclusion set.
pub fn is_blacklisted(id: u32) -> (listed: bool)
    ensures
        listed == blacklisted_ids().contains(id),
{
    let mut i: usize = 0;
    while i < BLACKLISTED_OBJECTS.len()
        invariant
            i <= 4,
            forall|j: int| 0 <= j < i ==> BLACKLISTED_OBJECTS@[j] != id,
        decreases 4 - i,
    {
        if BLACKLISTED_OBJECTS[i] == id {
            return true;
        }
        i += 1;
    }
    false
}

/// The exclusion set as a lookup structure, built afresh.
pub fn get_blacklist() -> (set: HashSet<u32>)
    ensures
        set@ == blacklisted_ids(),
        set@.finite(),
        set@.len() == 4,
{
    broadcast use vstd::std_specs::hash::group_hash_axioms;
    let mut set: HashSet<u32> = HashSet::new();
    let mut i: usize = 0;
    while i < BLACKLISTED_OBJECTS.len()
        invariant
            i <= 4,
            forall|id: u32|
                set@.contains(id) <==> exists|j: int|
                    0 <= j < i && BLACKLISTED_OBJECTS@[j] == id,
        decreases 4 - i,
    {
        set.insert(BLACKLISTED_OBJECTS[i]);
        i += 1;
    }
    proof {
        lemma_blacklist_size();
    }
    set
}

} // verus!
