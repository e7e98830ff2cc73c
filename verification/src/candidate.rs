//! The best entity found so far for one priority class.

use crate::distance::INITIAL_DISTANCE;
use crate::object_type::ObjectType;
use vstd::prelude::*;

verus! {

/// Best-so-far entity of one priority class.
///
/// A candidate is valid once an entity has been recorded into it; until then
/// its kind is `NoObject` and its distance is `INITIAL_DISTANCE`.
#[derive(Debug, Clone, Copy, PartialEq, Eq, Structural)]
pub struct Candidate {
    pub guid: u64,
    pub pointer: u32,
    pub obj_type: ObjectType,
    pub distance: u32,
}

impl Candidate {
    /// The candidate that holds no entity.
    pub open spec fn fresh() -> Candidate {
        Candidate {
            guid: 0,
            pointer: 0,
            obj_type: ObjectType::NoObject,
            distance: INITIAL_DISTANCE,
        }
    }

    /// Whether an entity has been recorded.
    pub open spec fn valid(self) -> bool {
        self.obj_type != ObjectType::NoObject
    }

    /// The candidate after `offer` was put to it: the offer if it is strictly
    /// closer, else the incumbent.
    pub open spec fn updated(self, offer: Candidate) -> Candidate {
        if offer.distance < self.distance {
            offer
        } else {
            self
        }
    }

    /// A candidate that holds no entity.
    pub fn new() -> (candidate: Candidate)
        ensures
            candidate == Candidate::fresh(),
            !candidate.valid(),
    {
        Candidate {
            guid: 0,
            pointer: 0,
            obj_type: ObjectType::NoObject,
            distance: INITIAL_DISTANCE,
        }
    }

    /// Whether an entity has been recorded.
    pub fn is_valid(&self) -> (valid: bool)
        ensures
            valid == self.valid(),
    {
        self.obj_type != ObjectType::NoObject
    }

    /// Records the given entity if it is strictly closer than the stored one.
    pub fn update(&mut self, guid: u64, pointer: u32, obj_type: ObjectType, distance: u32)
        ensures
            *final(self) == old(self).updated(Candidate { guid, pointer, obj_type, distance }),
            final(self).distance <= old(self).distance,
    {
        if distance < self.distance {
            self.guid = guid;
            self.pointer = pointer;
            self.obj_type = obj_type;
            self.distance = distance;
        }
    }
}

/// The candidate after a sequence of offers was put to it in order.
pub open spec fn updated_all(start: Candidate, offers: Seq<Candidate>) -> Candidate
    decreases offers.len(),
{
    if offers.len() == 0 {
        start
    } else {
        updated_all(start, offers.drop_last()).updated(offers.last())
    }
}

/// `offers[k]` beats `start`, is no farther than any offer, and is strictly
/// closer than every offer before it.
pub open spec fn is_first_nearest(start: Candidate, offers: Seq<Candidate>, k: int) -> bool {
    &&& 0 <= k < offers.len()
    &&& offers[k].distance < start.distance
    &&& forall|j: int|
        0 <= j < offers.len() ==> offers[k].distance <= (#[trigger] offers[j]).distance
    &&& forall|j: int| 0 <= j < k ==> offers[k].distance < (#[trigger] offers[j]).distance
}

/// One update never moves the stored distance up, and keeps either the
/// incumbent or the offer.
pub proof fn lemma_update_never_farther(candidate: Candidate, offer: Candidate)
    ensures
        candidate.updated(offer).distance <= candidate.distance,
        candidate.updated(offer).distance <= offer.distance,
        candidate.updated(offer) == candidate || candidate.updated(offer) == offer,
        offer.distance == candidate.distance ==> candidate.updated(offer) == candidate,
{
}

/// Over any sequence of updates the stored distance never increases: after
/// more offers it is at most what it was after fewer.
pub proof fn lemma_updates_monotonic(start: Candidate, offers: Seq<Candidate>, k: int)
    requires
        0 <= k <= offers.len(),
    ensures
        updated_all(start, offers).distance <= updated_all(start, offers.take(k)).distance,
    decreases offers.len(),
{
    if k == offers.len() {
        assert(offers.take(k) =~= offers);
    } else {
        assert(offers.drop_last().take(k) =~= offers.take(k));
        lemma_updates_monotonic(start, offers.drop_last(), k);
    }
}

/// After any sequence of updates the candidate holds the offer of minimum
/// distance, the first one among equals, provided that offer beats the
/// starting candidate; otherwise it still holds the starting candidate.
pub proof fn lemma_updates_keep_first_nearest(start: Candidate, offers: Seq<Candidate>)
    ensures
        (forall|i: int| 0 <= i < offers.len() ==> (#[trigger] offers[i]).distance >= start.distance)
            ==> updated_all(start, offers) == start,
        (exists|i: int| 0 <= i < offers.len() && (#[trigger] offers[i]).distance < start.distance)
            ==> exists|k: int| #[trigger]
            is_first_nearest(start, offers, k) && updated_all(start, offers) == offers[k],
    decreases offers.len(),
{
    if offers.len() > 0 {
        let init = offers.drop_last();
        let last = offers.last();
        let before = updated_all(start, init);
        lemma_updates_keep_first_nearest(start, init);
        assert(forall|i: int| 0 <= i < init.len() ==> init[i] == offers[i]);
        if exists|i: int| 0 <= i < init.len() && (#[trigger] init[i]).distance < start.distance {
            let k = choose|k: int| #[trigger]
                is_first_nearest(start, init, k) && before == init[k];
            if last.distance < before.distance {
                assert(is_first_nearest(start, offers, offers.len() - 1));
            } else {
                assert(is_first_nearest(start, offers, k));
            }
        } else {
            assert(before == start);
            if last.distance < start.distance {
                assert(is_first_nearest(start, offers, offers.len() - 1));
            } else {
                assert forall|i: int| 0 <= i < offers.len() implies (#[trigger] offers[i]).distance
                    >= start.distance by {
                    if i < init.len() {
                        assert(init[i] == offers[i]);
                    }
                }
            }
        }
    }
}

} // verus!
