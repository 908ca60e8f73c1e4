//! Counting what is in use against a limit.
use vstd::prelude::*;

verus! {

/// One place among those that a limit allows. It is given back with `release`.
#[derive(Debug)]
pub struct CapacityGuard {
    taken: bool,
}

/// Whether a place is free.
pub open spec fn has_room(active: int, limit: int) -> bool {
    active < limit
}

/// How many places are taken after one more was asked for.
pub open spec fn entered(active: int, limit: int) -> int {
    if has_room(active, limit) {
        active + 1
    } else {
        active
    }
}

/// How many places are taken after one was given back.
pub open spec fn left(active: int) -> int {
    active - 1
}

/// What happens to places.
pub enum PlaceStep {
    /// One is asked for.
    Enter,
    /// One that was given out is given back; nothing happens where none is given out.
    Leave,
}

/// The count of the places that are taken, and the guards that are held.
pub struct Places {
    pub active: int,
    pub live: int,
}

/// The places after some steps, of which none was taken at first.
pub open spec fn after_steps(steps: Seq<PlaceStep>, limit: int) -> Places
    decreases steps.len(),
{
    if steps.len() == 0 {
        Places { active: 0, live: 0 }
    } else {
        let before = after_steps(steps.drop_last(), limit);
        match steps.last() {
            PlaceStep::Enter => Places {
                active: entered(before.active, limit),
                live: if has_room(before.active, limit) {
                    before.live + 1
                } else {
                    before.live
                },
            },
            PlaceStep::Leave => if before.live > 0 {
                Places { active: left(before.active), live: before.live - 1 }
            } else {
                before
            },
        }
    }
}

/// After any places were asked for and given back, in whatever order, as many are taken as guards
/// are held, and never more than the limit. A place is refused only while as many guards are held
/// as the limit allows, and giving one back frees its place.
pub proof fn law_taken_places_are_held(steps: Seq<PlaceStep>, limit: int)
    requires
        0 <= limit,
    ensures
        ({
            let places = after_steps(steps, limit);
            &&& places.active == places.live
            &&& 0 <= places.live <= limit
            &&& !has_room(places.active, limit) <==> places.live == limit
            &&& places.live > 0 ==> has_room(left(places.active), limit)
        }),
    decreases steps.len(),
{
    if steps.len() > 0 {
        law_taken_places_are_held(steps.drop_last(), limit);
    }
}

impl CapacityGuard {
    /// Gives the place back.
    pub fn release(self, active: &mut usize)
        requires
            *old(active) > 0,
        ensures
            *final(active) == left(*old(active) as int),
    {
        *active -= 1;
    }
}

/// Takes a place where fewer than `limit` are taken.
pub(crate) fn try_enter_capacity(active: &mut usize, limit: usize) -> (r: Option<CapacityGuard>)
    ensures
        r is Some <==> has_room(*old(active) as int, limit as int),
        *final(active) == entered(*old(active) as int, limit as int),
{
    if *active >= limit {
        return None;
    }
    *active += 1;
    Some(CapacityGuard { taken: true })
}

/// A place is taken exactly where fewer are taken than there are, and giving it back undoes that.
pub proof fn law_place_taken_and_given_back(active: int, limit: int)
    ensures
        active < limit ==> entered(active, limit) == active + 1 && left(entered(active, limit))
            == active,
        active >= limit ==> entered(active, limit) == active,
        active <= limit ==> entered(active, limit) <= limit,
        has_room(active, limit) <==> active < limit,
{
}

} // verus!
