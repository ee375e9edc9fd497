//! Carrying things: who may pick up, drop and throw, and what happens to a
//! carried item when its carrier lets go.
use vstd::prelude::*;
use crate::utils::random_bool;

verus! {

/// What a character may do with items, and the item it carries, by
/// entity id.
#[derive(Clone, Copy, Debug, PartialEq, Eq, Structural)]
pub struct CanItemBasics {
    pub pick_up: bool,
    pub drop: bool,
    pub throw: bool,
    pub picked_up: Option<u64>,
}

/// What may be done with an item: picked up, dropped, thrown.
#[derive(Clone, Copy, Debug, PartialEq, Eq, Structural)]
pub struct CanBeItemBasics {
    pub pick_up: bool,
    pub drop: bool,
    pub throw: bool,
}

/// How a carrier lets go of its item.
#[derive(Clone, Copy, Debug, PartialEq, Eq, Structural)]
pub enum Release {
    Drop,
    Throw,
    Keep,
}

/// How a carrier lets go, for a given coin flip: when both dropping and
/// throwing are allowed to both of them, the coin decides (heads drops);
/// when only one is, that one; else the item stays carried.
pub open spec fn release_of(can: CanItemBasics, can_be: CanBeItemBasics, coin: bool) -> Release {
    let drop = can.drop && can_be.drop;
    let throw = can.throw && can_be.throw;
    if (drop && throw && coin) || (drop && !throw) {
        Release::Drop
    } else if throw {
        Release::Throw
    } else {
        Release::Keep
    }
}

impl CanItemBasics {
    /// Lets go of the carried item as `release_of` says for `coin`. After a
    /// drop or a throw the carrier holds nothing and the item may be picked
    /// up again.
    pub fn release_with(&mut self, can_be: &mut CanBeItemBasics, coin: bool) -> (r: Release)
        ensures
            r == release_of(*old(self), *old(can_be), coin),
            r == Release::Keep ==> *final(self) == *old(self) && *final(can_be) == *old(can_be),
            r != Release::Keep ==> *final(self) == (CanItemBasics { picked_up: None, ..*old(self) })
                && *final(can_be) == (CanBeItemBasics { pick_up: true, ..*old(can_be) }),
    {
        let drop = self.drop && can_be.drop;
        let throw = self.throw && can_be.throw;
        if (drop && throw && coin) || (drop && !throw) {
            self.picked_up = None;
            can_be.pick_up = true;
            Release::Drop
        } else if throw {
            self.picked_up = None;
            can_be.pick_up = true;
            Release::Throw
        } else {
            Release::Keep
        }
    }

    /// Lets go of the carried item, flipping a coin where both ways are
    /// open.
    pub fn release(&mut self, can_be: &mut CanBeItemBasics) -> (r: Release)
        ensures
            exists|coin: bool| r == release_of(*old(self), *old(can_be), coin),
            r == Release::Keep ==> *final(self) == *old(self) && *final(can_be) == *old(can_be),
            r != Release::Keep ==> *final(self) == (CanItemBasics { picked_up: None, ..*old(self) })
                && *final(can_be) == (CanBeItemBasics { pick_up: true, ..*old(can_be) }),
    {
        let coin = random_bool();
        self.release_with(can_be, coin)
    }

    /// Picks up item `item`, which must allow it; it then may not be picked
    /// up by anyone else.
    pub fn pick(&mut self, item: u64, can_be: &mut CanBeItemBasics)
        ensures
            *final(self) == (CanItemBasics { picked_up: Some(item), ..*old(self) }),
            *final(can_be) == (CanBeItemBasics { pick_up: false, ..*old(can_be) }),
    {
        self.picked_up = Some(item);
        can_be.pick_up = false;
    }
}

/// The first item of `items` that may be picked up, if any.
pub fn first_pickable(items: &Vec<CanBeItemBasics>) -> (r: Option<usize>)
    ensures
        r matches Some(i) ==> i < items@.len() && items@[i as int].pick_up && forall|k: int|
            0 <= k < i ==> !items@[k].pick_up,
        r is None ==> forall|k: int| 0 <= k < items@.len() ==> !items@[k].pick_up,
{
    let mut i: usize = 0;
    while i < items.len()
        invariant
            i <= items@.len(),
            forall|k: int| 0 <= k < i ==> !items@[k].pick_up,
        decreases items@.len() - i,
    {
        if items[i].pick_up {
            return Some(i);
        }
        i = i + 1;
    }
    None
}

} // verus!
