//! Inventories: bags of items, where several of one kind may be held.
use vstd::prelude::*;

verus! {

/// A kind of item, named by the id under which its description is stored.
#[derive(Clone, Copy, Debug, Default, PartialEq, Eq, Hash, Structural)]
pub struct ItemKind(pub u64);

/// The item kinds that the game's recipes use.
#[derive(Clone, Copy, Debug)]
pub struct Items {
    pub fish: ItemKind,
    pub baked_fish: ItemKind,
}

/// The items one holder carries, in the order they were put in.
#[derive(Clone, Debug, Default)]
pub struct Inventory {
    pub items: Vec<ItemKind>,
}

/// The first position of `item` in `s`, if any.
pub open spec fn first_pos(s: Seq<ItemKind>, item: ItemKind) -> Option<usize> {
    if s.contains(item) {
        Some(choose|i: usize| i < s.len() && s[i as int] == item && forall|k: int| 0 <= k < i ==> s[k] != item)
    } else {
        None
    }
}

/// Whether an item is of kind `item`.
pub open spec fn is_kind(item: ItemKind) -> spec_fn(ItemKind) -> bool {
    |it: ItemKind| it == item
}

/// How many times `item` occurs in `s`.
pub open spec fn count_of(s: Seq<ItemKind>, item: ItemKind) -> nat {
    s.filter(is_kind(item)).len()
}

impl Inventory {
    /// Makes an empty inventory.
    pub fn new() -> (r: Inventory)
        ensures
            r.items@ == Seq::<ItemKind>::empty(),
    {
        Inventory { items: Vec::new() }
    }

    /// Whether one `item` is held.
    pub fn has(&self, item: &ItemKind) -> (r: bool)
        ensures
            r == self.items@.contains(*item),
    {
        self.pos(item).is_some()
    }

    /// Removes the first `item` held, if any; the others keep their order.
    pub fn take(&mut self, item: &ItemKind)
        ensures
            old(self).items@.contains(*item) ==> final(self).items@ == old(self).items@.remove(
                first_pos(old(self).items@, *item).unwrap() as int,
            ),
            !old(self).items@.contains(*item) ==> final(self).items@ == old(self).items@,
    {
        if let Some(pos) = self.pos(item) {
            self.items.remove(pos);
        }
    }

    /// Adds one `item` at the end.
    pub fn put(&mut self, item: &ItemKind)
        ensures
            final(self).items@ == old(self).items@.push(*item),
    {
        self.items.push(*item);
    }

    /// How many `item` are held.
    pub fn count(&self, item: &ItemKind) -> (r: usize)
        ensures
            r == count_of(self.items@, *item),
    {
        let ghost pred = is_kind(*item);
        let ghost s = self.items@;
        let mut n: usize = 0;
        let mut i: usize = 0;
        assert(s.take(0) =~= Seq::<ItemKind>::empty());
        while i < self.items.len()
            invariant
                s == self.items@,
                i <= s.len(),
                pred == is_kind(*item),
                n == s.take(i as int).filter(pred).len(),
                n <= i,
            decreases s.len() - i,
        {
            proof {
                assert(s.take(i + 1) =~= s.take(i as int).push(s[i as int]));
                s.take(i as int).lemma_filter_push(s[i as int], pred);
            }
            if self.items[i] == *item {
                n = n + 1;
            }
            i = i + 1;
        }
        assert(s.take(s.len() as int) =~= s);
        n
    }

    /// The first position of `item`, if it is held.
    fn pos(&self, item: &ItemKind) -> (r: Option<usize>)
        ensures
            r == first_pos(self.items@, *item),
            r matches Some(i) ==> i < self.items@.len(),
    {
        let ghost s = self.items@;
        let mut i: usize = 0;
        while i < self.items.len()
            invariant
                s == self.items@,
                i <= s.len(),
                forall|k: int| 0 <= k < i ==> s[k] != *item,
            decreases s.len() - i,
        {
            if self.items[i] == *item {
                proof {
                    assert(i < s.len() && s[i as int] == *item && forall|k: int| 0 <= k < i ==> s[k] != *item);
                    let j = choose|j: usize|
                        j < s.len() && s[j as int] == *item && forall|k: int| 0 <= k < j ==> s[k] != *item;
                    assert(j == i) by {
                        if j < i {
                            assert(s[j as int] != *item);
                        } else if j > i {
                            assert(s[i as int] != *item);
                        }
                    }
                }
                return Some(i);
            }
            i = i + 1;
        }
        None
    }
}

/// Putting an item in raises its count by one.
pub proof fn lemma_put_count(s: Seq<ItemKind>, item: ItemKind)
    ensures
        count_of(s.push(item), item) == count_of(s, item) + 1,
{
    let pred = is_kind(item);
    s.lemma_filter_push(item, pred);
}

} // verus!
