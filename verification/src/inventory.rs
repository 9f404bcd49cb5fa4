//! The player's item counters.
//!
//! Food and Treasure are scalar counters; the remaining kinds live in a
//! small multiset. Counts never go negative, and `take_n` is atomic: it
//! fails without mutating when the stock is short.

use vstd::prelude::*;

verus! {

broadcast use
    vstd::seq_lib::group_to_multiset_ensures,
    vstd::multiset::group_multiset_axioms,
    vstd::multiset::group_multiset_properties;

/// The closed set of things a player can carry.
#[derive(Clone, Copy, PartialEq, Eq, Structural, Debug)]
pub enum Item {
    Food,
    Treasure,
    MapScroll,
    Key,
}

#[derive(Debug)]
pub struct Inventory {
    items: Vec<Item>,
    treasure: usize,
    food: usize,
}

impl Inventory {
    /// How many units of `item` are held.
    pub closed spec fn spec_count(self, item: Item) -> nat {
        match item {
            Item::Treasure => self.treasure as nat,
            Item::Food => self.food as nat,
            _ => self.items@.to_multiset().count(item),
        }
    }

    pub fn new() -> (r: Inventory)
        ensures
            forall|it: Item| r.spec_count(it) == 0,
    {
        let r = Inventory { items: Vec::new(), treasure: 0, food: 0 };
        proof {
            broadcast use vstd::seq_lib::group_to_multiset_ensures;

            assert(forall|it: Item| !r.items@.contains(it));
        }
        r
    }

    pub fn add(&mut self, item: Item)
        requires
            old(self).spec_count(item) < usize::MAX,
        ensures
            forall|it: Item|
                final (self).spec_count(it) == old(self).spec_count(it) + (if it == item {
                    1int
                } else {
                    0int
                }),
    {
        self.add_n(item, 1)
    }

    pub fn add_n(&mut self, item: Item, n: usize)
        requires
            old(self).spec_count(item) + n <= usize::MAX,
        ensures
            forall|it: Item|
                final (self).spec_count(it) == old(self).spec_count(it) + (if it == item {
                    n as int
                } else {
                    0int
                }),
    {
        proof {
            broadcast use vstd::seq_lib::group_to_multiset_ensures;

        }
        match item {
            Item::Treasure => {
                self.treasure = self.treasure + n;
            },
            Item::Food => {
                self.food = self.food + n;
            },
            _ => {
                let mut k: usize = 0;
                while k < n
                    invariant
                        k <= n,
                        old(self).spec_count(item) + n <= usize::MAX,
                        item != Item::Food && item != Item::Treasure,
                        self.treasure == old(self).treasure,
                        self.food == old(self).food,
                        self.items@.to_multiset().count(item) == old(
                            self,
                        ).items@.to_multiset().count(item) + k,
                        forall|it: Item|
                            it != item ==> self.items@.to_multiset().count(it) == old(
                                self,
                            ).items@.to_multiset().count(it),
                    decreases n - k,
                {
                    let ghost before = self.items@;
                    self.items.push(item);
                    proof {
                        assert(self.items@.to_multiset() =~= before.to_multiset().insert(item));
                        assert forall|it: Item| it != item implies self.items@.to_multiset().count(
                            it,
                        ) == before.to_multiset().count(it) by {
                            vstd::multiset::lemma_insert_other_elements_unchanged(
                                before.to_multiset(),
                                item,
                                it,
                            );
                        }
                        vstd::multiset::lemma_insert_increases_count_by_1(
                            before.to_multiset(),
                            item,
                        );
                    }
                    k = k + 1;
                }
            },
        }
    }

    pub fn take(&mut self, item: Item) -> (r: bool)
        ensures
            r == (old(self).spec_count(item) >= 1),
            r ==> forall|it: Item|
                final (self).spec_count(it) == old(self).spec_count(it) - (if it == item {
                    1int
                } else {
                    0int
                }),
            !r ==> *final (self) == *old(self),
    {
        self.take_n(item, 1)
    }

    /// Atomic removal: either the full `n` units leave the inventory, or
    /// nothing changes at all.
    pub fn take_n(&mut self, item: Item, n: usize) -> (r: bool)
        ensures
            r == (old(self).spec_count(item) >= n),
            r ==> forall|it: Item|
                final (self).spec_count(it) == old(self).spec_count(it) - (if it == item {
                    n as int
                } else {
                    0int
                }),
            !r ==> *final (self) == *old(self),
    {
        if self.count(item) < n {
            return false;
        }
        match item {
            Item::Treasure => {
                self.treasure = self.treasure - n;
            },
            Item::Food => {
                self.food = self.food - n;
            },
            _ => {
                let mut k: usize = 0;
                while k < n
                    invariant
                        k <= n,
                        old(self).spec_count(item) >= n,
                        item != Item::Food && item != Item::Treasure,
                        self.treasure == old(self).treasure,
                        self.food == old(self).food,
                        self.items@.to_multiset().count(item) + k == old(
                            self,
                        ).items@.to_multiset().count(item),
                        forall|it: Item|
                            it != item ==> self.items@.to_multiset().count(it) == old(
                                self,
                            ).items@.to_multiset().count(it),
                    decreases n - k,
                {
                    let i = self.index_of_item(item);
                    let ghost before = self.items@;
                    self.items.remove(i);
                    proof {
                        assert(self.items@ == before.remove(i as int));
                        assert(self.items@.to_multiset() =~= before.to_multiset().remove(item));
                        assert(before.to_multiset().count(item) > 0) by {
                            assert(before.contains(item));
                        }
                        assert forall|it: Item|
                            self.items@.to_multiset().count(it) == before.to_multiset().count(it)
                                - (if it == item {
                                1int
                            } else {
                                0int
                            }) by {
                            assert(before.to_multiset().remove(item).count(it)
                                == before.to_multiset().sub(
                                vstd::multiset::Multiset::singleton(item),
                            ).count(it));
                        }
                    }
                    k = k + 1;
                }
            },
        }
        true
    }

    /// The index of one held copy of `item` in the backing list.
    fn index_of_item(&self, item: Item) -> (r: usize)
        requires
            item != Item::Food && item != Item::Treasure,
            self.spec_count(item) >= 1,
        ensures
            r < self.items@.len(),
            self.items@[r as int] == item,
    {
        proof {
            broadcast use vstd::seq_lib::group_to_multiset_ensures;

            assert(self.items@.contains(item));
        }
        let n = self.items.len();
        let mut i: usize = 0;
        while i < n
            invariant
                i <= n,
                n == self.items@.len(),
                exists|j: int| 0 <= j < n && self.items@[j] == item,
                forall|j: int| 0 <= j < i ==> self.items@[j] != item,
            decreases n - i,
        {
            if self.items[i] == item {
                return i;
            }
            i = i + 1;
        }
        proof {
            assert(false);
        }
        0
    }

    pub fn count(&self, item: Item) -> (r: usize)
        ensures
            r == self.spec_count(item),
    {
        match item {
            Item::Treasure => self.treasure,
            Item::Food => self.food,
            _ => {
                let n = self.items.len();
                let mut c: usize = 0;
                let mut i: usize = 0;
                while i < n
                    invariant
                        i <= n,
                        c <= i,
                        n == self.items@.len(),
                        c == self.items@.subrange(0, i as int).to_multiset().count(item),
                    decreases n - i,
                {
                    proof {
                        broadcast use vstd::seq_lib::group_to_multiset_ensures;

                        assert(self.items@.subrange(0, i + 1) =~= self.items@.subrange(
                            0,
                            i as int,
                        ).push(self.items@[i as int]));
                        assert(self.items@.subrange(0, i as int).to_multiset().count(item)
                            <= self.items@.subrange(0, i as int).to_multiset().len());
                    }
                    if self.items[i] == item {
                        c = c + 1;
                    }
                    i = i + 1;
                }
                proof {
                    assert(self.items@.subrange(0, n as int) =~= self.items@);
                }
                c
            },
        }
    }

    pub fn has(&self, item: Item) -> (r: bool)
        ensures
            r == (self.spec_count(item) >= 1),
    {
        self.count(item) > 0
    }
}

/// Counts are natural numbers: no sequence of adds and takes can drive
/// one below zero.
pub proof fn lemma_count_never_negative(inv: Inventory, item: Item)
    ensures
        inv.spec_count(item) >= 0,
{
}

} // verus!
