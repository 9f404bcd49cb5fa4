//! A small association table keyed by `Location`, with a mathematical
//! map view. It backs both the room grid and the enemy registry.

use vstd::prelude::*;

use crate::geometry::Location;

verus! {

/// The mathematical map described by a sequence of key/value pairs;
/// later pairs win, though a well-formed table never repeats a key.
pub open spec fn map_of<V>(s: Seq<(Location, V)>) -> Map<Location, V>
    decreases s.len(),
{
    if s.len() == 0 {
        Map::empty()
    } else {
        map_of(s.drop_last()).insert(s.last().0, s.last().1)
    }
}

/// No key appears twice.
pub open spec fn distinct_keys<V>(s: Seq<(Location, V)>) -> bool {
    forall|i: int, j: int| 0 <= i < j < s.len() ==> (#[trigger] s[i]).0 != (#[trigger] s[j]).0
}

pub proof fn lemma_map_of_contains<V>(s: Seq<(Location, V)>, k: Location)
    ensures
        map_of(s).contains_key(k) <==> exists|i: int| 0 <= i < s.len() && (#[trigger] s[i]).0 == k,
    decreases s.len(),
{
    if s.len() > 0 {
        lemma_map_of_contains(s.drop_last(), k);
        if s.last().0 == k {
            assert(s[s.len() - 1].0 == k);
        } else {
            if exists|i: int| 0 <= i < s.len() && (#[trigger] s[i]).0 == k {
                let i = choose|i: int| 0 <= i < s.len() && (#[trigger] s[i]).0 == k;
                assert(i < s.len() - 1);
                assert(s.drop_last()[i].0 == k);
            }
        }
    }
}

pub proof fn lemma_map_of_index<V>(s: Seq<(Location, V)>, i: int)
    requires
        distinct_keys(s),
        0 <= i < s.len(),
    ensures
        map_of(s).contains_key(s[i].0),
        map_of(s)[s[i].0] == s[i].1,
    decreases s.len(),
{
    if i < s.len() - 1 {
        assert(distinct_keys(s.drop_last())) by {
            assert(forall|a: int, b: int|
                0 <= a < b < s.drop_last().len() ==> (#[trigger] s.drop_last()[a]).0 != (
                #[trigger] s.drop_last()[b]).0) by {
                assert(forall|a: int|
                    0 <= a < s.drop_last().len() ==> (#[trigger] s.drop_last()[a]) == s[a]);
            }
        }
        assert(s.drop_last()[i] == s[i]);
        lemma_map_of_index(s.drop_last(), i);
        assert(s.last().0 != s[i].0);
    }
}

/// Every key of the view appears in the sequence, and every entry of a
/// well-formed sequence is what the view holds for its key.
pub proof fn lemma_entries_agree<V>(s: Seq<(Location, V)>)
    requires
        distinct_keys(s),
    ensures
        forall|i: int|
            0 <= i < s.len() ==> map_of(s).contains_key((#[trigger] s[i]).0) && map_of(s)[s[i].0]
                == s[i].1,
        forall|k: Location|
            map_of(s).contains_key(k) ==> exists|i: int| 0 <= i < s.len() && (#[trigger] s[i]).0
                == k,
{
    assert forall|i: int| 0 <= i < s.len() implies map_of(s).contains_key((#[trigger] s[i]).0)
        && map_of(s)[s[i].0] == s[i].1 by {
        lemma_map_of_index(s, i);
    }
    assert forall|k: Location| map_of(s).contains_key(k) implies exists|i: int|
        0 <= i < s.len() && (#[trigger] s[i]).0 == k by {
        lemma_map_of_contains(s, k);
    }
}

pub proof fn lemma_map_of_update<V>(s: Seq<(Location, V)>, i: int, v: V)
    requires
        distinct_keys(s),
        0 <= i < s.len(),
    ensures
        map_of(s.update(i, (s[i].0, v))) == map_of(s).insert(s[i].0, v),
        distinct_keys(s.update(i, (s[i].0, v))),
    decreases s.len(),
{
    let t = s.update(i, (s[i].0, v));
    assert(forall|a: int| 0 <= a < s.len() && a != i ==> (#[trigger] t[a]) == s[a]);
    assert(distinct_keys(t));
    if i == s.len() - 1 {
        assert(t.drop_last() =~= s.drop_last());
        assert(t.last() == (s[i].0, v));
        assert(map_of(t) =~= map_of(s).insert(s[i].0, v));
    } else {
        assert(distinct_keys(s.drop_last())) by {
            assert(forall|a: int|
                0 <= a < s.drop_last().len() ==> (#[trigger] s.drop_last()[a]) == s[a]);
        }
        assert(s.drop_last()[i] == s[i]);
        lemma_map_of_update(s.drop_last(), i, v);
        assert(t.drop_last() =~= s.drop_last().update(i, (s[i].0, v)));
        assert(t.last() == s.last());
        assert(s.last().0 != s[i].0);
        assert(map_of(t) =~= map_of(s).insert(s[i].0, v));
    }
}

pub proof fn lemma_map_of_remove<V>(s: Seq<(Location, V)>, i: int)
    requires
        distinct_keys(s),
        0 <= i < s.len(),
    ensures
        map_of(s.remove(i)) == map_of(s).remove(s[i].0),
        distinct_keys(s.remove(i)),
    decreases s.len(),
{
    let t = s.remove(i);
    assert(forall|a: int| 0 <= a < i ==> (#[trigger] t[a]) == s[a]);
    assert(forall|a: int| i <= a < t.len() ==> (#[trigger] t[a]) == s[a + 1]);
    assert(distinct_keys(t));
    assert(distinct_keys(s.drop_last())) by {
        assert(forall|a: int|
            0 <= a < s.drop_last().len() ==> (#[trigger] s.drop_last()[a]) == s[a]);
    }
    if i == s.len() - 1 {
        assert(t =~= s.drop_last());
        lemma_map_of_contains(s.drop_last(), s[i].0);
        assert(!map_of(s.drop_last()).contains_key(s[i].0));
        assert(map_of(t) =~= map_of(s).remove(s[i].0));
    } else {
        lemma_map_of_remove(s.drop_last(), i);
        assert(t.drop_last() =~= s.drop_last().remove(i));
        assert(t.last() == s.last());
        assert(s.drop_last()[i] == s[i]);
        assert(s.last().0 != s[i].0);
        assert(map_of(t) =~= map_of(s).remove(s[i].0));
    }
}

/// A list of key/value pairs with no repeated key.
#[derive(Debug)]
pub struct Table<V> {
    pub entries: Vec<(Location, V)>,
}

impl<V> View for Table<V> {
    type V = Map<Location, V>;

    open spec fn view(&self) -> Map<Location, V> {
        map_of(self.entries@)
    }
}

impl<V: Copy> Table<V> {
    pub open spec fn wf(self) -> bool {
        distinct_keys(self.entries@)
    }

    pub fn new() -> (r: Table<V>)
        ensures
            r.wf(),
            r@ == Map::<Location, V>::empty(),
            r.entries@.len() == 0,
    {
        Table { entries: Vec::new() }
    }

    fn index_of(&self, loc: Location) -> (r: Option<usize>)
        ensures
            match r {
                Some(i) => i < self.entries@.len() && self.entries@[i as int].0 == loc,
                None => forall|j: int|
                    0 <= j < self.entries@.len() ==> (#[trigger] self.entries@[j]).0 != loc,
            },
    {
        let n = self.entries.len();
        let mut i: usize = 0;
        while i < n
            invariant
                i <= n,
                n == self.entries@.len(),
                forall|j: int| 0 <= j < i ==> (#[trigger] self.entries@[j]).0 != loc,
            decreases n - i,
        {
            if self.entries[i].0 == loc {
                return Some(i);
            }
            i = i + 1;
        }
        None
    }

    pub fn contains(&self, loc: Location) -> (r: bool)
        requires
            self.wf(),
        ensures
            r == self@.contains_key(loc),
    {
        proof {
            lemma_map_of_contains(self.entries@, loc);
        }
        self.index_of(loc).is_some()
    }

    pub fn get(&self, loc: Location) -> (r: Option<V>)
        requires
            self.wf(),
        ensures
            r == if self@.contains_key(loc) {
                Some(self@[loc])
            } else {
                None::<V>
            },
    {
        proof {
            lemma_map_of_contains(self.entries@, loc);
        }
        match self.index_of(loc) {
            Some(i) => {
                proof {
                    lemma_map_of_index(self.entries@, i as int);
                }
                Some(self.entries[i].1)
            },
            None => None,
        }
    }

    pub fn insert(&mut self, loc: Location, v: V)
        requires
            old(self).wf(),
        ensures
            final (self).wf(),
            final (self)@ == old(self)@.insert(loc, v),
    {
        proof {
            lemma_map_of_contains(self.entries@, loc);
        }
        match self.index_of(loc) {
            Some(i) => {
                proof {
                    lemma_map_of_update(self.entries@, i as int, v);
                }
                self.entries.set(i, (loc, v));
            },
            None => {
                let ghost s = self.entries@;
                self.entries.push((loc, v));
                proof {
                    assert(self.entries@.drop_last() =~= s);
                    assert(forall|a: int| 0 <= a < s.len() ==> (#[trigger] self.entries@[a]) == s[a]);
                    assert(distinct_keys(self.entries@));
                }
            },
        }
    }

    pub fn remove(&mut self, loc: Location)
        requires
            old(self).wf(),
        ensures
            final (self).wf(),
            final (self)@ == old(self)@.remove(loc),
    {
        proof {
            lemma_map_of_contains(self.entries@, loc);
        }
        match self.index_of(loc) {
            Some(i) => {
                proof {
                    lemma_map_of_remove(self.entries@, i as int);
                }
                self.entries.remove(i);
            },
            None => {
                proof {
                    assert(self@ =~= self@.remove(loc));
                }
            },
        }
    }
}

} // verus!
