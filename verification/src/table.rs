//! A small map from strings, in the order in which its keys came.
//!
//! The maps of this program hold a handful of entries: the devices of a room, the
//! rooms of a relay, the peers on a screen. A list that is searched from the front
//! serves them, and listing it always gives the same order.

use vstd::prelude::*;

verus! {

/// A map whose keys are strings. No key occurs twice.
#[derive(Debug)]
pub struct Table<V> {
    keys: Vec<String>,
    vals: Vec<V>,
}

impl<V> Table<V> {
    /// The keys, first come first.
    pub closed spec fn order(&self) -> Seq<Seq<char>> {
        self.keys@.map_values(|k: String| k@)
    }

    /// The values, in the order of their keys.
    pub closed spec fn values(&self) -> Seq<V> {
        self.vals@
    }

    /// Each key has a value, and no key occurs twice.
    pub open spec fn wf(&self) -> bool {
        &&& self.order().len() == self.values().len()
        &&& self.order().no_duplicates()
    }

    pub open spec fn has(&self, key: Seq<char>) -> bool {
        self.order().contains(key)
    }

    /// The value of a key that is there.
    pub open spec fn at(&self, key: Seq<char>) -> V {
        self.values()[self.order().index_of(key)]
    }
}

impl<V> View for Table<V> {
    type V = Map<Seq<char>, V>;

    open spec fn view(&self) -> Map<Seq<char>, V> {
        Map::new(|k: Seq<char>| self.has(k), |k: Seq<char>| self.at(k))
    }
}

impl<V> Table<V> {
    /// The value at a position is the value of the key at that position.
    pub proof fn at_position(&self, i: int)
        requires
            self.wf(),
            0 <= i < self.order().len(),
        ensures
            self@.contains_key(self.order()[i]),
            self@[self.order()[i]] == self.values()[i],
    {
        let k = self.order()[i];
        assert(self.order().contains(k));
        assert(self.order()[self.order().index_of(k)] == k);
    }

    /// Every key stands at some position, and its value at the same one.
    pub proof fn position_of(&self, key: Seq<char>) -> (i: int)
        requires
            self.wf(),
            self@.contains_key(key),
        ensures
            0 <= i < self.order().len(),
            self.order()[i] == key,
            self.values()[i] == self@[key],
    {
        let i = self.order().index_of(key);
        assert(self.order().contains(key));
        i
    }

    pub fn new() -> (r: Table<V>)
        ensures
            r.wf(),
            r.order() == Seq::<Seq<char>>::empty(),
            r@ == Map::<Seq<char>, V>::empty(),
    {
        let r = Table { keys: Vec::new(), vals: Vec::new() };
        assert(r.order() =~= Seq::<Seq<char>>::empty());
        assert(r@ =~= Map::<Seq<char>, V>::empty());
        r
    }

    pub fn len(&self) -> (r: usize)
        requires
            self.wf(),
        ensures
            r == self.order().len(),
    {
        self.keys.len()
    }

    /// The key at a position.
    pub fn key(&self, i: usize) -> (r: &String)
        requires
            self.wf(),
            i < self.order().len(),
        ensures
            r@ == self.order()[i as int],
    {
        &self.keys[i]
    }

    /// The value at a position.
    pub fn value(&self, i: usize) -> (r: &V)
        requires
            self.wf(),
            i < self.order().len(),
        ensures
            *r == self.values()[i as int],
    {
        &self.vals[i]
    }

    /// The value at a position, to be changed.
    pub fn value_mut(&mut self, i: usize) -> (r: &mut V)
        requires
            old(self).wf(),
            i < old(self).order().len(),
        ensures
            *r == old(self).values()[i as int],
            final(self).wf(),
            final(self).order() == old(self).order(),
            final(self).values() == old(self).values().update(i as int, *final(r)),
    {
        &mut self.vals[i]
    }

    /// Where a key stands.
    pub fn position(&self, key: &str) -> (r: Option<usize>)
        requires
            self.wf(),
        ensures
            match r {
                Some(i) => {
                    &&& i < self.order().len()
                    &&& self.order()[i as int] == key@
                    &&& self@.contains_key(key@)
                    &&& self@[key@] == self.values()[i as int]
                },
                None => !self@.contains_key(key@),
            },
    {
        let mut i: usize = 0;
        while i < self.keys.len()
            invariant
                self.wf(),
                i <= self.keys@.len(),
                forall|j: int| 0 <= j < i ==> self.order()[j] != key@,
            decreases self.keys@.len() - i,
        {
            if crate::text::same(self.keys[i].as_str(), key) {
                proof {
                    assert(self.order()[i as int] == key@);
                    self.at_position(i as int);
                }
                return Some(i);
            }
            i = i + 1;
        }
        proof {
            if self@.contains_key(key@) {
                let j = self.position_of(key@);
                assert(self.order()[j] == key@);
            }
        }
        None
    }

    pub fn contains(&self, key: &str) -> (r: bool)
        requires
            self.wf(),
        ensures
            r == self@.contains_key(key@),
    {
        self.position(key).is_some()
    }

    pub fn get(&self, key: &str) -> (r: Option<&V>)
        requires
            self.wf(),
        ensures
            match r {
                Some(v) => self@.contains_key(key@) && *v == self@[key@],
                None => !self@.contains_key(key@),
            },
    {
        match self.position(key) {
            Some(i) => Some(&self.vals[i]),
            None => None,
        }
    }

    /// Gives `key` the value `v`. A key that was there keeps its place; a new one
    /// comes last.
    pub fn insert(&mut self, key: String, v: V)
        requires
            old(self).wf(),
        ensures
            final(self).wf(),
            final(self)@ == old(self)@.insert(key@, v),
            final(self).order() == (if old(self)@.contains_key(key@) {
                old(self).order()
            } else {
                old(self).order().push(key@)
            }),
    {
        match self.position(key.as_str()) {
            Some(i) => {
                let ghost before = *self;
                self.vals[i] = v;
                proof {
                    assert(self.order() == before.order());
                    assert(self.values() == before.values().update(i as int, v));
                    self.changed_at(before, i as int);
                }
            },
            None => {
                let ghost before = *self;
                self.keys.push(key);
                self.vals.push(v);
                proof {
                    assert(self.order() =~= before.order().push(key@));
                    assert(self.values() =~= before.values().push(v));
                    self.grown_by(before, key@, v);
                }
            },
        }
    }

    /// Takes a key out; the others keep their order.
    pub fn remove(&mut self, key: &str) -> (r: Option<V>)
        requires
            old(self).wf(),
        ensures
            final(self).wf(),
            final(self)@ == old(self)@.remove(key@),
            match r {
                Some(v) => old(self)@.contains_key(key@) && v == old(self)@[key@]
                    && final(self).order().len() + 1 == old(self).order().len(),
                None => !old(self)@.contains_key(key@) && final(self).order()
                    == old(self).order(),
            },
            final(self).order() == without_key(old(self).order(), key@),
    {
        match self.position(key) {
            Some(i) => {
                let ghost before = *self;
                let _ = self.keys.remove(i);
                let v = self.vals.remove(i);
                proof {
                    assert(self.order() =~= before.order().remove(i as int));
                    assert(self.values() =~= before.values().remove(i as int));
                    self.shrunk_at(before, i as int);
                    without(before.order(), i as int);
                }
                Some(v)
            },
            None => {
                proof {
                    assert(self@.remove(key@) =~= self@);
                    all_kept(self.order(), key@);
                }
                None
            },
        }
    }

    /// Takes the first entry out.
    pub fn pop_first(&mut self) -> (r: Option<(String, V)>)
        requires
            old(self).wf(),
        ensures
            final(self).wf(),
            match r {
                Some((key, v)) => {
                    &&& old(self)@.contains_key(key@)
                    &&& v == old(self)@[key@]
                    &&& final(self)@ == old(self)@.remove(key@)
                    &&& final(self).order() == old(self).order().drop_first()
                    &&& old(self).order().len() > 0
                    &&& key@ == old(self).order()[0]
                },
                None => old(self).order().len() == 0 && *final(self) == *old(self),
            },
    {
        if self.keys.len() == 0 {
            return None;
        }
        let ghost before = *self;
        proof {
            before.at_position(0);
        }
        let key = self.keys.remove(0);
        let v = self.vals.remove(0);
        proof {
            assert(self.order() =~= before.order().remove(0));
            assert(self.values() =~= before.values().remove(0));
            self.shrunk_at(before, 0);
            assert(before.order().remove(0) =~= before.order().drop_first());
        }
        Some((key, v))
    }

    /// There are as many keys as positions.
    pub proof fn size(&self)
        requires
            self.wf(),
        ensures
            self@.dom().finite(),
            self@.dom().len() == self.order().len(),
    {
        self.order().unique_seq_to_set();
        assert(self@.dom() =~= self.order().to_set());
    }

    /// A table without keys holds nothing.
    pub proof fn empty_holds_nothing(&self)
        requires
            self.wf(),
            self.order().len() == 0,
        ensures
            self@ == Map::<Seq<char>, V>::empty(),
    {
        assert(self@ =~= Map::<Seq<char>, V>::empty());
    }

    /// Changing one value changes the map at its key alone.
    pub proof fn changed_at(&self, before: Table<V>, i: int)
        requires
            before.wf(),
            0 <= i < before.order().len(),
            self.order() == before.order(),
            self.values() == before.values().update(i, self.values()[i]),
        ensures
            self.wf(),
            self@ == before@.insert(before.order()[i], self.values()[i]),
    {
        let key = before.order()[i];
        assert forall|k: Seq<char>| self.has(k) implies self.at(k) == before@.insert(
            key,
            self.values()[i],
        )[k] by {
            let j = self.order().index_of(k);
            assert(self.order().contains(k));
            assert(before.order().index_of(key) == i) by {
                assert(before.order().contains(key));
                assert(before.order()[before.order().index_of(key)] == key);
            }
        }
        assert(before.has(key));
        assert(self@ =~= before@.insert(key, self.values()[i]));
    }

    proof fn grown_by(&self, before: Table<V>, key: Seq<char>, v: V)
        requires
            before.wf(),
            !before@.contains_key(key),
            self.order() == before.order().push(key),
            self.values() == before.values().push(v),
        ensures
            self.wf(),
            self@ == before@.insert(key, v),
    {
        assert(!before.has(key));
        assert(self.order().no_duplicates()) by {
            assert forall|a: int, b: int|
                0 <= a < self.order().len() && 0 <= b < self.order().len() && a
                    != b implies self.order()[a] != self.order()[b] by {
                if a == before.order().len() {
                    assert(before.order().contains(before.order()[b]));
                } else if b == before.order().len() {
                    assert(before.order().contains(before.order()[a]));
                }
            }
        }
        assert forall|k: Seq<char>| self.has(k) <==> (before.has(k) || k == key) by {
            if before.has(k) {
                let j = before.order().index_of(k);
                assert(self.order()[j] == k);
            }
            if k == key {
                assert(self.order()[before.order().len() as int] == key);
            }
            if self.has(k) && k != key {
                let j = self.order().index_of(k);
                assert(before.order()[j] == k);
            }
        }
        assert forall|k: Seq<char>| self.has(k) implies self.at(k) == before@.insert(key, v)[k] by {
            let j = self.order().index_of(k);
            assert(self.order()[j] == k);
            if k == key {
                if j < before.order().len() {
                    assert(before.order()[j] == key);
                }
            } else {
                assert(before.order()[j] == k);
                assert(before.order().contains(k));
                let b = before.order().index_of(k);
                assert(before.order()[b] == k);
            }
        }
        assert(self@ =~= before@.insert(key, v));
    }

    proof fn shrunk_at(&self, before: Table<V>, i: int)
        requires
            before.wf(),
            0 <= i < before.order().len(),
            self.order() == before.order().remove(i),
            self.values() == before.values().remove(i),
        ensures
            self.wf(),
            self@ == before@.remove(before.order()[i]),
    {
        let key = before.order()[i];
        assert(self.order().no_duplicates()) by {
            assert forall|a: int, b: int|
                0 <= a < self.order().len() && 0 <= b < self.order().len() && a
                    != b implies self.order()[a] != self.order()[b] by {
                let x = if a < i { a } else { a + 1 };
                let y = if b < i { b } else { b + 1 };
                assert(self.order()[a] == before.order()[x]);
                assert(self.order()[b] == before.order()[y]);
            }
        }
        assert forall|k: Seq<char>| self.has(k) <==> (before.has(k) && k != key) by {
            if self.has(k) {
                let j = self.order().index_of(k);
                let x = if j < i { j } else { j + 1 };
                assert(self.order()[j] == before.order()[x]);
                assert(before.order()[x] == k);
            }
            if before.has(k) && k != key {
                let j = before.order().index_of(k);
                let x = if j < i { j } else { j - 1 };
                assert(self.order()[x] == k);
            }
        }
        assert forall|k: Seq<char>| self.has(k) implies self.at(k) == before@[k] by {
            let j = self.order().index_of(k);
            assert(self.order()[j] == k);
            let x = if j < i { j } else { j + 1 };
            assert(before.order()[x] == k);
            assert(before.order().contains(k));
            assert(before.order()[before.order().index_of(k)] == k);
        }
        assert(self@ =~= before@.remove(key));
    }
}

/// The keys but one, in their order.
pub open spec fn without_key(s: Seq<Seq<char>>, key: Seq<char>) -> Seq<Seq<char>> {
    s.filter(|k: Seq<char>| k != key)
}

/// Removing the only occurrence of an element is filtering it out.
proof fn without(s: Seq<Seq<char>>, i: int)
    requires
        s.no_duplicates(),
        0 <= i < s.len(),
    ensures
        without_key(s, s[i]) == s.remove(i),
    decreases s.len(),
{
    let gone = s[i];
    reveal(Seq::filter);
    let init = s.drop_last();
    assert(s == init.push(s.last()));
    if i == s.len() - 1 {
        assert forall|j: int| 0 <= j < init.len() implies init[j] != gone by {
            assert(s[j] == init[j]);
        }
        assert(!init.contains(gone));
        all_kept(init, gone);
        assert(s.remove(i) =~= init);
    } else {
        assert(init[i] == gone);
        without(init, i);
        assert(s.last() != gone);
        assert(s.remove(i) =~= init.remove(i).push(s.last()));
    }
}

/// Filtering out what does not occur changes nothing.
proof fn all_kept(s: Seq<Seq<char>>, gone: Seq<char>)
    requires
        !s.contains(gone),
    ensures
        without_key(s, gone) == s,
    decreases s.len(),
{
    reveal(Seq::filter);
    if s.len() > 0 {
        let init = s.drop_last();
        assert(s == init.push(s.last()));
        assert(!init.contains(gone)) by {
            if init.contains(gone) {
                let j = init.index_of(gone);
                assert(s[j] == gone);
            }
        }
        all_kept(init, gone);
        assert(s[s.len() - 1] == s.last());
        assert(s.last() != gone);
    }
}

}
