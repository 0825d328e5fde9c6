//! A table from names to values that keeps the order in which the names came.

use vstd::prelude::*;
use crate::text::{str_eq, string_views};

verus! {

/// The position of `key` among `keys`, or their number where it is not there.
pub open spec fn position_of(keys: Seq<Seq<char>>, key: Seq<char>) -> int
    decreases keys.len(),
{
    if keys.len() == 0 {
        0
    } else if keys[0] == key {
        0
    } else {
        1 + position_of(keys.skip(1), key)
    }
}

/// No name stands twice.
pub open spec fn distinct(keys: Seq<Seq<char>>) -> bool {
    forall|i: int, j: int| 0 <= i < j < keys.len() ==> keys[i] != keys[j]
}

/// `position_of` finds the first place at which `key` stands.
pub proof fn lemma_position_of(keys: Seq<Seq<char>>, key: Seq<char>)
    ensures
        0 <= position_of(keys, key) <= keys.len(),
        position_of(keys, key) < keys.len() ==> keys[position_of(keys, key)] == key,
        forall|j: int| 0 <= j < position_of(keys, key) ==> keys[j] != key,
    decreases keys.len(),
{
    if keys.len() > 0 && keys[0] != key {
        let rest = keys.skip(1);
        lemma_position_of(rest, key);
        assert forall|j: int| 0 <= j < position_of(keys, key) implies keys[j] != key by {
            if j > 0 {
                assert(rest[j - 1] == keys[j]);
            }
        }
        if position_of(keys, key) < keys.len() {
            assert(rest[position_of(rest, key)] == keys[position_of(keys, key)]);
        }
    }
}

/// Where `key` stands at `i` and not before, `i` is its position.
pub proof fn lemma_position_is(keys: Seq<Seq<char>>, key: Seq<char>, i: int)
    requires
        0 <= i <= keys.len(),
        i < keys.len() ==> keys[i] == key,
        forall|j: int| 0 <= j < i ==> keys[j] != key,
    ensures
        position_of(keys, key) == i,
{
    lemma_position_of(keys, key);
    let p = position_of(keys, key);
    if p < i {
        assert(keys[p] == key);
    } else if p > i {
        assert(keys[i] == key);
    }
}

/// The position of a name among `keys` with one more name at their end.
pub proof fn lemma_position_after_push(keys: Seq<Seq<char>>, added: Seq<char>, key: Seq<char>)
    ensures
        position_of(keys, key) < keys.len() ==> position_of(keys.push(added), key) == position_of(
            keys,
            key,
        ),
        position_of(keys, key) >= keys.len() && key == added ==> position_of(
            keys.push(added),
            key,
        ) == keys.len(),
        position_of(keys, key) >= keys.len() && key != added ==> position_of(
            keys.push(added),
            key,
        ) == keys.len() + 1,
{
    lemma_position_of(keys, key);
    let more = keys.push(added);
    let p = position_of(keys, key);
    if p < keys.len() {
        assert forall|j: int| 0 <= j < p implies more[j] != key by {
            assert(more[j] == keys[j]);
        }
        assert(more[p] == keys[p]);
        lemma_position_is(more, key, p);
    } else {
        assert forall|j: int| 0 <= j < keys.len() implies more[j] != key by {
            assert(more[j] == keys[j]);
        }
        if key == added {
            lemma_position_is(more, key, keys.len() as int);
        } else {
            lemma_position_is(more, key, more.len() as int);
        }
    }
}

/// Names with a value each, in the order in which the names were first put in.
#[derive(Debug)]
pub struct Table<V> {
    pub keys: Vec<String>,
    pub values: Vec<V>,
}

impl<V> Table<V> {
    /// Each name has its value, and no name stands twice.
    pub open spec fn wf(&self) -> bool {
        self.keys@.len() == self.values@.len() && distinct(string_views(self.keys@))
    }

    /// The names, in their order.
    pub open spec fn names(&self) -> Seq<Seq<char>> {
        string_views(self.keys@)
    }

    /// Whether the table holds `key`.
    pub open spec fn has(&self, key: Seq<char>) -> bool {
        position_of(self.names(), key) < self.keys@.len()
    }

    /// The value of `key`, where the table holds it.
    pub open spec fn at(&self, key: Seq<char>) -> V {
        self.values@[position_of(self.names(), key)]
    }

    pub fn new() -> (r: Table<V>)
        ensures
            r.wf(),
            r.keys@.len() == 0,
    {
        Table { keys: Vec::new(), values: Vec::new() }
    }

    /// How many names the table holds.
    pub fn len(&self) -> (r: usize)
        ensures
            r == self.keys@.len(),
    {
        self.keys.len()
    }

    /// Where `key` stands in the table, if it does.
    pub fn find(&self, key: &str) -> (r: Option<usize>)
        requires
            self.wf(),
        ensures
            match r {
                Some(i) => self.has(key@) && i == position_of(self.names(), key@) && i
                    < self.keys@.len() && self.keys@[i as int]@ == key@,
                None => !self.has(key@),
            },
    {
        let mut i: usize = 0;
        while i < self.keys.len()
            invariant
                i <= self.keys.len(),
                forall|j: int| 0 <= j < i ==> self.names()[j] != key@,
            decreases self.keys.len() - i,
        {
            if str_eq(self.keys[i].as_str(), key) {
                proof {
                    assert(self.names()[i as int] == key@);
                    lemma_position_is(self.names(), key@, i as int);
                }
                return Some(i);
            }
            i += 1;
        }
        proof {
            lemma_position_is(self.names(), key@, i as int);
        }
        None
    }

    /// Puts a name that the table does not hold yet at its end.
    pub fn add(&mut self, key: String, value: V)
        requires
            old(self).wf(),
            !old(self).has(key@),
        ensures
            final(self).wf(),
            final(self).keys@ == old(self).keys@.push(key),
            final(self).values@ == old(self).values@.push(value),
    {
        proof {
            lemma_position_of(self.names(), key@);
            assert(string_views(self.keys@.push(key)) == string_views(self.keys@).push(key@));
        }
        self.keys.push(key);
        self.values.push(value);
    }

    /// Gives the name at `index` another value.
    pub fn set(&mut self, index: usize, value: V)
        requires
            old(self).wf(),
            index < old(self).keys@.len(),
        ensures
            final(self).wf(),
            final(self).keys == old(self).keys,
            final(self).values@ == old(self).values@.update(index as int, value),
    {
        self.values.push(value);
        let _ = self.values.swap_remove(index);
        assert(self.values@ =~= old(self).values@.update(index as int, value));
    }

    /// Forgets every name.
    pub fn clear(&mut self)
        ensures
            final(self).wf(),
            final(self).keys@.len() == 0,
    {
        self.keys.clear();
        self.values.clear();
    }
}

impl<T> Table<Vec<T>> {
    /// The list of `key`; empty where the table does not hold the name.
    pub open spec fn list(&self, key: Seq<char>) -> Seq<T> {
        if self.has(key) {
            self.at(key)@
        } else {
            Seq::empty()
        }
    }

    /// Puts `item` at the end of the list of `key`. A name that the table
    /// does not hold yet comes to its end, with `item` alone in its list.
    pub fn push_to(&mut self, key: &str, item: T)
        requires
            old(self).wf(),
        ensures
            final(self).wf(),
            final(self).names() == (if old(self).has(key@) {
                old(self).names()
            } else {
                old(self).names().push(key@)
            }),
            final(self).list(key@) == old(self).list(key@).push(item),
            forall|k: Seq<char>|
                #![trigger final(self).has(k)]
                final(self).has(k) == (old(self).has(k) || k == key@),
            forall|k: Seq<char>|
                #![trigger final(self).list(k)]
                k != key@ ==> final(self).list(k) == old(self).list(k),
    {
        let ghost names = self.names();
        match self.find(key) {
            Some(at) => {
                self.values.push(Vec::new());
                let mut list = self.values.swap_remove(at);
                list.push(item);
                self.set(at, list);
                proof {
                    assert(self.names() == names);
                    assert forall|k: Seq<char>| k != key@ implies self.list(k) == old(self).list(
                        k,
                    ) by {
                        lemma_position_of(names, k);
                        let p = position_of(names, k);
                        if p < names.len() {
                            assert(names[p] == k);
                            assert(p != at);
                            assert(self.values@[p] == old(self).values@[p]);
                        }
                    }
                    assert(self.list(key@) =~= old(self).list(key@).push(item));
                }
            },
            None => {
                let mut list: Vec<T> = Vec::new();
                list.push(item);
                let owned = key.to_owned();
                self.add(owned, list);
                proof {
                    assert(self.names() == names.push(key@));
                    assert forall|k: Seq<char>| self.has(k) == (old(self).has(k) || k
                        == key@) by {
                        lemma_position_after_push(names, key@, k);
                    }
                    assert forall|k: Seq<char>| k != key@ implies self.list(k) == old(self).list(
                        k,
                    ) by {
                        lemma_position_after_push(names, key@, k);
                        lemma_position_of(names, k);
                        let p = position_of(names, k);
                        if p < names.len() {
                            assert(position_of(self.names(), k) == p);
                            assert(self.values@[p] == old(self).values@[p]);
                        } else {
                            assert(position_of(self.names(), k) == names.len() + 1);
                            assert(!self.has(k));
                        }
                    }
                    lemma_position_after_push(names, key@, key@);
                    assert(self.list(key@) =~= old(self).list(key@).push(item));
                }
            },
        }
    }
}

} // verus!
