//! An ordered table keyed by text.
use crate::text::{before, less, less_irreflexive, less_total, less_transitive, same};
use vstd::prelude::*;

verus! {

/// Entries in ascending key order, each key once.
pub struct Table<V> {
    entries: Vec<(String, V)>,
}

/// Keys ascend strictly.
pub open spec fn ascending<V>(entries: Seq<(String, V)>) -> bool {
    forall|i: int, j: int| 0 <= i < j < entries.len() ==> less(#[trigger] entries[i].0@, #[trigger] entries[j].0@)
}

/// The key stands at some position.
pub open spec fn keyed<V>(entries: Seq<(String, V)>, key: Seq<char>) -> bool {
    exists|i: int| 0 <= i < entries.len() && #[trigger] entries[i].0@ == key
}

pub open spec fn position<V>(entries: Seq<(String, V)>, key: Seq<char>) -> int {
    choose|i: int| 0 <= i < entries.len() && #[trigger] entries[i].0@ == key
}

pub open spec fn mapping<V>(entries: Seq<(String, V)>) -> Map<Seq<char>, V> {
    Map::new(|key: Seq<char>| keyed(entries, key), |key: Seq<char>| entries[position(entries, key)].1)
}

/// In an ascending list a key stands at one position only.
pub proof fn position_unique<V>(entries: Seq<(String, V)>, i: int)
    requires
        ascending(entries),
        0 <= i < entries.len(),
    ensures
        keyed(entries, entries[i].0@),
        position(entries, entries[i].0@) == i,
        mapping(entries).contains_key(entries[i].0@),
        mapping(entries)[entries[i].0@] == entries[i].1,
{
    let key = entries[i].0@;
    assert(keyed(entries, key));
    let p = position(entries, key);
    if p < i {
        less_irreflexive(key);
    } else if i < p {
        less_irreflexive(key);
    }
}

/// A table holds as many keys as entries.
pub proof fn mapping_len<V>(entries: Seq<(String, V)>)
    requires
        ascending(entries),
    ensures
        mapping(entries).dom().finite(),
        mapping(entries).dom().len() == entries.len(),
    decreases entries.len(),
{
    if entries.len() == 0 {
        assert(mapping(entries).dom() =~= Set::<Seq<char>>::empty());
    } else {
        let front = entries.drop_last();
        let key = entries.last().0@;
        assert(ascending(front));
        mapping_len(front);
        assert(!keyed(front, key)) by {
            if keyed(front, key) {
                let p = position(front, key);
                assert(less(entries[p].0@, entries[entries.len() - 1].0@));
                less_irreflexive(key);
            }
        }
        assert forall|q: Seq<char>| keyed(entries, q) <==> (keyed(front, q) || q == key) by {
            if keyed(entries, q) {
                let p = position(entries, q);
                if p < front.len() {
                    assert(front[p].0@ == q);
                }
            }
            if keyed(front, q) {
                let p = position(front, q);
                assert(entries[p].0@ == q);
            }
            if q == key {
                assert(entries[entries.len() - 1].0@ == q);
            }
        }
        assert(mapping(entries).dom() =~= mapping(front).dom().insert(key));
    }
}

/// Whether a list holds everything that a map holds, once, in ascending order of the keys.
pub open spec fn lists<W>(keys: Seq<Seq<char>>, list: Seq<W>, map: Map<Seq<char>, W>) -> bool {
    &&& keys.len() == list.len()
    &&& forall|i: int, j: int| 0 <= i < j < keys.len() ==> less(#[trigger] keys[i], #[trigger] keys[j])
    &&& forall|i: int| 0 <= i < keys.len() ==> map.contains_key(#[trigger] keys[i]) && map[keys[i]] == list[i]
    &&& forall|k: Seq<char>| #[trigger] map.contains_key(k) ==> keys.contains(k)
}

/// The last key of one list is the last key of every other list of the same map.
proof fn last_keys_agree<W>(ka: Seq<Seq<char>>, a: Seq<W>, kb: Seq<Seq<char>>, b: Seq<W>, map: Map<Seq<char>, W>)
    requires
        lists(ka, a, map),
        lists(kb, b, map),
        ka.len() > 0,
    ensures
        kb.len() > 0,
        ka.last() == kb.last(),
{
    let x = ka[ka.len() - 1];
    assert(map.contains_key(x));
    let j = choose|j: int| 0 <= j < kb.len() && kb[j] == x;
    let y = kb[kb.len() - 1];
    if j < kb.len() - 1 {
        assert(less(kb[j], kb[kb.len() - 1]));
        assert(map.contains_key(y));
        let i = choose|i: int| 0 <= i < ka.len() && ka[i] == y;
        if i < ka.len() - 1 {
            assert(less(ka[i], ka[ka.len() - 1]));
            less_transitive(x, y, x);
        }
        less_irreflexive(x);
    }
}

/// A list without its last entry lists the map without that key.
proof fn front_lists<W>(keys: Seq<Seq<char>>, list: Seq<W>, map: Map<Seq<char>, W>)
    requires
        lists(keys, list, map),
        keys.len() > 0,
    ensures
        lists(keys.drop_last(), list.drop_last(), map.remove(keys.last())),
{
    let front = keys.drop_last();
    let rest = map.remove(keys.last());
    assert forall|i: int| 0 <= i < front.len() implies rest.contains_key(#[trigger] front[i]) && rest[front[i]]
        == list.drop_last()[i] by {
        assert(front[i] == keys[i]);
        assert(less(keys[i], keys[keys.len() - 1]));
        less_irreflexive(keys[i]);
    }
    assert forall|k: Seq<char>| #[trigger] rest.contains_key(k) implies front.contains(k) by {
        assert(map.contains_key(k));
        let i = choose|i: int| 0 <= i < keys.len() && keys[i] == k;
        assert(front[i] == k);
    }
}

/// A map has one such list.
pub proof fn one_list<W>(ka: Seq<Seq<char>>, a: Seq<W>, kb: Seq<Seq<char>>, b: Seq<W>, map: Map<Seq<char>, W>)
    requires
        lists(ka, a, map),
        lists(kb, b, map),
    ensures
        ka == kb,
        a == b,
    decreases ka.len(),
{
    if ka.len() == 0 {
        if kb.len() > 0 {
            assert(map.contains_key(kb[0]));
            assert(ka.contains(kb[0]));
        }
        assert(ka =~= kb);
        assert(a =~= b);
    } else {
        last_keys_agree(ka, a, kb, b, map);
        front_lists(ka, a, map);
        front_lists(kb, b, map);
        one_list(ka.drop_last(), a.drop_last(), kb.drop_last(), b.drop_last(), map.remove(ka.last()));
        assert(a[a.len() - 1] == map[ka[ka.len() - 1]]);
        assert(b[b.len() - 1] == map[kb[kb.len() - 1]]);
        assert(ka =~= ka.drop_last().push(ka.last()));
        assert(kb =~= kb.drop_last().push(kb.last()));
        assert(a =~= a.drop_last().push(a.last()));
        assert(b =~= b.drop_last().push(b.last()));
    }
}

impl<V> View for Table<V> {
    type V = Map<Seq<char>, V>;

    closed spec fn view(&self) -> Map<Seq<char>, V> {
        mapping(self.entries@)
    }
}

impl<V> Table<V> {
    /// The entries in key order.
    pub closed spec fn listed(&self) -> Seq<(String, V)> {
        self.entries@
    }

    pub open spec fn wf(&self) -> bool {
        ascending(self.listed())
    }

    /// The table holds what its list holds.
    pub proof fn lists_its_entries(&self)
        requires
            self.wf(),
        ensures
            self@ == mapping(self.listed()),
            self@.dom().finite(),
            self@.dom().len() == self.listed().len(),
    {
        mapping_len(self.entries@);
    }

    /// The entry at a position is the one its key selects.
    pub proof fn entry_at(&self, i: int)
        requires
            self.wf(),
            0 <= i < self.listed().len(),
        ensures
            self@.contains_key(self.listed()[i].0@),
            self@[self.listed()[i].0@] == self.listed()[i].1,
    {
        position_unique(self.entries@, i);
    }

    /// Every key stands at some position.
    pub proof fn entry_of(&self, key: Seq<char>) -> (i: int)
        requires
            self.wf(),
            self@.contains_key(key),
        ensures
            0 <= i < self.listed().len(),
            self.listed()[i].0@ == key,
            self.listed()[i].1 == self@[key],
    {
        position(self.entries@, key)
    }

    pub fn new() -> (r: Self)
        ensures
            r.wf(),
            r@ == Map::<Seq<char>, V>::empty(),
            r.listed().len() == 0,
    {
        let r = Table { entries: Vec::new() };
        assert(r@ =~= Map::<Seq<char>, V>::empty());
        r
    }

    pub fn len(&self) -> (n: usize)
        ensures
            n == self.listed().len(),
    {
        self.entries.len()
    }

    pub fn key(&self, i: usize) -> (r: &String)
        requires
            i < self.listed().len(),
        ensures
            *r == self.listed()[i as int].0,
    {
        &self.entries[i].0
    }

    pub fn value(&self, i: usize) -> (r: &V)
        requires
            i < self.listed().len(),
        ensures
            *r == self.listed()[i as int].1,
    {
        &self.entries[i].1
    }

    /// Where the key stands or would stand.
    fn find(&self, key: &str) -> (r: (usize, bool))
        requires
            self.wf(),
        ensures
            r.0 <= self.entries.len(),
            forall|j: int| 0 <= j < r.0 ==> less(#[trigger] self.entries@[j].0@, key@),
            r.1 ==> r.0 < self.entries.len() && self.entries@[r.0 as int].0@ == key@,
            !r.1 ==> (forall|j: int| r.0 <= j < self.entries.len() ==> less(key@, #[trigger] self.entries@[j].0@)),
            r.1 == keyed(self.entries@, key@),
    {
        let mut i: usize = 0;
        while i < self.entries.len() && before(&self.entries[i].0, key)
            invariant
                i <= self.entries.len(),
                forall|j: int| 0 <= j < i ==> less(#[trigger] self.entries@[j].0@, key@),
            decreases self.entries.len() - i,
        {
            i = i + 1;
        }
        let found = i < self.entries.len() && same(&self.entries[i].0, key);
        proof {
            less_irreflexive(key@);
            if i < self.entries.len() {
                less_total(self.entries@[i as int].0@, key@);
                if !found {
                    assert forall|j: int| i <= j < self.entries.len() implies less(key@, #[trigger] self.entries@[j].0@) by {
                        if j > i {
                            less_transitive(key@, self.entries@[i as int].0@, self.entries@[j].0@);
                        }
                    }
                }
            }
            if !found && keyed(self.entries@, key@) {
                let p = position(self.entries@, key@);
                assert(self.entries@[p].0@ == key@);
            }
        }
        (i, found)
    }

    pub fn get(&self, key: &str) -> (r: Option<&V>)
        requires
            self.wf(),
        ensures
            match r {
                Some(v) => self@.contains_key(key@) && *v == self@[key@],
                None => !self@.contains_key(key@),
            },
    {
        let (i, found) = self.find(key);
        if found {
            proof {
                position_unique(self.entries@, i as int);
            }
            Some(&self.entries[i].1)
        } else {
            None
        }
    }

    pub fn has(&self, key: &str) -> (r: bool)
        requires
            self.wf(),
        ensures
            r == self@.contains_key(key@),
    {
        self.find(key).1
    }

    /// Sets the value of a key.
    pub fn insert(&mut self, key: String, value: V)
        requires
            old(self).wf(),
        ensures
            final(self).wf(),
            final(self)@ == old(self)@.insert(key@, value),
            final(self).listed().len() == old(self).listed().len() + (if old(self)@.contains_key(key@) { 0int } else { 1 }),
    {
        let ghost before_entries = self.entries@;
        let (i, found) = self.find(&key);
        let ghost k = key;
        if found {
            self.entries.set(i, (key, value));
            proof {
                assert(self.entries@ == before_entries.update(i as int, (k, value)));
                assert forall|a: int, b: int| 0 <= a < b < self.entries@.len() implies less(#[trigger] self.entries@[a].0@, #[trigger] self.entries@[b].0@) by {
                    assert(self.entries@[a].0@ == before_entries[a].0@);
                    assert(self.entries@[b].0@ == before_entries[b].0@);
                }
            }
        } else {
            self.entries.insert(i, (key, value));
            proof {
                assert(self.entries@ == before_entries.insert(i as int, (k, value)));
                assert forall|a: int, b: int| 0 <= a < b < self.entries@.len() implies less(#[trigger] self.entries@[a].0@, #[trigger] self.entries@[b].0@) by {
                    let x = if a < i { a } else { a - 1 };
                    let y = if b < i { b } else { b - 1 };
                    if a != i { assert(self.entries@[a] == before_entries[x]); }
                    if b != i { assert(self.entries@[b] == before_entries[y]); }
                }
            }
        }
        proof {
            let now = self.entries@;
            let want = mapping(before_entries).insert(k@, value);
            assert(now[i as int] == (k, value));
            position_unique(now, i as int);
            assert forall|q: Seq<char>| mapping(now).contains_key(q) <==> want.contains_key(q) by {
                if keyed(now, q) && q != k@ {
                    let p = position(now, q);
                    if found {
                        assert(before_entries[p].0@ == q);
                    } else {
                        let o = if p < i { p } else { p - 1 };
                        assert(before_entries[o].0@ == q);
                    }
                }
                if keyed(before_entries, q) && q != k@ {
                    let o = position(before_entries, q);
                    if found {
                        assert(now[o].0@ == q);
                    } else {
                        let p = if o < i { o } else { o + 1 };
                        assert(now[p].0@ == q);
                    }
                }
            }
            assert forall|q: Seq<char>| want.contains_key(q) implies #[trigger] mapping(now)[q] == want[q] by {
                if q != k@ {
                    let o = position(before_entries, q);
                    position_unique(before_entries, o);
                    let p = if found || o < i { o } else { o + 1 };
                    assert(now[p] == before_entries[o]);
                    position_unique(now, p);
                }
            }
            assert(mapping(now) =~= want);
        }
    }

    /// Sets the value at a position.
    pub fn replace(&mut self, i: usize, value: V)
        requires
            old(self).wf(),
            i < old(self).listed().len(),
        ensures
            final(self).wf(),
            final(self).listed().len() == old(self).listed().len(),
            forall|j: int|
                0 <= j < old(self).listed().len() ==> (#[trigger] final(self).listed()[j]).0@ == old(self).listed()[j].0@,
            forall|j: int|
                0 <= j < old(self).listed().len() && j != i ==> (#[trigger] final(self).listed()[j]).1 == old(
                    self,
                ).listed()[j].1,
            final(self).listed()[i as int].1 == value,
    {
        let ghost was = self.entries@;
        let key = self.entries[i].0.clone();
        self.entries.set(i, (key, value));
        proof {
            assert forall|a: int, b: int| 0 <= a < b < self.entries@.len() implies less(
                #[trigger] self.entries@[a].0@,
                #[trigger] self.entries@[b].0@,
            ) by {
                assert(self.entries@[a].0@ == was[a].0@);
                assert(self.entries@[b].0@ == was[b].0@);
            }
        }
    }

    /// Drops the key, if it is there.
    pub fn remove(&mut self, key: &str)
        requires
            old(self).wf(),
        ensures
            final(self).wf(),
            final(self)@ == old(self)@.remove(key@),
            final(self).listed().len() == old(self).listed().len() - (if old(self)@.contains_key(key@) { 1int } else { 0 }),
    {
        let ghost was = self.entries@;
        let (i, found) = self.find(key);
        if found {
            let _gone = self.entries.remove(i);
            proof {
                let now = self.entries@;
                assert(now == was.remove(i as int));
                assert forall|a: int, b: int| 0 <= a < b < now.len() implies less(#[trigger] now[a].0@, #[trigger] now[b].0@) by {
                    let x = if a < i { a } else { a + 1 };
                    let y = if b < i { b } else { b + 1 };
                    assert(now[a] == was[x]);
                    assert(now[b] == was[y]);
                }
                let want = mapping(was).remove(key@);
                position_unique(was, i as int);
                assert forall|q: Seq<char>| mapping(now).contains_key(q) <==> want.contains_key(q) by {
                    if keyed(now, q) {
                        let p = position(now, q);
                        let o = if p < i { p } else { p + 1 };
                        assert(was[o].0@ == q);
                        position_unique(was, o);
                    }
                    if want.contains_key(q) {
                        let o = position(was, q);
                        let p = if o < i { o } else { o - 1 };
                        assert(now[p].0@ == q);
                    }
                }
                assert forall|q: Seq<char>| want.contains_key(q) implies #[trigger] mapping(now)[q] == want[q] by {
                    let o = position(was, q);
                    position_unique(was, o);
                    let p = if o < i { o } else { o - 1 };
                    assert(now[p] == was[o]);
                    position_unique(now, p);
                }
                assert(mapping(now) =~= want);
            }
        } else {
            proof {
                assert(mapping(was).remove(key@) =~= mapping(was));
            }
        }
    }
}

} // verus!
