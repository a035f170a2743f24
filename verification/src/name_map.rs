//! A map from names to values that is walked in the order of the names.
use vstd::prelude::*;

use crate::text::{before, is_before, lemma_before_total, lemma_before_transitive, same_text};

verus! {

/// A map from names to values, kept sorted by name.
#[derive(Debug, Clone)]
pub struct NameMap<V> {
    entries: Vec<(String, V)>,
}

/// The names of a run of entries.
spec fn keys_of<V>(entries: Seq<(String, V)>) -> Seq<Seq<char>> {
    Seq::new(entries.len(), |i: int| entries[i].0@)
}

/// Each name stands before the next ones; in particular no name occurs twice.
pub open spec fn strictly_sorted(names: Seq<Seq<char>>) -> bool {
    forall|i: int, j: int| 0 <= i < j < names.len() ==> before(#[trigger] names[i], #[trigger] names[j])
}

spec fn holds<V>(entries: Seq<(String, V)>, k: Seq<char>, i: int) -> bool {
    0 <= i < entries.len() && entries[i].0@ == k
}

spec fn index_of<V>(entries: Seq<(String, V)>, k: Seq<char>) -> int {
    choose|i: int| holds(entries, k, i)
}

spec fn map_of<V>(entries: Seq<(String, V)>) -> Map<Seq<char>, V> {
    Map::new(
        |k: Seq<char>| exists|i: int| holds(entries, k, i),
        |k: Seq<char>| entries[index_of(entries, k)].1,
    )
}

proof fn lemma_unique<V>(entries: Seq<(String, V)>, i: int, j: int)
    requires
        strictly_sorted(keys_of(entries)),
        0 <= i < entries.len(),
        0 <= j < entries.len(),
        entries[i].0@ == entries[j].0@,
    ensures
        i == j,
{
    let keys = keys_of(entries);
    lemma_before_total(keys[i], keys[j]);
    if i < j {
        assert(before(keys[i], keys[j]));
    } else if j < i {
        assert(before(keys[j], keys[i]));
    }
}

proof fn lemma_index<V>(entries: Seq<(String, V)>, i: int)
    requires
        strictly_sorted(keys_of(entries)),
        0 <= i < entries.len(),
    ensures
        map_of(entries).contains_key(entries[i].0@),
        map_of(entries)[entries[i].0@] == entries[i].1,
{
    let k = entries[i].0@;
    assert(holds(entries, k, i));
    lemma_unique(entries, i, index_of(entries, k));
}

impl<V> View for NameMap<V> {
    type V = Map<Seq<char>, V>;

    closed spec fn view(&self) -> Map<Seq<char>, V> {
        map_of(self.entries@)
    }
}

impl<V> NameMap<V> {
    pub closed spec fn wf(&self) -> bool {
        strictly_sorted(keys_of(self.entries@))
    }

    /// The names in order.
    pub closed spec fn names_in_order(&self) -> Seq<Seq<char>> {
        keys_of(self.entries@)
    }

    /// The names in order are sorted, and are exactly the names that the map holds.
    pub proof fn lemma_names(&self)
        requires
            self.wf(),
        ensures
            strictly_sorted(self.names_in_order()),
            self.names_in_order().to_set() == self@.dom(),
            self@.dom().finite(),
            self@.dom().len() == self.names_in_order().len(),
    {
        let names = self.names_in_order();
        assert forall|k: Seq<char>| names.contains(k) == self@.dom().contains(k) by {
            if names.contains(k) {
                let i = choose|i: int| 0 <= i < names.len() && names[i] == k;
                lemma_index(self.entries@, i);
            }
            if self@.dom().contains(k) {
                let i = choose|i: int| holds(self.entries@, k, i);
                assert(names[i] == k);
            }
        }
        assert(names.to_set() =~= self@.dom());
        assert(names.no_duplicates()) by {
            assert forall|i: int, j: int|
                0 <= i < names.len() && 0 <= j < names.len() && i != j implies names[i]
                != names[j] by {
                if names[i] == names[j] {
                    lemma_unique(self.entries@, i, j);
                }
            }
        }
        names.unique_seq_to_set();
    }

    pub fn new() -> (r: Self)
        ensures
            r.wf(),
            r@ == Map::<Seq<char>, V>::empty(),
    {
        let r = NameMap { entries: Vec::new() };
        assert(r@ =~= Map::<Seq<char>, V>::empty());
        r
    }

    pub fn len(&self) -> (n: usize)
        requires
            self.wf(),
        ensures
            n == self@.dom().len(),
            n == self.names_in_order().len(),
    {
        proof {
            self.lemma_names();
        }
        self.entries.len()
    }

    /// The entry at a place in the order of the names.
    pub fn at(&self, i: usize) -> (r: (&String, &V))
        requires
            self.wf(),
            i < self.names_in_order().len(),
        ensures
            r.0@ == self.names_in_order()[i as int],
            self@.contains_key(r.0@),
            *r.1 == self@[r.0@],
    {
        proof {
            lemma_index(self.entries@, i as int);
        }
        let e = &self.entries[i];
        (&e.0, &e.1)
    }

    fn position(&self, name: &str) -> (r: Option<usize>)
        requires
            self.wf(),
        ensures
            match r {
                Some(i) => i < self.entries@.len() && self.entries@[i as int].0@ == name@
                    && self@.contains_key(name@) && self@[name@] == self.entries@[i as int].1,
                None => !self@.contains_key(name@),
            },
    {
        let mut i: usize = 0;
        while i < self.entries.len()
            invariant
                self.wf(),
                i <= self.entries@.len(),
                forall|j: int| 0 <= j < i ==> self.entries@[j].0@ != name@,
            decreases self.entries@.len() - i,
        {
            if same_text(self.entries[i].0.as_str(), name) {
                proof {
                    lemma_index(self.entries@, i as int);
                }
                return Some(i);
            }
            i += 1;
        }
        proof {
            if self@.contains_key(name@) {
                let j = choose|j: int| holds(self.entries@, name@, j);
                assert(self.entries@[j].0@ == name@);
            }
        }
        None
    }

    pub fn contains(&self, name: &str) -> (r: bool)
        requires
            self.wf(),
        ensures
            r == self@.contains_key(name@),
    {
        self.position(name).is_some()
    }

    pub fn get(&self, name: &str) -> (r: Option<&V>)
        requires
            self.wf(),
        ensures
            match r {
                Some(v) => self@.contains_key(name@) && *v == self@[name@],
                None => !self@.contains_key(name@),
            },
    {
        match self.position(name) {
            Some(i) => Some(&self.entries[i].1),
            None => None,
        }
    }

    /// Puts a value under a name, in place of what stood there.
    pub fn insert(&mut self, name: String, value: V)
        requires
            old(self).wf(),
        ensures
            final(self).wf(),
            final(self)@ == old(self)@.insert(name@, value),
    {
        let ghost old_entries = self.entries@;
        let ghost k = name@;
        let mut i: usize = 0;
        while i < self.entries.len() && is_before(self.entries[i].0.as_str(), name.as_str())
            invariant
                i <= self.entries@.len(),
                self.entries@ == old_entries,
                k == name@,
                forall|j: int| 0 <= j < i ==> before(self.entries@[j].0@, k),
            decreases self.entries@.len() - i,
        {
            i += 1;
        }
        let ghost old_keys = keys_of(old_entries);
        if i < self.entries.len() && same_text(self.entries[i].0.as_str(), name.as_str()) {
            self.entries.set(i, (name, value));
            proof {
                let new_keys = keys_of(self.entries@);
                assert(new_keys =~= old_keys);
                assert forall|q: Seq<char>|
                    map_of(self.entries@).contains_key(q) == map_of(old_entries).insert(
                        k,
                        value,
                    ).contains_key(q) by {
                    if map_of(self.entries@).contains_key(q) {
                        let j = choose|j: int| holds(self.entries@, q, j);
                        assert(holds(old_entries, q, j));
                    }
                    if map_of(old_entries).contains_key(q) {
                        let j = choose|j: int| holds(old_entries, q, j);
                        assert(holds(self.entries@, q, j));
                    }
                    assert(holds(self.entries@, k, i as int));
                }
                assert forall|q: Seq<char>| map_of(self.entries@).contains_key(q) implies map_of(
                    self.entries@,
                )[q] == map_of(old_entries).insert(k, value)[q] by {
                    let j = choose|j: int| holds(self.entries@, q, j);
                    lemma_index(self.entries@, j);
                    lemma_index(old_entries, j);
                    if q == k {
                        lemma_unique(self.entries@, i as int, j);
                    }
                }
                assert(map_of(self.entries@) =~= map_of(old_entries).insert(k, value));
            }
        } else {
            self.entries.insert(i, (name, value));
            proof {
                let now = self.entries@;
                let new_keys = keys_of(now);
                assert(now =~= old_entries.insert(i as int, (name, value)));
                assert forall|j: int| i <= j < old_entries.len() implies before(
                    k,
                    #[trigger] old_keys[j],
                ) by {
                    lemma_before_total(old_keys[i as int], k);
                    if j > i {
                        assert(before(old_keys[i as int], old_keys[j]));
                        lemma_before_transitive(k, old_keys[i as int], old_keys[j]);
                    }
                }
                assert forall|a: int, b: int| 0 <= a < b < new_keys.len() implies before(
                    #[trigger] new_keys[a],
                    #[trigger] new_keys[b],
                ) by {
                    let oa = if a < i {
                        a
                    } else {
                        a - 1
                    };
                    let ob = if b < i {
                        b
                    } else {
                        b - 1
                    };
                    if a == i {
                        assert(new_keys[b] == old_keys[ob]);
                    } else if b == i {
                        assert(new_keys[a] == old_keys[oa]);
                        assert(before(old_entries[oa].0@, k));
                    } else {
                        assert(new_keys[a] == old_keys[oa]);
                        assert(new_keys[b] == old_keys[ob]);
                    }
                }
                assert(!map_of(old_entries).contains_key(k)) by {
                    if map_of(old_entries).contains_key(k) {
                        let j = choose|j: int| holds(old_entries, k, j);
                        lemma_before_total(k, k);
                        assert(old_keys[j] == k);
                    }
                }
                assert forall|q: Seq<char>|
                    map_of(now).contains_key(q) == map_of(old_entries).insert(
                        k,
                        value,
                    ).contains_key(q) by {
                    if map_of(now).contains_key(q) {
                        let j = choose|j: int| holds(now, q, j);
                        if j < i {
                            assert(holds(old_entries, q, j));
                        } else if j > i {
                            assert(holds(old_entries, q, j - 1));
                        }
                    }
                    if map_of(old_entries).contains_key(q) {
                        let j = choose|j: int| holds(old_entries, q, j);
                        if j < i {
                            assert(holds(now, q, j));
                        } else {
                            assert(holds(now, q, j + 1));
                        }
                    }
                    assert(holds(now, k, i as int));
                }
                assert forall|q: Seq<char>| map_of(now).contains_key(q) implies map_of(now)[q]
                    == map_of(old_entries).insert(k, value)[q] by {
                    let j = choose|j: int| holds(now, q, j);
                    lemma_index(now, j);
                    if j < i {
                        lemma_index(old_entries, j);
                    } else if j > i {
                        lemma_index(old_entries, j - 1);
                    }
                    if q == k {
                        lemma_unique(now, i as int, j);
                    }
                }
                assert(map_of(now) =~= map_of(old_entries).insert(k, value));
            }
        }
    }

    /// Takes the value under a name out of the map.
    pub fn remove(&mut self, name: &str) -> (r: Option<V>)
        requires
            old(self).wf(),
        ensures
            final(self).wf(),
            final(self)@ == old(self)@.remove(name@),
            match r {
                Some(v) => old(self)@.contains_key(name@) && v == old(self)@[name@],
                None => !old(self)@.contains_key(name@),
            },
    {
        match self.position(name) {
            None => {
                assert(self@.remove(name@) =~= self@);
                None
            },
            Some(i) => {
                let ghost old_entries = self.entries@;
                let e = self.entries.remove(i);
                proof {
                    let now = self.entries@;
                    let k = name@;
                    let old_keys = keys_of(old_entries);
                    let new_keys = keys_of(now);
                    assert(now =~= old_entries.remove(i as int));
                    assert forall|a: int, b: int| 0 <= a < b < new_keys.len() implies before(
                        #[trigger] new_keys[a],
                        #[trigger] new_keys[b],
                    ) by {
                        let oa = if a < i {
                            a
                        } else {
                            a + 1
                        };
                        let ob = if b < i {
                            b
                        } else {
                            b + 1
                        };
                        assert(new_keys[a] == old_keys[oa]);
                        assert(new_keys[b] == old_keys[ob]);
                    }
                    assert forall|q: Seq<char>|
                        map_of(now).contains_key(q) == map_of(old_entries).remove(
                            k,
                        ).contains_key(q) by {
                        if map_of(now).contains_key(q) {
                            let j = choose|j: int| holds(now, q, j);
                            let oj = if j < i {
                                j
                            } else {
                                j + 1
                            };
                            assert(holds(old_entries, q, oj));
                            if q == k {
                                lemma_unique(old_entries, i as int, oj);
                            }
                        }
                        if map_of(old_entries).contains_key(q) && q != k {
                            let j = choose|j: int| holds(old_entries, q, j);
                            if j < i {
                                assert(holds(now, q, j));
                            } else {
                                assert(holds(now, q, j - 1));
                            }
                        }
                    }
                    assert forall|q: Seq<char>| map_of(now).contains_key(q) implies map_of(now)[q]
                        == map_of(old_entries).remove(k)[q] by {
                        let j = choose|j: int| holds(now, q, j);
                        lemma_index(now, j);
                        if j < i {
                            lemma_index(old_entries, j);
                        } else {
                            lemma_index(old_entries, j + 1);
                        }
                    }
                    assert(map_of(now) =~= map_of(old_entries).remove(k));
                }
                Some(e.1)
            },
        }
    }

    /// Hands out the value under a name to be changed in place.
    pub fn get_mut(&mut self, name: &str) -> (r: Option<&mut V>)
        requires
            old(self).wf(),
        ensures
            match r {
                Some(v) => old(self)@.contains_key(name@) && *v == old(self)@[name@]
                    && final(self)@ == old(self)@.insert(name@, *final(v)) && final(self).wf()
                    && final(self).names_in_order() == old(self).names_in_order(),
                None => !old(self)@.contains_key(name@) && *final(self) == *old(self),
            },
    {
        match self.position(name) {
            None => None,
            Some(i) => {
                proof {
                    lemma_update(self.entries@, i as int);
                }
                Some(&mut self.entries[i].1)
            },
        }
    }

    /// A second map with the same entries.
    pub fn duplicate(&self) -> (r: Self) where V: Copy
        requires
            self.wf(),
        ensures
            r.wf(),
            r@ == self@,
            r.names_in_order() == self.names_in_order(),
    {
        let mut entries: Vec<(String, V)> = Vec::new();
        let mut i: usize = 0;
        while i < self.entries.len()
            invariant
                i <= self.entries@.len(),
                entries@ == self.entries@.take(i as int),
            decreases self.entries@.len() - i,
        {
            let e = &self.entries[i];
            entries.push((e.0.clone(), e.1));
            proof {
                assert(entries@ =~= self.entries@.take(i + 1));
            }
            i += 1;
        }
        assert(entries@ =~= self.entries@);
        NameMap { entries }
    }

    /// The names in order.
    pub fn names(&self) -> (r: Vec<String>)
        requires
            self.wf(),
        ensures
            r@.map_values(|s: String| s@) == self.names_in_order(),
    {
        let mut out: Vec<String> = Vec::new();
        let mut i: usize = 0;
        while i < self.entries.len()
            invariant
                i <= self.entries@.len(),
                out@.len() == i,
                forall|j: int| 0 <= j < i ==> out@[j]@ == self.entries@[j].0@,
            decreases self.entries@.len() - i,
        {
            out.push(self.entries[i].0.clone());
            i += 1;
        }
        assert(out@.map_values(|s: String| s@) =~= self.names_in_order());
        out
    }
}

/// Changing the value of one entry changes the map at its name alone.
proof fn lemma_update<V>(entries: Seq<(String, V)>, i: int)
    requires
        strictly_sorted(keys_of(entries)),
        0 <= i < entries.len(),
    ensures
        forall|v: V| #![trigger entries.update(i, (entries[i].0, v))]
            {
                let now = entries.update(i, (entries[i].0, v));
                &&& keys_of(now) == keys_of(entries)
                &&& map_of(now) == map_of(entries).insert(entries[i].0@, v)
            },
{
    assert forall|v: V| #![trigger entries.update(i, (entries[i].0, v))]
        {
            let now = entries.update(i, (entries[i].0, v));
            &&& keys_of(now) == keys_of(entries)
            &&& map_of(now) == map_of(entries).insert(entries[i].0@, v)
        } by {
        let now = entries.update(i, (entries[i].0, v));
        let k = entries[i].0@;
        assert(keys_of(now) =~= keys_of(entries));
        assert forall|q: Seq<char>|
            map_of(now).contains_key(q) == map_of(entries).insert(k, v).contains_key(q) by {
            if map_of(now).contains_key(q) {
                let j = choose|j: int| holds(now, q, j);
                assert(holds(entries, q, j));
            }
            if map_of(entries).contains_key(q) {
                let j = choose|j: int| holds(entries, q, j);
                assert(holds(now, q, j));
            }
            assert(holds(now, k, i));
        }
        assert forall|q: Seq<char>| map_of(now).contains_key(q) implies map_of(now)[q] == map_of(
            entries,
        ).insert(k, v)[q] by {
            let j = choose|j: int| holds(now, q, j);
            lemma_index(now, j);
            lemma_index(entries, j);
            if q == k {
                lemma_unique(now, i, j);
            }
        }
        assert(map_of(now) =~= map_of(entries).insert(k, v));
    }
}

/// Of names in order, each stands before all that follow it, and none occurs twice.
pub proof fn law_names_in_order_stand_apart(names: Seq<Seq<char>>, i: int, j: int)
    requires
        strictly_sorted(names),
        0 <= i < names.len(),
        0 <= j < names.len(),
    ensures
        i < j ==> before(names[i], names[j]),
        names[i] == names[j] ==> i == j,
{
    if i < j {
        assert(before(names[i], names[j]));
        lemma_before_total(names[i], names[j]);
    }
    if j < i {
        assert(before(names[j], names[i]));
        lemma_before_total(names[j], names[i]);
    }
}

} // verus!
