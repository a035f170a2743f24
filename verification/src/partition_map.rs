//! A map whose keys are a pipeline and a partition.
use vstd::prelude::*;

use crate::text::same_text;

verus! {

/// A map whose keys are a pipeline's name and the number of a partition.
pub struct PartitionMap<V> {
    entries: Vec<(String, u16, V)>,
}

spec fn key_at<V>(entries: Seq<(String, u16, V)>, i: int) -> (Seq<char>, u16) {
    (entries[i].0@, entries[i].1)
}

spec fn distinct<V>(entries: Seq<(String, u16, V)>) -> bool {
    forall|i: int, j: int|
        0 <= i < j < entries.len() ==> #[trigger] key_at(entries, i) != #[trigger] key_at(
            entries,
            j,
        )
}

spec fn holds<V>(entries: Seq<(String, u16, V)>, k: (Seq<char>, u16), i: int) -> bool {
    0 <= i < entries.len() && key_at(entries, i) == k
}

spec fn map_of<V>(entries: Seq<(String, u16, V)>) -> Map<(Seq<char>, u16), V> {
    Map::new(
        |k: (Seq<char>, u16)| exists|i: int| holds(entries, k, i),
        |k: (Seq<char>, u16)| entries[choose|i: int| holds(entries, k, i)].2,
    )
}

proof fn lemma_entry<V>(entries: Seq<(String, u16, V)>, i: int)
    requires
        distinct(entries),
        0 <= i < entries.len(),
    ensures
        map_of(entries).contains_key(key_at(entries, i)),
        map_of(entries)[key_at(entries, i)] == entries[i].2,
{
    let k = key_at(entries, i);
    assert(holds(entries, k, i));
    let j = choose|j: int| holds(entries, k, j);
    if i < j {
        assert(key_at(entries, i) != key_at(entries, j));
    } else if j < i {
        assert(key_at(entries, j) != key_at(entries, i));
    }
}

impl<V> View for PartitionMap<V> {
    type V = Map<(Seq<char>, u16), V>;

    closed spec fn view(&self) -> Map<(Seq<char>, u16), V> {
        map_of(self.entries@)
    }
}

impl<V> PartitionMap<V> {
    pub closed spec fn wf(&self) -> bool {
        distinct(self.entries@)
    }

    pub fn new() -> (r: Self)
        ensures
            r.wf(),
            r@ == Map::<(Seq<char>, u16), V>::empty(),
    {
        let r = PartitionMap { entries: Vec::new() };
        assert(r@ =~= Map::<(Seq<char>, u16), V>::empty());
        r
    }

    fn position(&self, pipeline: &str, partition: u16) -> (r: Option<usize>)
        requires
            self.wf(),
        ensures
            match r {
                Some(i) => i < self.entries@.len() && key_at(self.entries@, i as int) == (
                    pipeline@,
                    partition,
                ) && self@.contains_key((pipeline@, partition)) && self@[(pipeline@, partition)]
                    == self.entries@[i as int].2,
                None => !self@.contains_key((pipeline@, partition)),
            },
    {
        let mut i: usize = 0;
        while i < self.entries.len()
            invariant
                self.wf(),
                i <= self.entries@.len(),
                forall|j: int|
                    0 <= j < i ==> #[trigger] key_at(self.entries@, j) != (pipeline@, partition),
            decreases self.entries@.len() - i,
        {
            let e = &self.entries[i];
            if e.1 == partition && same_text(e.0.as_str(), pipeline) {
                proof {
                    lemma_entry(self.entries@, i as int);
                }
                return Some(i);
            }
            i += 1;
        }
        proof {
            if self@.contains_key((pipeline@, partition)) {
                let j = choose|j: int| holds(self.entries@, (pipeline@, partition), j);
                assert(key_at(self.entries@, j) == (pipeline@, partition));
            }
        }
        None
    }

    pub fn contains(&self, pipeline: &str, partition: u16) -> (r: bool)
        requires
            self.wf(),
        ensures
            r == self@.contains_key((pipeline@, partition)),
    {
        self.position(pipeline, partition).is_some()
    }

    /// Takes the value of a partition out of the map.
    pub fn remove(&mut self, pipeline: &str, partition: u16) -> (r: Option<V>)
        requires
            old(self).wf(),
        ensures
            final(self).wf(),
            final(self)@ == old(self)@.remove((pipeline@, partition)),
            match r {
                Some(v) => old(self)@.contains_key((pipeline@, partition)) && v == old(self)@[(
                    pipeline@,
                    partition,
                )],
                None => !old(self)@.contains_key((pipeline@, partition)),
            },
    {
        let ghost k = (pipeline@, partition);
        match self.position(pipeline, partition) {
            None => {
                assert(self@.remove(k) =~= self@);
                None
            },
            Some(i) => {
                let ghost before = self.entries@;
                let e = self.entries.remove(i);
                proof {
                    let now = self.entries@;
                    assert(now =~= before.remove(i as int));
                    assert forall|a: int, b: int| 0 <= a < b < now.len() implies #[trigger] key_at(
                        now,
                        a,
                    ) != #[trigger] key_at(now, b) by {
                        let oa = if a < i {
                            a
                        } else {
                            a + 1
                        };
                        let ob = if b < i {
                            b
                        } else {
                            b + 1
                        };
                        assert(key_at(before, oa) != key_at(before, ob));
                    }
                    assert forall|q: (Seq<char>, u16)|
                        map_of(now).contains_key(q) == map_of(before).remove(k).contains_key(q) by {
                        if map_of(now).contains_key(q) {
                            let j = choose|j: int| holds(now, q, j);
                            let oj = if j < i {
                                j
                            } else {
                                j + 1
                            };
                            assert(holds(before, q, oj));
                            if q == k {
                                if oj < i {
                                    assert(key_at(before, oj) != key_at(before, i as int));
                                } else {
                                    assert(key_at(before, i as int) != key_at(before, oj));
                                }
                            }
                        }
                        if map_of(before).contains_key(q) && q != k {
                            let j = choose|j: int| holds(before, q, j);
                            if j < i {
                                assert(holds(now, q, j));
                            } else {
                                assert(holds(now, q, j - 1));
                            }
                        }
                    }
                    assert forall|q: (Seq<char>, u16)| map_of(now).contains_key(q) implies map_of(
                        now,
                    )[q] == map_of(before).remove(k)[q] by {
                        let j = choose|j: int| holds(now, q, j);
                        lemma_entry(now, j);
                        if j < i {
                            lemma_entry(before, j);
                        } else {
                            lemma_entry(before, j + 1);
                        }
                    }
                    assert(map_of(now) =~= map_of(before).remove(k));
                }
                Some(e.2)
            },
        }
    }

    /// Puts a value under a partition, in place of what stood there.
    pub fn insert(&mut self, pipeline: &str, partition: u16, value: V)
        requires
            old(self).wf(),
        ensures
            final(self).wf(),
            final(self)@ == old(self)@.insert((pipeline@, partition), value),
    {
        self.remove(pipeline, partition);
        let ghost k = (pipeline@, partition);
        let ghost before = self.entries@;
        self.entries.push((pipeline.to_owned(), partition, value));
        proof {
            let now = self.entries@;
            let n = before.len() as int;
            assert(!map_of(before).contains_key(k));
            assert forall|a: int, b: int| 0 <= a < b < now.len() implies #[trigger] key_at(now, a)
                != #[trigger] key_at(now, b) by {
                if b < n {
                    assert(key_at(before, a) != key_at(before, b));
                } else if key_at(now, a) == k {
                    assert(holds(before, k, a));
                }
            }
            assert forall|q: (Seq<char>, u16)|
                map_of(now).contains_key(q) == map_of(before).insert(k, value).contains_key(q) by {
                if map_of(now).contains_key(q) {
                    let j = choose|j: int| holds(now, q, j);
                    if j < n {
                        assert(holds(before, q, j));
                    }
                }
                if map_of(before).contains_key(q) {
                    let j = choose|j: int| holds(before, q, j);
                    assert(holds(now, q, j));
                }
                assert(holds(now, k, n));
            }
            assert forall|q: (Seq<char>, u16)| map_of(now).contains_key(q) implies map_of(now)[q]
                == map_of(before).insert(k, value)[q] by {
                let j = choose|j: int| holds(now, q, j);
                lemma_entry(now, j);
                if j < n {
                    lemma_entry(before, j);
                }
            }
            assert(map_of(now) =~= map_of(before).insert(k, value));
            assert(old(self)@.remove(k).insert(k, value) =~= old(self)@.insert(k, value));
        }
    }

    /// Hands out the value of a partition to be changed in place.
    pub fn get_mut(&mut self, pipeline: &str, partition: u16) -> (r: Option<&mut V>)
        requires
            old(self).wf(),
        ensures
            match r {
                Some(v) => old(self)@.contains_key((pipeline@, partition)) && *v == old(self)@[(
                    pipeline@,
                    partition,
                )] && final(self)@ == old(self)@.insert((pipeline@, partition), *final(v))
                    && final(self).wf(),
                None => !old(self)@.contains_key((pipeline@, partition)) && *final(self) == *old(
                    self,
                ),
            },
    {
        match self.position(pipeline, partition) {
            None => None,
            Some(i) => {
                proof {
                    lemma_update(self.entries@, i as int);
                }
                Some(&mut self.entries[i].2)
            },
        }
    }
}

/// Changing the value of one entry changes the map at its key alone.
proof fn lemma_update<V>(entries: Seq<(String, u16, V)>, i: int)
    requires
        distinct(entries),
        0 <= i < entries.len(),
    ensures
        forall|v: V| #![trigger entries.update(i, (entries[i].0, entries[i].1, v))]
            {
                let now = entries.update(i, (entries[i].0, entries[i].1, v));
                &&& distinct(now)
                &&& map_of(now) == map_of(entries).insert(key_at(entries, i), v)
            },
{
    assert forall|v: V| #![trigger entries.update(i, (entries[i].0, entries[i].1, v))]
        {
            let now = entries.update(i, (entries[i].0, entries[i].1, v));
            &&& distinct(now)
            &&& map_of(now) == map_of(entries).insert(key_at(entries, i), v)
        } by {
        let now = entries.update(i, (entries[i].0, entries[i].1, v));
        let k = key_at(entries, i);
        assert forall|a: int| 0 <= a < now.len() implies #[trigger] key_at(now, a) == key_at(
            entries,
            a,
        ) by {}
        assert forall|a: int, b: int| 0 <= a < b < now.len() implies #[trigger] key_at(now, a)
            != #[trigger] key_at(now, b) by {
            assert(key_at(entries, a) != key_at(entries, b));
        }
        assert forall|q: (Seq<char>, u16)|
            map_of(now).contains_key(q) == map_of(entries).insert(k, v).contains_key(q) by {
            if map_of(now).contains_key(q) {
                let j = choose|j: int| holds(now, q, j);
                assert(holds(entries, q, j));
            }
            if map_of(entries).contains_key(q) {
                let j = choose|j: int| holds(entries, q, j);
                assert(holds(now, q, j));
            }
            assert(holds(now, k, i));
        }
        assert forall|q: (Seq<char>, u16)| map_of(now).contains_key(q) implies map_of(now)[q]
            == map_of(entries).insert(k, v)[q] by {
            let j = choose|j: int| holds(now, q, j);
            lemma_entry(now, j);
            lemma_entry(entries, j);
            if q == k && j != i {
                if j < i {
                    assert(key_at(entries, j) != key_at(entries, i));
                } else {
                    assert(key_at(entries, i) != key_at(entries, j));
                }
            }
        }
        assert(map_of(now) =~= map_of(entries).insert(k, v));
    }
}

} // verus!
