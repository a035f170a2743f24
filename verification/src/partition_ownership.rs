//! The partitions that a node owns.
use vstd::prelude::*;

verus! {

/// Who has a partition.
#[derive(Debug, Clone, Copy, PartialEq, Eq, Structural)]
pub enum PartitionOwnership {
    /// A node owns it.
    Owned(u64),
    /// It is on its way from one node to another.
    Transferring { source: u64, target: u64 },
}

/// The partitions of a cluster and who has each.
pub struct PartitionTable {
    pub entries: Vec<(u16, PartitionOwnership)>,
}

impl PartitionTable {
    /// Each partition is named once.
    pub open spec fn wf(&self) -> bool {
        names_once(self.entries@)
    }

    /// Whether each partition is named once.
    pub fn is_valid(&self) -> (r: bool)
        ensures
            r == self.wf(),
    {
        let mut i: usize = 0;
        while i < self.entries.len()
            invariant
                i <= self.entries@.len(),
                names_once(self.entries@.take(i as int)),
            decreases self.entries@.len() - i,
        {
            let mut j: usize = 0;
            while j < i
                invariant
                    j <= i < self.entries@.len(),
                    forall|k: int|
                        0 <= k < j ==> (#[trigger] self.entries@[k]).0 != self.entries@[i as int].0,
                decreases i - j,
            {
                if self.entries[j].0 == self.entries[i].0 {
                    assert(self.entries@[j as int].0 == self.entries@[i as int].0);
                    return false;
                }
                j += 1;
            }
            i += 1;
        }
        proof {
            assert(self.entries@.take(self.entries@.len() as int) =~= self.entries@);
        }
        true
    }
}

/// Whether each partition stands in a list once.
pub open spec fn names_once(entries: Seq<(u16, PartitionOwnership)>) -> bool {
    forall|i: int, j: int|
        0 <= i < j < entries.len() ==> (#[trigger] entries[i]).0 != (#[trigger] entries[j]).0
}

/// The partitions that a node owns, in the order of the table.
pub open spec fn owned_by(entries: Seq<(u16, PartitionOwnership)>, node: u64) -> Seq<u16>
    decreases entries.len(),
{
    if entries.len() == 0 {
        seq![]
    } else {
        let rest = owned_by(entries.drop_last(), node);
        if entries.last().1 == PartitionOwnership::Owned(node) {
            rest.push(entries.last().0)
        } else {
            rest
        }
    }
}

/// Looks up the partitions of one node.
pub struct ClusterPartitionOwnership {
    pub my_id: u64,
}

impl ClusterPartitionOwnership {
    pub fn new(my_id: u64) -> (r: Self)
        ensures
            r.my_id == my_id,
    {
        ClusterPartitionOwnership { my_id }
    }

    /// The partitions that the node owns; nothing where it owns none, so that a source keeps its
    /// own default.
    pub fn owned_partitions(&self, table: &PartitionTable) -> (r: Option<Vec<u16>>)
        requires
            table.wf(),
        ensures
            match r {
                Some(owned) => {
                    &&& owned@ == owned_by(table.entries@, self.my_id)
                    &&& owned@.len() > 0
                    &&& owned@.no_duplicates()
                },
                None => owned_by(table.entries@, self.my_id).len() == 0,
            },
    {
        let mut owned: Vec<u16> = Vec::new();
        let mut i: usize = 0;
        while i < table.entries.len()
            invariant
                i <= table.entries@.len(),
                owned@ == owned_by(table.entries@.take(i as int), self.my_id),
            decreases table.entries@.len() - i,
        {
            proof {
                assert(table.entries@.take(i + 1).drop_last() =~= table.entries@.take(i as int));
            }
            if table.entries[i].1 == PartitionOwnership::Owned(self.my_id) {
                owned.push(table.entries[i].0);
            }
            i += 1;
        }
        proof {
            assert(table.entries@.take(table.entries@.len() as int) =~= table.entries@);
            lemma_owned_once(table.entries@, self.my_id);
        }
        if owned.len() == 0 {
            None
        } else {
            Some(owned)
        }
    }
}

/// No partition is owned by two nodes: the partitions of different nodes are different.
pub proof fn law_partitions_have_one_owner(
    entries: Seq<(u16, PartitionOwnership)>,
    a: u64,
    b: u64,
    p: u16,
)
    requires
        a != b,
        names_once(entries),
        owned_by(entries, a).contains(p),
    ensures
        !owned_by(entries, b).contains(p),
{
    lemma_owned_is_listed(entries, a, p);
    let i = choose|i: int|
        0 <= i < entries.len() && entries[i] == (p, PartitionOwnership::Owned(a));
    if owned_by(entries, b).contains(p) {
        lemma_owned_is_listed(entries, b, p);
        let j = choose|j: int|
            0 <= j < entries.len() && entries[j] == (p, PartitionOwnership::Owned(b));
        if i < j {
            assert(entries[i].0 != entries[j].0);
        } else if j < i {
            assert(entries[j].0 != entries[i].0);
        }
    }
}

proof fn lemma_owned_once(entries: Seq<(u16, PartitionOwnership)>, node: u64)
    requires
        names_once(entries),
    ensures
        owned_by(entries, node).no_duplicates(),
    decreases entries.len(),
{
    if entries.len() > 0 {
        let front = entries.drop_last();
        let last = entries.last().0;
        assert forall|i: int, j: int| 0 <= i < j < front.len() implies (#[trigger] front[i]).0 != (
        #[trigger] front[j]).0 by {
            assert(entries[i].0 != entries[j].0);
        }
        lemma_owned_once(front, node);
        if owned_by(front, node).contains(last) {
            lemma_owned_is_listed(front, node, last);
            let k = choose|k: int|
                0 <= k < front.len() && front[k] == (last, PartitionOwnership::Owned(node));
            assert(entries[k].0 != entries[entries.len() - 1].0);
        }
    }
}

proof fn lemma_owned_is_listed(entries: Seq<(u16, PartitionOwnership)>, node: u64, p: u16)
    requires
        owned_by(entries, node).contains(p),
    ensures
        exists|i: int|
            0 <= i < entries.len() && entries[i] == (p, PartitionOwnership::Owned(node)),
    decreases entries.len(),
{
    if entries.len() > 0 {
        let rest = owned_by(entries.drop_last(), node);
        let last = entries.len() - 1;
        if entries.last() == (p, PartitionOwnership::Owned(node)) {
            assert(entries[last] == (p, PartitionOwnership::Owned(node)));
        } else {
            let all = owned_by(entries, node);
            let k = choose|k: int| 0 <= k < all.len() && all[k] == p;
            assert(rest.contains(p)) by {
                assert(k < rest.len());
                assert(rest[k] == p);
            }
            lemma_owned_is_listed(entries.drop_last(), node, p);
            let i = choose|i: int|
                0 <= i < entries.drop_last().len() && entries.drop_last()[i] == (
                    p,
                    PartitionOwnership::Owned(node),
                );
            assert(entries[i] == (p, PartitionOwnership::Owned(node)));
        }
    }
}

/// A partition is among those that a node owns exactly where the table has it as owned by that
/// node.
pub proof fn law_a_node_owns_what_the_table_says(
    entries: Seq<(u16, PartitionOwnership)>,
    node: u64,
    p: u16,
)
    ensures
        owned_by(entries, node).contains(p) <==> exists|i: int|
            0 <= i < entries.len() && (#[trigger] entries[i]).0 == p && entries[i].1
                == PartitionOwnership::Owned(node),
    decreases entries.len(),
{
    if owned_by(entries, node).contains(p) {
        lemma_owned_is_listed(entries, node, p);
        let i = choose|i: int|
            0 <= i < entries.len() && entries[i] == (p, PartitionOwnership::Owned(node));
        assert(entries[i].0 == p);
    }
    if exists|i: int|
        0 <= i < entries.len() && (#[trigger] entries[i]).0 == p && entries[i].1
            == PartitionOwnership::Owned(node) {
        let i = choose|i: int|
            0 <= i < entries.len() && (#[trigger] entries[i]).0 == p && entries[i].1
                == PartitionOwnership::Owned(node);
        let rest = owned_by(entries.drop_last(), node);
        if i < entries.len() - 1 {
            assert(entries.drop_last()[i] == entries[i]);
            law_a_node_owns_what_the_table_says(entries.drop_last(), node, p);
            let w = choose|w: int| 0 <= w < rest.len() && rest[w] == p;
            assert(owned_by(entries, node)[w] == p);
        } else {
            assert(owned_by(entries, node)[rest.len() as int] == p);
        }
    }
}

/// The partitions of a node stand in the order of the table: those of two parts of the table, one
/// after the other, are those of the whole.
pub proof fn law_partitions_keep_the_order_of_the_table(
    a: Seq<(u16, PartitionOwnership)>,
    b: Seq<(u16, PartitionOwnership)>,
    node: u64,
)
    ensures
        owned_by(a + b, node) == owned_by(a, node) + owned_by(b, node),
    decreases b.len(),
{
    if b.len() == 0 {
        assert(a + b =~= a);
        assert(owned_by(a, node) + owned_by(b, node) =~= owned_by(a, node));
    } else {
        assert((a + b).drop_last() =~= a + b.drop_last());
        law_partitions_keep_the_order_of_the_table(a, b.drop_last(), node);
        assert(owned_by(a + b, node) =~= owned_by(a, node) + owned_by(b, node));
    }
}

/// A partition that the table has once is listed once: as often as entries of the table have it as
/// owned by the node.
pub proof fn law_each_owned_entry_is_listed_once(
    entries: Seq<(u16, PartitionOwnership)>,
    node: u64,
    p: u16,
)
    ensures
        owned_by(entries, node).to_multiset().count(p) == entries.to_multiset().count(
            (p, PartitionOwnership::Owned(node)),
        ),
    decreases entries.len(),
{
    broadcast use vstd::seq_lib::group_to_multiset_ensures;

    if entries.len() > 0 {
        let rest = entries.drop_last();
        let last = entries.last();
        law_each_owned_entry_is_listed_once(rest, node, p);
        assert(entries =~= rest.push(last));
        assert(last.1 == PartitionOwnership::Owned(node) ==> last == (
            last.0,
            PartitionOwnership::Owned(node),
        ));
    }
}

} // verus!
