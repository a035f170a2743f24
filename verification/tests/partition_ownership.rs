use aeon_engine::partition_ownership::{
    ClusterPartitionOwnership, PartitionOwnership, PartitionTable,
};

#[test]
fn a_table_names_each_partition_once() {
    assert!(table(&[1, 2, 1]).is_valid());
    assert!(table(&[]).is_valid());
    let twice = PartitionTable {
        entries: vec![(3, PartitionOwnership::Owned(1)), (3, PartitionOwnership::Owned(2))],
    };
    assert!(!twice.is_valid());
}

fn table(owners: &[u64]) -> PartitionTable {
    PartitionTable {
        entries: owners
            .iter()
            .enumerate()
            .map(|(i, n)| (i as u16, PartitionOwnership::Owned(*n)))
            .collect(),
    }
}

#[test]
fn empty_table_returns_none() {
    let r = ClusterPartitionOwnership::new(1);
    assert!(r.owned_partitions(&table(&[])).is_none());
}

#[test]
fn returns_only_partitions_owned_by_this_node() {
    let t = table(&[1, 2, 1, 3]);
    let mut owned = ClusterPartitionOwnership::new(1).owned_partitions(&t).expect("has ownership");
    owned.sort();
    assert_eq!(owned, vec![0, 2]);
    assert_eq!(ClusterPartitionOwnership::new(2).owned_partitions(&t), Some(vec![1]));
}

#[test]
fn node_with_no_partitions_returns_none_not_empty_vec() {
    let t = table(&[2]);
    assert!(ClusterPartitionOwnership::new(1).owned_partitions(&t).is_none());
}

#[test]
fn a_partition_on_its_way_is_owned_by_nobody() {
    let t = PartitionTable {
        entries: vec![
            (0, PartitionOwnership::Transferring { source: 1, target: 2 }),
            (1, PartitionOwnership::Owned(1)),
        ],
    };
    assert_eq!(ClusterPartitionOwnership::new(1).owned_partitions(&t), Some(vec![1]));
    assert!(ClusterPartitionOwnership::new(2).owned_partitions(&t).is_none());
}
