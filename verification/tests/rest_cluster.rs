use aeon_engine::partition_ownership::PartitionOwnership;
use aeon_engine::rest_api::cluster::{
    cluster_leave, cluster_status, gate, leave_plan, maybe_forward_to_leader, ownership_status,
    transfer_partition, BulkPlan, BulkResult, BulkTransfer, ClusterFacts, ClusterReport, Gate,
    LeaveFacts, RaftFacts, RemoveNodeResponse, TransferStatus,
};
use aeon_engine::rest_api::reply::{Body, Reply};

fn error_text(reply: &Reply) -> &str {
    match &reply.body {
        Body::Error { error } => error,
        other => panic!("a refusal was expected, not {other:?}"),
    }
}

#[test]
fn requests_go_to_the_leader() {
    match gate(false, None) {
        Gate::Refuse(reply) => {
            assert_eq!(reply.status, 503);
            assert_eq!(error_text(&reply), "cluster mode not enabled on this node");
        }
        _ => panic!("there is no cluster"),
    }
    let to = maybe_forward_to_leader(Some("http://leader/x".to_string()), Some(3));
    match gate(true, to) {
        Gate::Forward(r) => assert_eq!((r.location.as_str(), r.leader_id), ("http://leader/x", 3)),
        _ => panic!("another node leads"),
    }
    assert!(matches!(gate(true, maybe_forward_to_leader(None, Some(1))), Gate::Proceed));
    assert_eq!(maybe_forward_to_leader(Some("u".into()), None).unwrap().leader_id, 0);
}

#[test]
fn transfers_are_answered_by_status() {
    let accepted = transfer_partition(7, Ok(TransferStatus::Accepted { source: 1, target: 2 }));
    assert_eq!(accepted.status, 202);
    assert!(matches!(
        accepted.body,
        Body::TransferAccepted { partition: 7, source: 1, target: 2 }
    ));
    let follower = transfer_partition(
        7,
        Ok(TransferStatus::NotLeader { current_leader: Some(5) }),
    );
    assert_eq!((follower.status, follower.leader), (409, Some(5)));
    assert!(matches!(follower.body, Body::NotLeader { current_leader: Some(5) }));
    let unknown = transfer_partition(7, Ok(TransferStatus::UnknownPartition));
    assert_eq!(
        (unknown.status, error_text(&unknown)),
        (404, "partition 7 not found in partition table")
    );
    let busy = transfer_partition(
        7,
        Ok(TransferStatus::AlreadyTransferring { source: 1, target: 3 }),
    );
    assert_eq!(busy.status, 409);
    assert!(matches!(busy.body, Body::TransferInFlight { .. }));
    let same = transfer_partition(7, Ok(TransferStatus::NoChange { owner: 2 }));
    assert_eq!(same.status, 200);
    assert!(matches!(same.body, Body::TransferNoChange { partition: 7, owner: 2 }));
    let rejected = transfer_partition(7, Ok(TransferStatus::Rejected("no".into())));
    assert_eq!((rejected.status, error_text(&rejected)), (409, "no"));
    let failed = transfer_partition(7, Err("raft".into()));
    assert_eq!((failed.status, error_text(&failed)), (500, "raft"));
}

#[test]
fn a_node_asks_the_leader_to_leave() {
    let facts = LeaveFacts {
        node_id: 4,
        is_leader: false,
        current_leader: Some(2),
        leader_has_address: true,
        has_endpoint: true,
    };
    assert_eq!(leave_plan(Some(facts)).unwrap(), 2);
    let refusal = |f: Option<LeaveFacts>| leave_plan(f).unwrap_err();
    assert_eq!(refusal(None).status, 503);
    let leader = refusal(Some(LeaveFacts { is_leader: true, ..facts }));
    assert_eq!(leader.status, 409);
    assert!(matches!(leader.body, Body::LeaderCannotLeave { node_id: 4 }));
    let lost = refusal(Some(LeaveFacts { current_leader: None, ..facts }));
    assert_eq!(
        (lost.status, error_text(&lost)),
        (503, "no current Raft leader; cannot propose self-removal")
    );
    let nowhere = refusal(Some(LeaveFacts { leader_has_address: false, ..facts }));
    assert_eq!(
        (nowhere.status, error_text(&nowhere)),
        (500, "leader 2 has no address in Raft membership")
    );
    let mute = refusal(Some(LeaveFacts { has_endpoint: false, ..facts }));
    assert_eq!(
        (mute.status, error_text(&mute)),
        (503, "node has no QUIC endpoint (single-node bootstrap?)")
    );
}

#[test]
fn the_leaders_word_is_passed_on() {
    let answer = |success: bool| RemoveNodeResponse {
        success,
        leader_id: Some(2),
        message: "ok".into(),
    };
    let left = cluster_leave(4, 2, Ok(answer(true)));
    assert_eq!(left.status, 200);
    assert!(matches!(left.body, Body::Left { node_id: 4, leader_id: Some(2), .. }));
    let kept = cluster_leave(4, 2, Ok(answer(false)));
    assert_eq!((kept.status, error_text(&kept)), (409, "leader rejected remove: ok"));
    let failed = cluster_leave(4, 2, Err("timeout".into()));
    assert_eq!(
        (failed.status, error_text(&failed)),
        (500, "remove RPC to leader 2 failed: timeout")
    );
}

fn begin(transfers: Vec<(u16, u64)>) -> BulkTransfer {
    match BulkTransfer::begin(BulkPlan::Drain(1), Ok(transfers)) {
        Ok(bulk) => bulk,
        Err(_) => panic!("the members are known"),
    }
}

#[test]
fn many_partitions_are_moved_one_by_one() {
    let mut bulk = begin(vec![(0, 2), (1, 3), (2, 2), (3, 3)]);
    assert_eq!(bulk.next(), Some((0, 2)));
    bulk.proposed(Ok(TransferStatus::Accepted { source: 1, target: 2 }));
    assert_eq!(bulk.next(), Some((1, 3)));
    bulk.proposed(Ok(TransferStatus::NoChange { owner: 3 }));
    bulk.proposed(Ok(TransferStatus::AlreadyTransferring { source: 1, target: 2 }));
    assert_eq!(bulk.next(), Some((3, 3)));
    bulk.proposed(Ok(TransferStatus::Accepted { source: 1, target: 3 }));
    assert_eq!(bulk.next(), None);
    let (status, text, report) = bulk.finish();
    assert_eq!((status, text), (202, "accepted"));
    assert_eq!(report.operation, "drain");
    assert_eq!((report.planned, report.accepted, report.noop, report.rejected), (4, 2, 2, 0));
    assert!(matches!(
        report.results[2],
        BulkResult::AlreadyTransferring { partition: 2, source: 1, target: 2 }
    ));
}

#[test]
fn failures_make_the_answer_partial() {
    let mut bulk = begin(vec![(0, 2), (1, 3), (2, 2)]);
    bulk.proposed(Err("io".into()));
    bulk.proposed(Ok(TransferStatus::UnknownPartition));
    bulk.proposed(Ok(TransferStatus::Rejected("no".into())));
    let (status, text, report) = bulk.finish();
    assert_eq!((status, text), (207, "partial"));
    assert_eq!((report.accepted, report.noop, report.rejected), (0, 0, 3));
    assert!(matches!(&report.results[0], BulkResult::Failed { message, .. } if message == "io"));
}

#[test]
fn losing_leadership_ends_the_work() {
    let mut bulk = begin(vec![(0, 2), (1, 3), (2, 2)]);
    bulk.proposed(Ok(TransferStatus::Accepted { source: 1, target: 2 }));
    bulk.proposed(Ok(TransferStatus::NotLeader { current_leader: Some(9) }));
    assert_eq!(bulk.next(), None);
    let (status, _, report) = bulk.finish();
    assert_eq!(status, 207);
    assert_eq!(report.planned, 3);
    assert_eq!(report.results.len(), 2);
    assert!(matches!(
        report.results[1],
        BulkResult::LostLeadership { partition: 1, target: 3, current_leader: Some(9) }
    ));
}

#[test]
fn nothing_to_move_is_no_work() {
    let (status, text, report) = begin(Vec::new()).finish();
    assert_eq!((status, text, report.planned), (200, "noop", 0));
    let rebalance = BulkTransfer::begin(BulkPlan::Rebalance, Err("no quorum".into()));
    match rebalance {
        Err(reply) => assert_eq!(
            (reply.status, error_text(&reply)),
            (500, "read cluster membership: no quorum")
        ),
        Ok(_) => panic!("the members are not known"),
    }
    assert!(BulkTransfer::check_leader(true, None).is_ok());
    let other = BulkTransfer::check_leader(false, Some(6)).unwrap_err();
    assert_eq!((other.status, other.leader), (409, Some(6)));
}

#[test]
fn partitions_have_a_status() {
    assert_eq!(ownership_status(&PartitionOwnership::Owned(1)), "owned");
    assert_eq!(
        ownership_status(&PartitionOwnership::Transferring { source: 1, target: 2 }),
        "transferring"
    );
}

#[test]
fn cluster_status_standalone() {
    assert!(matches!(
        cluster_status(None),
        ClusterReport::Standalone { message: "no cluster node configured" }
    ));
}

#[test]
fn the_cluster_is_reported_partition_by_partition() {
    let facts = ClusterFacts {
        node_id: 1,
        leader_id: Some(2),
        num_partitions: 2,
        partitions: vec![
            (0, PartitionOwnership::Owned(1)),
            (17, PartitionOwnership::Transferring { source: 1, target: 2 }),
        ],
        raft: RaftFacts {
            state: "Follower".to_string(),
            current_term: 3,
            last_applied: Some(9),
            last_log_index: None,
            membership: "{1,2}".to_string(),
        },
    };
    match cluster_status(Some(facts)) {
        ClusterReport::Cluster { node_id, leader_id, num_partitions, partitions, raft } => {
            assert_eq!((node_id, leader_id, num_partitions), (1, Some(2), 2));
            assert_eq!((partitions[0].partition.as_str(), partitions[0].status), ("0", "owned"));
            assert_eq!(partitions[1].partition, "17");
            assert_eq!(partitions[1].status, "transferring");
            assert_eq!(
                partitions[1].ownership,
                PartitionOwnership::Transferring { source: 1, target: 2 }
            );
            assert_eq!((raft.current_term, raft.last_applied), (3, Some(9)));
        }
        other => panic!("the node is part of a cluster: {other:?}"),
    }
}
