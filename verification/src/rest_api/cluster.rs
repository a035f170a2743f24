//! Requests that concern the cluster: where they go, and what they are answered.
use vstd::prelude::*;

use crate::partition_ownership::PartitionOwnership;
use crate::rest_api::reply::{is_error, is_not_leader, Body, Reply};
use crate::text::{
    decimal, join2, join3, join4, law_a_number_is_read_back, number, u64_text,
};

verus! {

/// Where a request is sent on to: the place, and the node that leads.
#[derive(Debug)]
pub struct Redirect {
    pub location: String,
    pub leader_id: u64,
}

/// Whether a request that only the leader can serve is served here.
pub enum Gate {
    /// There is no cluster to ask.
    Refuse(Reply),
    /// The leader is asked.
    Forward(Redirect),
    /// It is served here.
    Proceed,
}

/// Where a request is sent on to. `location` is the leader's place for it, which is known only
/// where another node leads; a leader that is not known by its number counts as 0.
pub fn maybe_forward_to_leader(location: Option<String>, leader: Option<u64>) -> (r: Option<
    Redirect,
>)
    ensures
        match location {
            None => r is None,
            Some(at) => r is Some && r->0.location == at && r->0.leader_id == (match leader {
                Some(id) => id,
                None => 0,
            }),
        },
{
    match location {
        None => None,
        Some(location) => Some(
            Redirect {
                location,
                leader_id: match leader {
                    Some(id) => id,
                    None => 0,
                },
            },
        ),
    }
}

/// The refusal of a request on a node without a cluster.
pub open spec fn no_cluster() -> Seq<char> {
    "cluster mode not enabled on this node"@
}

/// Decides whether a request that only the leader can serve is served here.
pub fn gate(clustered: bool, redirect: Option<Redirect>) -> (r: Gate)
    ensures
        match r {
            Gate::Refuse(reply) => !clustered && is_error(reply, 503, no_cluster()),
            Gate::Forward(to) => clustered && redirect == Some(to),
            Gate::Proceed => clustered && redirect is None,
        },
{
    if !clustered {
        return Gate::Refuse(
            Reply::error(503, "cluster mode not enabled on this node".to_owned()),
        );
    }
    match redirect {
        Some(to) => Gate::Forward(to),
        None => Gate::Proceed,
    }
}

/// What the cluster says of the transfer of a partition.
#[derive(Debug)]
pub enum TransferStatus {
    Accepted { source: u64, target: u64 },
    NotLeader { current_leader: Option<u64> },
    UnknownPartition,
    AlreadyTransferring { source: u64, target: u64 },
    NoChange { owner: u64 },
    Rejected(String),
}

/// Answers a request to move one partition. `outcome` is what the cluster says, or why it could
/// not be asked.
pub fn transfer_partition(partition: u16, outcome: Result<TransferStatus, String>) -> (r: Reply)
    ensures
        match outcome {
            Err(why) => is_error(r, 500, why@),
            Ok(TransferStatus::Accepted { source, target }) => r == (Reply {
                status: 202,
                leader: None,
                body: Body::TransferAccepted { partition, source, target },
            }),
            Ok(TransferStatus::NotLeader { current_leader }) => is_not_leader(r, current_leader),
            Ok(TransferStatus::UnknownPartition) => is_error(
                r,
                404,
                "partition "@ + decimal(partition as nat) + " not found in partition table"@,
            ),
            Ok(TransferStatus::AlreadyTransferring { source, target }) => r == (Reply {
                status: 409,
                leader: None,
                body: Body::TransferInFlight { partition, source, target },
            }),
            Ok(TransferStatus::NoChange { owner }) => r == (Reply {
                status: 200,
                leader: None,
                body: Body::TransferNoChange { partition, owner },
            }),
            Ok(TransferStatus::Rejected(why)) => is_error(r, 409, why@),
        },
{
    match outcome {
        Err(why) => Reply::error(500, why),
        Ok(TransferStatus::Accepted { source, target }) => Reply::new(
            202,
            Body::TransferAccepted { partition, source, target },
        ),
        Ok(TransferStatus::NotLeader { current_leader }) => Reply::not_leader(current_leader),
        Ok(TransferStatus::UnknownPartition) => {
            let number = u64_text(partition as u64);
            Reply::error(
                404,
                join3("partition ", number.as_str(), " not found in partition table"),
            )
        },
        Ok(TransferStatus::AlreadyTransferring { source, target }) => Reply::new(
            409,
            Body::TransferInFlight { partition, source, target },
        ),
        Ok(TransferStatus::NoChange { owner }) => Reply::new(
            200,
            Body::TransferNoChange { partition, owner },
        ),
        Ok(TransferStatus::Rejected(why)) => Reply::error(409, why),
    }
}

/// What a node that wants to leave knows.
#[derive(Debug, Clone, Copy, PartialEq, Eq, Structural)]
pub struct LeaveFacts {
    pub node_id: u64,
    pub is_leader: bool,
    pub current_leader: Option<u64>,
    /// Whether the leader's address is known.
    pub leader_has_address: bool,
    /// Whether this node can send requests.
    pub has_endpoint: bool,
}

/// Decides which node is to be asked to remove this one, or why none can be.
pub fn leave_plan(facts: Option<LeaveFacts>) -> (r: Result<u64, Reply>)
    ensures
        match facts {
            None => r is Err && is_error(r->Err_0, 503, no_cluster()),
            Some(f) => if f.is_leader {
                r == Err::<u64, Reply>(
                    Reply {
                        status: 409,
                        leader: None,
                        body: Body::LeaderCannotLeave { node_id: f.node_id },
                    },
                )
            } else {
                match f.current_leader {
                    None => r is Err && is_error(
                        r->Err_0,
                        503,
                        "no current Raft leader; cannot propose self-removal"@,
                    ),
                    Some(leader) => if !f.leader_has_address {
                        r is Err && is_error(
                            r->Err_0,
                            500,
                            "leader "@ + decimal(leader as nat)
                                + " has no address in Raft membership"@,
                        )
                    } else if !f.has_endpoint {
                        r is Err && is_error(
                            r->Err_0,
                            503,
                            "node has no QUIC endpoint (single-node bootstrap?)"@,
                        )
                    } else {
                        r == Ok::<u64, Reply>(leader)
                    },
                }
            },
        },
{
    let f = match facts {
        Some(f) => f,
        None => {
            return Err(Reply::error(503, "cluster mode not enabled on this node".to_owned()));
        },
    };
    if f.is_leader {
        return Err(Reply::new(409, Body::LeaderCannotLeave { node_id: f.node_id }));
    }
    let leader: u64 = match f.current_leader {
        Some(id) => id,
        None => {
            return Err(
                Reply::error(
                    503,
                    "no current Raft leader; cannot propose self-removal".to_owned(),
                ),
            );
        },
    };
    if !f.leader_has_address {
        let number = u64_text(leader);
        return Err(
            Reply::error(
                500,
                join3("leader ", number.as_str(), " has no address in Raft membership"),
            ),
        );
    }
    if !f.has_endpoint {
        return Err(
            Reply::error(503, "node has no QUIC endpoint (single-node bootstrap?)".to_owned()),
        );
    }
    Ok(leader)
}

/// What the leader says to a node that wants to leave.
pub struct RemoveNodeResponse {
    pub success: bool,
    pub leader_id: Option<u64>,
    pub message: String,
}

/// Answers a request of this node to leave, from what the leader says, or why it could not be
/// asked.
pub fn cluster_leave(
    node_id: u64,
    leader_id: u64,
    outcome: Result<RemoveNodeResponse, String>,
) -> (r: Reply)
    ensures
        match outcome {
            Ok(answer) => if answer.success {
                r == (Reply {
                    status: 200,
                    leader: None,
                    body: Body::Left {
                        node_id,
                        leader_id: answer.leader_id,
                        message: answer.message,
                    },
                })
            } else {
                is_error(r, 409, "leader rejected remove: "@ + answer.message@)
            },
            Err(why) => is_error(
                r,
                500,
                "remove RPC to leader "@ + decimal(leader_id as nat) + " failed: "@ + why@,
            ),
        },
{
    match outcome {
        Ok(answer) => {
            if answer.success {
                Reply::new(
                    200,
                    Body::Left { node_id, leader_id: answer.leader_id, message: answer.message },
                )
            } else {
                Reply::error(409, join2("leader rejected remove: ", answer.message.as_str()))
            }
        },
        Err(why) => {
            let number = u64_text(leader_id);
            Reply::error(
                500,
                join4("remove RPC to leader ", number.as_str(), " failed: ", why.as_str()),
            )
        },
    }
}

/// A request that moves many partitions.
#[derive(Debug, Clone, Copy, PartialEq, Eq, Structural)]
pub enum BulkPlan {
    /// Everything is moved away from this node.
    Drain(u64),
    /// Partitions are spread evenly.
    Rebalance,
}

impl BulkPlan {
    /// The request as text.
    pub open spec fn text(self) -> Seq<char> {
        match self {
            BulkPlan::Drain(_) => "drain"@,
            BulkPlan::Rebalance => "rebalance"@,
        }
    }

    pub fn as_text(&self) -> (r: &'static str)
        ensures
            r@ == self.text(),
    {
        match self {
            BulkPlan::Drain(_) => "drain",
            BulkPlan::Rebalance => "rebalance",
        }
    }
}

/// What became of one partition.
#[derive(Debug)]
pub enum BulkResult {
    Accepted { partition: u16, source: u64, target: u64 },
    NoChange { partition: u16, owner: u64 },
    AlreadyTransferring { partition: u16, source: u64, target: u64 },
    UnknownPartition { partition: u16 },
    Rejected { partition: u16, target: u64, message: String },
    /// The cluster could not be asked.
    Failed { partition: u16, target: u64, message: String },
    /// This node does not lead any more.
    LostLeadership { partition: u16, target: u64, current_leader: Option<u64> },
}

/// What becomes of one partition, from what the cluster says.
pub open spec fn result_of(
    partition: u16,
    target: u64,
    outcome: Result<TransferStatus, String>,
) -> BulkResult {
    match outcome {
        Err(message) => BulkResult::Failed { partition, target, message },
        Ok(TransferStatus::Accepted { source, target: to }) => BulkResult::Accepted {
            partition,
            source,
            target: to,
        },
        Ok(TransferStatus::NoChange { owner }) => BulkResult::NoChange { partition, owner },
        Ok(
            TransferStatus::AlreadyTransferring { source, target: to },
        ) => BulkResult::AlreadyTransferring { partition, source, target: to },
        Ok(TransferStatus::UnknownPartition) => BulkResult::UnknownPartition { partition },
        Ok(TransferStatus::Rejected(message)) => BulkResult::Rejected {
            partition,
            target,
            message,
        },
        Ok(TransferStatus::NotLeader { current_leader }) => BulkResult::LostLeadership {
            partition,
            target,
            current_leader,
        },
    }
}

/// Whether a result is counted as accepted.
pub open spec fn counts_accepted(r: BulkResult) -> bool {
    r is Accepted
}

/// Whether a result is counted as nothing to do.
pub open spec fn counts_noop(r: BulkResult) -> bool {
    r is NoChange || r is AlreadyTransferring
}

/// Whether a result is counted as rejected.
pub open spec fn counts_rejected(r: BulkResult) -> bool {
    !counts_accepted(r) && !counts_noop(r)
}

/// How many results are counted in some way.
pub open spec fn tally(results: Seq<BulkResult>, counted: spec_fn(BulkResult) -> bool) -> nat
    decreases results.len(),
{
    if results.len() == 0 {
        0
    } else {
        tally(results.drop_last(), counted) + if counted(results.last()) {
            1nat
        } else {
            0nat
        }
    }
}

/// The answer to a request that moves many partitions.
pub struct BulkReport {
    pub operation: &'static str,
    pub planned: usize,
    pub accepted: usize,
    pub noop: usize,
    pub rejected: usize,
    pub results: Vec<BulkResult>,
}

/// The status of the answer to a request that moves many partitions, and what it says.
pub open spec fn bulk_status(planned: nat, rejected: nat) -> (u16, Seq<char>) {
    if planned == 0 {
        (200, "noop"@)
    } else if rejected == 0 {
        (202, "accepted"@)
    } else {
        (207, "partial"@)
    }
}

/// A request that moves many partitions, one after the other.
pub struct BulkTransfer {
    plan: BulkPlan,
    transfers: Vec<(u16, u64)>,
    results: Vec<BulkResult>,
    accepted: usize,
    noop: usize,
    rejected: usize,
    lost: bool,
}

impl BulkTransfer {
    pub closed spec fn wf(&self) -> bool {
        &&& self.results@.len() <= self.transfers@.len()
        &&& self.accepted == tally(self.results@, |r: BulkResult| counts_accepted(r))
        &&& self.noop == tally(self.results@, |r: BulkResult| counts_noop(r))
        &&& self.rejected == tally(self.results@, |r: BulkResult| counts_rejected(r))
        &&& self.accepted + self.noop + self.rejected == self.results@.len()
        &&& self.lost ==> self.results@.len() > 0 && self.results@.last() is LostLeadership
    }

    /// What is asked for.
    pub closed spec fn request(&self) -> BulkPlan {
        self.plan
    }

    /// The partitions that are to be moved, and where to.
    pub closed spec fn planned(&self) -> Seq<(u16, u64)> {
        self.transfers@
    }

    /// What became of the partitions so far, in the order of the plan.
    pub closed spec fn outcomes(&self) -> Seq<BulkResult> {
        self.results@
    }

    /// Whether this node led to the end.
    pub closed spec fn lost_leadership(&self) -> bool {
        self.lost
    }

    /// Refuses the request where another node leads.
    pub fn check_leader(is_leader: bool, current_leader: Option<u64>) -> (r: Result<(), Reply>)
        ensures
            if is_leader {
                r is Ok
            } else {
                r is Err && is_not_leader(r->Err_0, current_leader)
            },
    {
        if is_leader {
            Ok(())
        } else {
            Err(Reply::not_leader(current_leader))
        }
    }

    /// Begins with a plan, unless the members of the cluster could not be had.
    pub fn begin(plan: BulkPlan, transfers: Result<Vec<(u16, u64)>, String>) -> (r: Result<
        Self,
        Reply,
    >)
        ensures
            match transfers {
                Ok(list) => {
                    &&& r is Ok
                    &&& r->Ok_0.wf()
                    &&& r->Ok_0.request() == plan
                    &&& r->Ok_0.planned() == list@
                    &&& r->Ok_0.outcomes() == Seq::<BulkResult>::empty()
                    &&& !r->Ok_0.lost_leadership()
                },
                Err(why) => r is Err && is_error(
                    r->Err_0,
                    500,
                    "read cluster membership: "@ + why@,
                ),
            },
    {
        match transfers {
            Ok(transfers) => Ok(
                BulkTransfer {
                    plan,
                    transfers,
                    results: Vec::new(),
                    accepted: 0,
                    noop: 0,
                    rejected: 0,
                    lost: false,
                },
            ),
            Err(why) => Err(Reply::error(500, join2("read cluster membership: ", why.as_str()))),
        }
    }

    /// The next partition to move, and where to. There is none after leadership was lost.
    pub fn next(&self) -> (r: Option<(u16, u64)>)
        requires
            self.wf(),
        ensures
            match r {
                Some(t) => !self.lost_leadership() && self.outcomes().len() < self.planned().len()
                    && t == self.planned()[self.outcomes().len() as int],
                None => self.lost_leadership() || self.outcomes().len() == self.planned().len(),
            },
    {
        let at = self.results.len();
        if self.lost || at >= self.transfers.len() {
            None
        } else {
            Some(self.transfers[at])
        }
    }

    /// Takes what the cluster says of the next partition.
    pub fn proposed(&mut self, outcome: Result<TransferStatus, String>)
        requires
            old(self).wf(),
            !old(self).lost_leadership(),
            old(self).outcomes().len() < old(self).planned().len(),
        ensures
            final(self).wf(),
            final(self).request() == old(self).request(),
            final(self).planned() == old(self).planned(),
            ({
                let t = old(self).planned()[old(self).outcomes().len() as int];
                &&& final(self).outcomes() == old(self).outcomes().push(
                    result_of(t.0, t.1, outcome),
                )
                &&& final(self).lost_leadership() == result_of(t.0, t.1, outcome) is LostLeadership
            }),
    {
        let planned = self.transfers.len();
        assert(self.results@.len() < planned);
        let (partition, target) = self.transfers[self.results.len()];
        let ghost before = self.results@;
        let result = match outcome {
            Err(message) => BulkResult::Failed { partition, target, message },
            Ok(TransferStatus::Accepted { source, target: to }) => BulkResult::Accepted {
                partition,
                source,
                target: to,
            },
            Ok(TransferStatus::NoChange { owner }) => BulkResult::NoChange { partition, owner },
            Ok(
                TransferStatus::AlreadyTransferring { source, target: to },
            ) => BulkResult::AlreadyTransferring { partition, source, target: to },
            Ok(TransferStatus::UnknownPartition) => BulkResult::UnknownPartition { partition },
            Ok(TransferStatus::Rejected(message)) => BulkResult::Rejected {
                partition,
                target,
                message,
            },
            Ok(TransferStatus::NotLeader { current_leader }) => {
                self.lost = true;
                BulkResult::LostLeadership { partition, target, current_leader }
            },
        };
        match &result {
            BulkResult::Accepted { .. } => {
                self.accepted += 1;
            },
            BulkResult::NoChange { .. } | BulkResult::AlreadyTransferring { .. } => {
                self.noop += 1;
            },
            _ => {
                self.rejected += 1;
            },
        }
        self.results.push(result);
        proof {
            assert(self.results@.drop_last() =~= before);
            assert(self.results@.last() == result);
        }
    }

    /// Answers the request.
    pub fn finish(self) -> (r: (u16, &'static str, BulkReport))
        requires
            self.wf(),
        ensures
            ({
                let outcomes = self.outcomes();
                &&& (r.0, r.1@) == bulk_status(self.planned().len(), r.2.rejected as nat)
                &&& r.2.operation@ == self.request().text()
                &&& r.2.planned == self.planned().len()
                &&& r.2.accepted == tally(outcomes, |x: BulkResult| counts_accepted(x))
                &&& r.2.noop == tally(outcomes, |x: BulkResult| counts_noop(x))
                &&& r.2.rejected == tally(outcomes, |x: BulkResult| counts_rejected(x))
                &&& r.2.accepted + r.2.noop + r.2.rejected == outcomes.len()
                &&& r.2.results@ == outcomes
            }),
    {
        let planned = self.transfers.len();
        let (status, text): (u16, &'static str) = if planned == 0 {
            (200, "noop")
        } else if self.rejected == 0 {
            (202, "accepted")
        } else {
            (207, "partial")
        };
        (
            status,
            text,
            BulkReport {
                operation: self.plan.as_text(),
                planned,
                accepted: self.accepted,
                noop: self.noop,
                rejected: self.rejected,
                results: self.results,
            },
        )
    }
}

/// Each result is counted once, as accepted, as nothing to do or as rejected.
pub proof fn law_results_are_counted_once(results: Seq<BulkResult>)
    ensures
        tally(results, |r: BulkResult| counts_accepted(r)) + tally(
            results,
            |r: BulkResult| counts_noop(r),
        ) + tally(results, |r: BulkResult| counts_rejected(r)) == results.len(),
    decreases results.len(),
{
    if results.len() > 0 {
        law_results_are_counted_once(results.drop_last());
    }
}

/// Losing leadership is reported: the answer is then a partial one.
pub proof fn law_lost_leadership_is_partial(results: Seq<BulkResult>, planned: nat)
    requires
        0 < results.len() <= planned,
        results.last() is LostLeadership,
    ensures
        bulk_status(planned, tally(results, |r: BulkResult| counts_rejected(r))).0 == 207,
{
}

/// What is known of the cluster.
#[derive(Debug)]
pub struct ClusterFacts {
    pub node_id: u64,
    pub leader_id: Option<u64>,
    pub num_partitions: u16,
    pub partitions: Vec<(u16, PartitionOwnership)>,
    pub raft: RaftFacts,
}

/// What the node knows of its own part in the cluster's log.
#[derive(Debug)]
pub struct RaftFacts {
    pub state: String,
    pub current_term: u64,
    pub last_applied: Option<u64>,
    pub last_log_index: Option<u64>,
    pub membership: String,
}

/// A partition in a report: its number as text, who has it, and that in a word.
#[derive(Debug)]
pub struct PartitionReport {
    pub partition: String,
    pub ownership: PartitionOwnership,
    pub status: &'static str,
}

/// A report on the cluster.
#[derive(Debug)]
pub enum ClusterReport {
    Standalone { message: &'static str },
    Cluster {
        node_id: u64,
        leader_id: Option<u64>,
        num_partitions: u16,
        partitions: Vec<PartitionReport>,
        raft: RaftFacts,
    },
}

/// Who has a partition, in a word.
pub open spec fn ownership_word(o: PartitionOwnership) -> Seq<char> {
    match o {
        PartitionOwnership::Owned(_) => "owned"@,
        PartitionOwnership::Transferring { .. } => "transferring"@,
    }
}

/// The state of a partition as text.
pub fn ownership_status(o: &PartitionOwnership) -> (r: &'static str)
    ensures
        r@ == ownership_word(*o),
{
    match o {
        PartitionOwnership::Owned(_) => "owned",
        PartitionOwnership::Transferring { .. } => "transferring",
    }
}

/// Whether a report stands for a partition.
pub open spec fn reports_partition(
    report: PartitionReport,
    entry: (u16, PartitionOwnership),
) -> bool {
    &&& report.partition@ == decimal(entry.0 as nat)
    &&& report.ownership == entry.1
    &&& report.status@ == ownership_word(entry.1)
}

/// Reports on the cluster, where the node is part of one.
pub fn cluster_status(facts: Option<ClusterFacts>) -> (r: ClusterReport)
    ensures
        match facts {
            None => r matches ClusterReport::Standalone { message } && message@
                == "no cluster node configured"@,
            Some(f) => {
                &&& r is Cluster
                &&& r->node_id == f.node_id
                &&& r->leader_id == f.leader_id
                &&& r->num_partitions == f.num_partitions
                &&& r->raft == f.raft
                &&& r->partitions@.len() == f.partitions@.len()
                &&& forall|i: int|
                    #![trigger r->partitions@[i]]
                    0 <= i < f.partitions@.len() ==> reports_partition(
                        r->partitions@[i],
                        f.partitions@[i],
                    )
            },
        },
{
    let facts = match facts {
        None => {
            return ClusterReport::Standalone { message: "no cluster node configured" };
        },
        Some(facts) => facts,
    };
    let mut partitions: Vec<PartitionReport> = Vec::new();
    let mut i: usize = 0;
    while i < facts.partitions.len()
        invariant
            i <= facts.partitions@.len(),
            partitions@.len() == i,
            forall|j: int|
                #![trigger partitions@[j]]
                0 <= j < i ==> reports_partition(partitions@[j], facts.partitions@[j]),
        decreases facts.partitions@.len() - i,
    {
        let (partition, ownership) = facts.partitions[i];
        partitions.push(
            PartitionReport {
                partition: u64_text(partition as u64),
                ownership,
                status: ownership_status(&ownership),
            },
        );
        i += 1;
    }
    ClusterReport::Cluster {
        node_id: facts.node_id,
        leader_id: facts.leader_id,
        num_partitions: facts.num_partitions,
        partitions,
        raft: facts.raft,
    }
}

/// What becomes of a partition keeps its number and says what the cluster said of it, to the node
/// that was planned for it where the cluster names none.
pub proof fn law_results_say_what_the_cluster_said(
    partition: u16,
    target: u64,
    outcome: Result<TransferStatus, String>,
)
    ensures
        ({
            let r = result_of(partition, target, outcome);
            &&& outcome matches Err(why) ==> r == BulkResult::Failed {
                partition,
                target,
                message: why,
            }
            &&& outcome matches Ok(status) ==> {
                &&& status is Accepted <==> r is Accepted
                &&& status is NoChange <==> r is NoChange
                &&& status is AlreadyTransferring <==> r is AlreadyTransferring
                &&& status is UnknownPartition <==> r is UnknownPartition
                &&& status is Rejected <==> r is Rejected
                &&& status is NotLeader <==> r is LostLeadership
            }
            &&& r matches BulkResult::Accepted { partition: p, source, target: to } ==> p
                == partition && outcome == Ok::<TransferStatus, String>(
                TransferStatus::Accepted { source, target: to },
            )
            &&& r matches BulkResult::AlreadyTransferring { partition: p, source, target: to }
                ==> p == partition && outcome == Ok::<TransferStatus, String>(
                TransferStatus::AlreadyTransferring { source, target: to },
            )
            &&& r matches BulkResult::NoChange { partition: p, owner } ==> p == partition
                && outcome == Ok::<TransferStatus, String>(TransferStatus::NoChange { owner })
            &&& r matches BulkResult::UnknownPartition { partition: p } ==> p == partition
            &&& r matches BulkResult::Rejected { partition: p, target: to, message } ==> p
                == partition && to == target && outcome == Ok::<TransferStatus, String>(
                TransferStatus::Rejected(message),
            )
            &&& r matches BulkResult::LostLeadership { partition: p, target: to, current_leader }
                ==> p == partition && to == target && outcome == Ok::<TransferStatus, String>(
                TransferStatus::NotLeader { current_leader },
            )
        }),
{
}

/// What was accepted is counted so; what needed nothing, or was under way already, as nothing to
/// do; everything else as rejected.
pub proof fn law_how_results_are_counted(r: BulkResult)
    ensures
        counts_accepted(r) <==> r is Accepted,
        counts_noop(r) <==> r is NoChange || r is AlreadyTransferring,
        counts_rejected(r) <==> r is UnknownPartition || r is Rejected || r is Failed || r
            is LostLeadership,
{
}

/// Each result counts once, wherever it stands.
pub proof fn law_counts_add_up(
    a: Seq<BulkResult>,
    b: Seq<BulkResult>,
    one: BulkResult,
    counted: spec_fn(BulkResult) -> bool,
)
    ensures
        tally(Seq::empty(), counted) == 0,
        tally(seq![one], counted) == (if counted(one) {
            1nat
        } else {
            0nat
        }),
        tally(a + b, counted) == tally(a, counted) + tally(b, counted),
    decreases b.len(),
{
    let single = seq![one];
    assert(single.drop_last() =~= Seq::<BulkResult>::empty());
    assert(single.last() == one);
    assert(tally(single.drop_last(), counted) == 0);
    if b.len() == 0 {
        assert(a + b =~= a);
    } else {
        assert((a + b).drop_last() =~= a + b.drop_last());
        assert((a + b).last() == b.last());
        law_counts_add_up(a, b.drop_last(), one, counted);
    }
}

/// A plan without partitions is a success of its own; one of which nothing was rejected is
/// accepted; any other is partial.
pub proof fn law_how_a_plan_is_answered(planned: nat, rejected: nat)
    ensures
        bulk_status(planned, rejected).0 == 200 <==> planned == 0,
        bulk_status(planned, rejected).0 == 202 <==> planned > 0 && rejected == 0,
        bulk_status(planned, rejected).0 == 207 <==> planned > 0 && rejected > 0,
        bulk_status(planned, rejected).1 == "noop"@ <==> planned == 0,
        bulk_status(planned, rejected).1 == "accepted"@ <==> planned > 0 && rejected == 0,
        bulk_status(planned, rejected).1 == "partial"@ <==> planned > 0 && rejected > 0,
{
    reveal_strlit("noop");
    reveal_strlit("accepted");
    reveal_strlit("partial");
    assert("noop"@.len() == 4 && "accepted"@.len() == 8 && "partial"@.len() == 7);
}

/// The report on a partition tells its number, who has it, and whether it is on its way.
pub proof fn law_a_partition_is_reported(
    report: PartitionReport,
    entry: (u16, PartitionOwnership),
)
    requires
        reports_partition(report, entry),
    ensures
        number(report.partition@) == entry.0,
        report.ownership == entry.1,
        report.status@ == "owned"@ <==> entry.1 is Owned,
        report.status@ == "transferring"@ <==> entry.1 is Transferring,
{
    law_a_number_is_read_back(entry.0 as nat);
    reveal_strlit("owned");
    reveal_strlit("transferring");
    assert("owned"@.len() == 5 && "transferring"@.len() == 12);
}

/// A plan that empties a node is called one thing, one that spreads partitions another.
pub proof fn law_plans_are_told_apart(a: BulkPlan)
    ensures
        a.text() == "drain"@ <==> a is Drain,
        a.text() == "rebalance"@ <==> a is Rebalance,
{
    reveal_strlit("drain");
    reveal_strlit("rebalance");
    assert("drain"@.len() == 5 && "rebalance"@.len() == 9);
}

} // verus!
