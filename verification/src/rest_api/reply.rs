//! Replies of the management API.
use vstd::prelude::*;

use crate::definition::RegistryResponse;
use crate::error::AeonError;

verus! {

/// What a reply says.
#[derive(Debug)]
pub enum Body {
    /// A refusal.
    Error { error: String },
    /// Something was done, by the method that is named, and in the whole cluster where it says so.
    Done { status: String, method: Option<String>, replicated: bool },
    /// A processor version was registered.
    Registered { name: String, version: String, replicated: bool },
    /// The answer to a change, as it came.
    Response(RegistryResponse),
    /// Another node leads.
    NotLeader { current_leader: Option<u64> },
    /// A partition is on its way.
    TransferAccepted { partition: u16, source: u64, target: u64 },
    /// A partition is on its way already.
    TransferInFlight { partition: u16, source: u64, target: u64 },
    /// A partition is where it should be.
    TransferNoChange { partition: u16, owner: u64 },
    /// This node leads, and cannot leave.
    LeaderCannotLeave { node_id: u64 },
    /// This node has left.
    Left { node_id: u64, leader_id: Option<u64>, message: String },
    /// How failed events were marked for another attempt.
    Retried { retried: u64, not_found: u64 },
    /// An identity was registered.
    IdentityActive { fingerprint: String },
    /// An identity was revoked.
    IdentityRevoked { fingerprint: String, revoked_at: i64 },
}

/// A reply: its status, the leader that its header names, and what it says.
#[derive(Debug)]
pub struct Reply {
    pub status: u16,
    pub leader: Option<u64>,
    pub body: Body,
}

/// Whether a reply is a refusal with this status and this text.
pub open spec fn is_error(r: Reply, status: u16, text: Seq<char>) -> bool {
    &&& r.status == status
    &&& r.leader is None
    &&& r.body is Error
    &&& r.body->error@ == text
}

/// Whether a reply says that something was done.
pub open spec fn is_done(
    r: Reply,
    status: u16,
    text: Seq<char>,
    method: Option<Seq<char>>,
    replicated: bool,
) -> bool {
    &&& r.status == status
    &&& r.leader is None
    &&& match r.body {
        Body::Done { status: said, method: by, replicated: all } => said@ == text && all
            == replicated && match by {
            Some(m) => method == Some(m@),
            None => method is None,
        },
        _ => false,
    }
}

/// Whether a reply says that another node leads.
pub open spec fn is_not_leader(r: Reply, current_leader: Option<u64>) -> bool {
    &&& r.status == 409
    &&& r.leader == current_leader
    &&& r.body == Body::NotLeader { current_leader }
}

impl Reply {
    /// A reply without a header that names a leader.
    pub fn new(status: u16, body: Body) -> (r: Self)
        ensures
            r == (Reply { status, leader: None, body }),
    {
        Reply { status, leader: None, body }
    }

    /// A refusal.
    pub fn error(status: u16, error: String) -> (r: Self)
        ensures
            is_error(r, status, error@),
    {
        Reply::new(status, Body::Error { error })
    }

    /// Something was done.
    pub fn done(status: u16, text: &str, method: Option<&str>, replicated: bool) -> (r: Self)
        ensures
            is_done(
                r,
                status,
                text@,
                match method {
                    Some(m) => Some(m@),
                    None => None,
                },
                replicated,
            ),
    {
        let method: Option<String> = match method {
            Some(m) => Some(m.to_owned()),
            None => None,
        };
        Reply::new(status, Body::Done { status: text.to_owned(), method, replicated })
    }

    /// Another node leads.
    pub fn not_leader(current_leader: Option<u64>) -> (r: Self)
        ensures
            is_not_leader(r, current_leader),
    {
        Reply { status: 409, leader: current_leader, body: Body::NotLeader { current_leader } }
    }

    /// The refusal of a request by the library.
    pub fn refused(e: &AeonError) -> (r: Self)
        ensures
            is_error(r, 400, e.text()),
    {
        Reply::error(400, e.message().to_owned())
    }
}

/// Whether a reply is the answer to a change that the cluster was asked to make.
pub open spec fn is_proposed(
    r: Reply,
    outcome: Result<RegistryResponse, String>,
    status: u16,
    text: Seq<char>,
) -> bool {
    match outcome {
        Ok(RegistryResponse::Error { message }) => is_error(r, 400, message@),
        Ok(_) => is_done(r, status, text, None, true),
        Err(why) => is_error(r, 500, why@),
    }
}

/// Answers a change that the cluster was asked to make.
pub fn proposed(outcome: Result<RegistryResponse, String>, status: u16, text: &str) -> (r: Reply)
    ensures
        is_proposed(r, outcome, status, text@),
{
    match outcome {
        Ok(RegistryResponse::Error { message }) => Reply::error(400, message),
        Ok(_) => Reply::done(status, text, None, true),
        Err(why) => Reply::error(500, why),
    }
}

/// A refusal carries its status and its text and names no leader.
pub proof fn law_what_a_refusal_says(r: Reply, status: u16, text: Seq<char>)
    requires
        is_error(r, status, text),
    ensures
        r.status == status,
        r.leader is None,
        r.body matches Body::Error { error } && error@ == text,
{
}

/// What was done is said with its status, its text, the method where there is one, and whether
/// the whole cluster did it.
pub proof fn law_what_is_said_of_something_done(
    r: Reply,
    status: u16,
    text: Seq<char>,
    method: Option<Seq<char>>,
    replicated: bool,
)
    requires
        is_done(r, status, text, method, replicated),
    ensures
        r.status == status,
        r.leader is None,
        r.body matches Body::Done { status: said, method: by, replicated: all } && {
            &&& said@ == text
            &&& all == replicated
            &&& by is Some <==> method is Some
            &&& by matches Some(m) ==> m@ == method->0
        },
{
}

/// A node that does not lead says so with a conflict, and names the leader that it knows both in
/// the header and in the body.
pub proof fn law_who_leads_is_said_twice(r: Reply, current_leader: Option<u64>)
    requires
        is_not_leader(r, current_leader),
    ensures
        r.status == 409,
        r.leader == current_leader,
        r.body == (Body::NotLeader { current_leader }),
{
}

/// A change that the cluster refused is answered with its reason, one that it could not be asked
/// for with the failure, and any other with what was done.
pub proof fn law_how_a_proposal_is_answered(
    r: Reply,
    outcome: Result<RegistryResponse, String>,
    status: u16,
    text: Seq<char>,
)
    requires
        is_proposed(r, outcome, status, text),
    ensures
        outcome matches Err(why) ==> r.status == 500 && (r.body matches Body::Error { error }
            && error@ == why@),
        outcome matches Ok(answer) ==> (answer matches RegistryResponse::Error { message }
            ==> r.status == 400 && (r.body matches Body::Error { error } && error@ == message@)),
        outcome matches Ok(answer) ==> (answer !is Error ==> r.status == status && (r.body
            matches Body::Done { status: said, method, replicated } && said@ == text && method
            is None && replicated)),
        r.leader is None,
{
}

} // verus!
