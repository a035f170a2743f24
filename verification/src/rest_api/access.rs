//! Who may ask for what: routes, credentials, names and readiness.
use vstd::prelude::*;
use vstd::string::StrSliceExecFns;
use vstd::utf8::encode_utf8;

use crate::rest_api::reply::{is_error, Reply};
use crate::text::{chars_of, is_digit, join2, number, parse_digits, same_text};

verus! {

/// The largest body of a request, in bytes.
pub const MAX_REQUEST_BODY_BYTES: usize = 10_485_760;

/// Whether a character is a control character.
pub open spec fn is_control(c: char) -> bool {
    c <= '\u{1f}' || ('\u{7f}' <= c && c <= '\u{9f}')
}

/// Whether a text has two dots in a row.
pub open spec fn has_two_dots(s: Seq<char>) -> bool {
    exists|i: int| 0 <= i < s.len() - 1 && #[trigger] s[i] == '.' && s[i + 1] == '.'
}

/// What is wrong with the name of a thing of some kind: the first of what is tested.
pub open spec fn name_objection(name: Seq<char>, kind: Seq<char>) -> Option<Seq<char>> {
    if name.len() == 0 || encode_utf8(name).len() > 128 {
        Some(kind + " name must be 1-128 characters"@)
    } else if has_two_dots(name) || name.contains('/') || name.contains('\\') {
        Some(kind + " name must not contain '..', '/', or '\\\\'"@)
    } else if name[0] == '.' || name[0] == '-' {
        Some(kind + " name must not start with '.' or '-'"@)
    } else if exists|i: int| 0 <= i < name.len() && is_control(#[trigger] name[i]) {
        Some(kind + " name must not contain control characters"@)
    } else {
        None
    }
}

fn has_path_parts(chars: &Vec<char>) -> (r: bool)
    ensures
        r == (has_two_dots(chars@) || chars@.contains('/') || chars@.contains('\\')),
{
    let mut i: usize = 0;
    while i < chars.len()
        invariant
            i <= chars@.len(),
            forall|j: int| 0 <= j < i ==> chars@[j] != '/' && chars@[j] != '\\',
            forall|j: int|
                0 <= j < i && j < chars@.len() - 1 ==> !(#[trigger] chars@[j] == '.' && chars@[j
                    + 1] == '.'),
        decreases chars@.len() - i,
    {
        if chars[i] == '/' || chars[i] == '\\' {
            assert(chars@[i as int] == '/' || chars@[i as int] == '\\');
            return true;
        }
        if i + 1 < chars.len() && chars[i] == '.' && chars[i + 1] == '.' {
            assert(chars@[i as int] == '.' && chars@[i + 1] == '.');
            return true;
        }
        i += 1;
    }
    false
}

fn has_control(chars: &Vec<char>) -> (r: bool)
    ensures
        r == exists|i: int| 0 <= i < chars@.len() && is_control(#[trigger] chars@[i]),
{
    let mut i: usize = 0;
    while i < chars.len()
        invariant
            i <= chars@.len(),
            forall|j: int| 0 <= j < i ==> !is_control(#[trigger] chars@[j]),
        decreases chars@.len() - i,
    {
        let c = chars[i];
        if c <= '\u{1f}' || ('\u{7f}' <= c && c <= '\u{9f}') {
            assert(is_control(chars@[i as int]));
            return true;
        }
        i += 1;
    }
    false
}

/// Checks that a name can stand in a path: it leads nowhere else and holds nothing that cannot be
/// seen.
pub fn validate_resource_name(name: &str, kind: &str) -> (r: Result<(), Reply>)
    ensures
        match r {
            Ok(_) => name_objection(name@, kind@) is None,
            Err(reply) => name_objection(name@, kind@) is Some && is_error(
                reply,
                400,
                name_objection(name@, kind@)->0,
            ),
        },
{
    let n = name.unicode_len();
    if n == 0 || name.as_bytes().len() > 128 {
        return Err(Reply::error(400, join2(kind, " name must be 1-128 characters")));
    }
    let chars = chars_of(name);
    if has_path_parts(&chars) {
        return Err(
            Reply::error(400, join2(kind, " name must not contain '..', '/', or '\\\\'")),
        );
    }
    let first = chars[0];
    if first == '.' || first == '-' {
        return Err(Reply::error(400, join2(kind, " name must not start with '.' or '-'")));
    }
    if has_control(&chars) {
        return Err(
            Reply::error(400, join2(kind, " name must not contain control characters")),
        );
    }
    Ok(())
}

/// A name that passed leads nowhere else: it is no absolute path, has no part that leads up, and
/// is not hidden.
pub proof fn law_valid_names_stay_below(name: Seq<char>, kind: Seq<char>)
    requires
        name_objection(name, kind) is None,
    ensures
        name.len() > 0,
        !name.contains('/'),
        !name.contains('\\'),
        !has_two_dots(name),
        name != "."@,
        name != ".."@,
{
    reveal_strlit(".");
    reveal_strlit("..");
}

/// What stands in front of a token.
pub open spec fn bearer() -> Seq<char> {
    "Bearer "@
}

/// The token that a header carries.
pub open spec fn token_of(header: Seq<char>) -> Option<Seq<char>> {
    if header.len() >= 7 && header.take(7) == bearer() {
        Some(header.skip(7))
    } else {
        None
    }
}

/// The refusal of a request without a token.
pub open spec fn no_token() -> Seq<char> {
    "missing or malformed Authorization header (expected: Bearer <token>)"@
}

/// The refusal of a request with a wrong token.
pub open spec fn wrong_token() -> Seq<char> {
    "invalid bearer token"@
}

/// Decides whether a request may pass, where the API has one token. Without a token everyone may
/// pass.
pub fn authorize(expected: Option<&str>, header: Option<&str>) -> (r: Result<(), Reply>)
    ensures
        match expected {
            None => r is Ok,
            Some(token) => match header {
                None => r is Err && is_error(r->Err_0, 401, no_token()),
                Some(h) => match token_of(h@) {
                    None => r is Err && is_error(r->Err_0, 401, no_token()),
                    Some(given) => if given == token@ {
                        r is Ok
                    } else {
                        r is Err && is_error(r->Err_0, 401, wrong_token())
                    },
                },
            },
        },
{
    let token = match expected {
        Some(t) => t,
        None => {
            return Ok(());
        },
    };
    proof {
        reveal_strlit("Bearer ");
    }
    if let Some(h) = header {
        let n = h.unicode_len();
        if n >= 7 {
            let front = h.substring_char(0, 7);
            assert(front@ =~= h@.take(7));
            if same_text(front, "Bearer ") {
                let given = h.substring_char(7, n);
                assert(given@ =~= h@.skip(7));
                if same_text(given, token) {
                    return Ok(());
                }
                return Err(Reply::error(401, "invalid bearer token".to_owned()));
            }
        }
    }
    Err(
        Reply::error(
            401,
            "missing or malformed Authorization header (expected: Bearer <token>)".to_owned(),
        ),
    )
}

/// Decides whether a request may pass, where the API has named keys. `verdict` is what the keys
/// say of the request's header, where it has one. Without keys everyone may pass.
pub fn authorize_with_keys(keys: bool, verdict: Option<bool>) -> (r: Result<(), Reply>)
    ensures
        if !keys || verdict == Some(true) {
            r is Ok
        } else if verdict is Some {
            r is Err && is_error(r->Err_0, 401, wrong_token())
        } else {
            r is Err && is_error(r->Err_0, 401, no_token())
        },
{
    if !keys {
        return Ok(());
    }
    match verdict {
        Some(true) => Ok(()),
        Some(false) => Err(Reply::error(401, "invalid bearer token".to_owned())),
        None => Err(
            Reply::error(
                401,
                "missing or malformed Authorization header (expected: Bearer <token>)".to_owned(),
            ),
        ),
    }
}

/// What a node says of its readiness: the status of the reply, and what it says.
pub fn ready(shutting_down: bool) -> (r: (u16, &'static str))
    ensures
        r.0 == (if shutting_down {
            503u16
        } else {
            200u16
        }),
        r.1@ == (if shutting_down {
            "shutting_down"@
        } else {
            "ready"@
        }),
{
    if shutting_down {
        (503, "shutting_down")
    } else {
        (200, "ready")
    }
}

/// How a request asks.
#[derive(Debug, Clone, Copy, PartialEq, Eq, Structural)]
pub enum Verb {
    Get,
    Post,
    Delete,
}

/// What can be asked for.
#[derive(Debug, Clone, Copy, PartialEq, Eq, Structural)]
pub enum Endpoint {
    Health,
    Ready,
    Metrics,
    ConnectProcessor,
    TailPipeline,
    ListProcessors,
    RegisterProcessor,
    GetProcessor,
    ListProcessorVersions,
    DeleteProcessorVersion,
    ListPipelines,
    CreatePipeline,
    GetPipeline,
    DeletePipeline,
    StartPipeline,
    StopPipeline,
    UpgradePipeline,
    UpgradeBlueGreen,
    UpgradeCanary,
    CutoverPipeline,
    RollbackPipeline,
    PromoteCanary,
    CanaryStatus,
    PipelineHistory,
    ReconfigureSource,
    ReconfigureSink,
    ListIdentities,
    RegisterIdentity,
    RevokeIdentity,
    DeliveryStatus,
    DeliveryRetry,
    VerifyPipeline,
    ClusterStatus,
    TransferPartition,
    ClusterDrain,
    ClusterRebalance,
    ClusterLeave,
}

/// Where an endpoint stands: how it is asked, its path, and whether a token is asked for.
pub struct Route {
    pub endpoint: Endpoint,
    pub verb: Verb,
    pub path: &'static str,
    pub needs_auth: bool,
}

impl Endpoint {
    /// How an endpoint is asked.
    pub open spec fn asked(self) -> Verb {
        match self {
            Endpoint::RegisterProcessor
            | Endpoint::CreatePipeline
            | Endpoint::StartPipeline
            | Endpoint::StopPipeline
            | Endpoint::UpgradePipeline
            | Endpoint::UpgradeBlueGreen
            | Endpoint::UpgradeCanary
            | Endpoint::CutoverPipeline
            | Endpoint::RollbackPipeline
            | Endpoint::PromoteCanary
            | Endpoint::ReconfigureSource
            | Endpoint::ReconfigureSink
            | Endpoint::RegisterIdentity
            | Endpoint::DeliveryRetry
            | Endpoint::TransferPartition
            | Endpoint::ClusterDrain
            | Endpoint::ClusterRebalance
            | Endpoint::ClusterLeave => Verb::Post,
            Endpoint::DeleteProcessorVersion
            | Endpoint::DeletePipeline
            | Endpoint::RevokeIdentity => Verb::Delete,
            _ => Verb::Get,
        }
    }

    /// The path of an endpoint.
    pub open spec fn place(self) -> Seq<char> {
        match self {
            Endpoint::Health => "/health"@,
            Endpoint::Ready => "/ready"@,
            Endpoint::Metrics => "/metrics"@,
            Endpoint::ConnectProcessor => "/api/v1/processors/connect"@,
            Endpoint::TailPipeline => "/api/v1/pipelines/{name}/tail"@,
            Endpoint::ListProcessors | Endpoint::RegisterProcessor => "/api/v1/processors"@,
            Endpoint::GetProcessor => "/api/v1/processors/{name}"@,
            Endpoint::ListProcessorVersions => "/api/v1/processors/{name}/versions"@,
            Endpoint::DeleteProcessorVersion => "/api/v1/processors/{name}/versions/{version}"@,
            Endpoint::ListPipelines | Endpoint::CreatePipeline => "/api/v1/pipelines"@,
            Endpoint::GetPipeline | Endpoint::DeletePipeline => "/api/v1/pipelines/{name}"@,
            Endpoint::StartPipeline => "/api/v1/pipelines/{name}/start"@,
            Endpoint::StopPipeline => "/api/v1/pipelines/{name}/stop"@,
            Endpoint::UpgradePipeline => "/api/v1/pipelines/{name}/upgrade"@,
            Endpoint::UpgradeBlueGreen => "/api/v1/pipelines/{name}/upgrade/blue-green"@,
            Endpoint::UpgradeCanary => "/api/v1/pipelines/{name}/upgrade/canary"@,
            Endpoint::CutoverPipeline => "/api/v1/pipelines/{name}/cutover"@,
            Endpoint::RollbackPipeline => "/api/v1/pipelines/{name}/rollback"@,
            Endpoint::PromoteCanary => "/api/v1/pipelines/{name}/promote"@,
            Endpoint::CanaryStatus => "/api/v1/pipelines/{name}/canary-status"@,
            Endpoint::PipelineHistory => "/api/v1/pipelines/{name}/history"@,
            Endpoint::ReconfigureSource => "/api/v1/pipelines/{name}/reconfigure/source"@,
            Endpoint::ReconfigureSink => "/api/v1/pipelines/{name}/reconfigure/sink"@,
            Endpoint::ListIdentities
            | Endpoint::RegisterIdentity => "/api/v1/processors/{name}/identities"@,
            Endpoint::RevokeIdentity => "/api/v1/processors/{name}/identities/{fingerprint}"@,
            Endpoint::DeliveryStatus => "/api/v1/pipelines/{name}/delivery"@,
            Endpoint::DeliveryRetry => "/api/v1/pipelines/{name}/delivery/retry"@,
            Endpoint::VerifyPipeline => "/api/v1/pipelines/{name}/verify"@,
            Endpoint::ClusterStatus => "/api/v1/cluster/status"@,
            Endpoint::TransferPartition => "/api/v1/cluster/partitions/{partition}/transfer"@,
            Endpoint::ClusterDrain => "/api/v1/cluster/drain"@,
            Endpoint::ClusterRebalance => "/api/v1/cluster/rebalance"@,
            Endpoint::ClusterLeave => "/api/v1/cluster/leave"@,
        }
    }

    /// Whether an endpoint is open to everyone: what probes and scrapers ask for.
    pub open spec fn is_open(self) -> bool {
        match self {
            Endpoint::Health | Endpoint::Ready | Endpoint::Metrics => true,
            _ => false,
        }
    }

    /// All endpoints.
    pub open spec fn every() -> Seq<Endpoint> {
        seq![
            Endpoint::Health,
            Endpoint::Ready,
            Endpoint::Metrics,
            Endpoint::ConnectProcessor,
            Endpoint::TailPipeline,
            Endpoint::ListProcessors,
            Endpoint::RegisterProcessor,
            Endpoint::GetProcessor,
            Endpoint::ListProcessorVersions,
            Endpoint::DeleteProcessorVersion,
            Endpoint::ListPipelines,
            Endpoint::CreatePipeline,
            Endpoint::GetPipeline,
            Endpoint::DeletePipeline,
            Endpoint::StartPipeline,
            Endpoint::StopPipeline,
            Endpoint::UpgradePipeline,
            Endpoint::UpgradeBlueGreen,
            Endpoint::UpgradeCanary,
            Endpoint::CutoverPipeline,
            Endpoint::RollbackPipeline,
            Endpoint::PromoteCanary,
            Endpoint::CanaryStatus,
            Endpoint::PipelineHistory,
            Endpoint::ReconfigureSource,
            Endpoint::ReconfigureSink,
            Endpoint::ListIdentities,
            Endpoint::RegisterIdentity,
            Endpoint::RevokeIdentity,
            Endpoint::DeliveryStatus,
            Endpoint::DeliveryRetry,
            Endpoint::VerifyPipeline,
            Endpoint::ClusterStatus,
            Endpoint::TransferPartition,
            Endpoint::ClusterDrain,
            Endpoint::ClusterRebalance,
            Endpoint::ClusterLeave,
        ]
    }

    fn all() -> (r: Vec<Endpoint>)
        ensures
            r@ == Endpoint::every(),
    {
        let r = vec![
            Endpoint::Health,
            Endpoint::Ready,
            Endpoint::Metrics,
            Endpoint::ConnectProcessor,
            Endpoint::TailPipeline,
            Endpoint::ListProcessors,
            Endpoint::RegisterProcessor,
            Endpoint::GetProcessor,
            Endpoint::ListProcessorVersions,
            Endpoint::DeleteProcessorVersion,
            Endpoint::ListPipelines,
            Endpoint::CreatePipeline,
            Endpoint::GetPipeline,
            Endpoint::DeletePipeline,
            Endpoint::StartPipeline,
            Endpoint::StopPipeline,
            Endpoint::UpgradePipeline,
            Endpoint::UpgradeBlueGreen,
            Endpoint::UpgradeCanary,
            Endpoint::CutoverPipeline,
            Endpoint::RollbackPipeline,
            Endpoint::PromoteCanary,
            Endpoint::CanaryStatus,
            Endpoint::PipelineHistory,
            Endpoint::ReconfigureSource,
            Endpoint::ReconfigureSink,
            Endpoint::ListIdentities,
            Endpoint::RegisterIdentity,
            Endpoint::RevokeIdentity,
            Endpoint::DeliveryStatus,
            Endpoint::DeliveryRetry,
            Endpoint::VerifyPipeline,
            Endpoint::ClusterStatus,
            Endpoint::TransferPartition,
            Endpoint::ClusterDrain,
            Endpoint::ClusterRebalance,
            Endpoint::ClusterLeave,
        ];
        assert(r@ =~= Endpoint::every());
        r
    }

    fn verb(self) -> (r: Verb)
        ensures
            r == self.asked(),
    {
        match self {
            Endpoint::RegisterProcessor
            | Endpoint::CreatePipeline
            | Endpoint::StartPipeline
            | Endpoint::StopPipeline
            | Endpoint::UpgradePipeline
            | Endpoint::UpgradeBlueGreen
            | Endpoint::UpgradeCanary
            | Endpoint::CutoverPipeline
            | Endpoint::RollbackPipeline
            | Endpoint::PromoteCanary
            | Endpoint::ReconfigureSource
            | Endpoint::ReconfigureSink
            | Endpoint::RegisterIdentity
            | Endpoint::DeliveryRetry
            | Endpoint::TransferPartition
            | Endpoint::ClusterDrain
            | Endpoint::ClusterRebalance
            | Endpoint::ClusterLeave => Verb::Post,
            Endpoint::DeleteProcessorVersion
            | Endpoint::DeletePipeline
            | Endpoint::RevokeIdentity => Verb::Delete,
            _ => Verb::Get,
        }
    }

    fn path(self) -> (r: &'static str)
        ensures
            r@ == self.place(),
    {
        match self {
            Endpoint::Health => "/health",
            Endpoint::Ready => "/ready",
            Endpoint::Metrics => "/metrics",
            Endpoint::ConnectProcessor => "/api/v1/processors/connect",
            Endpoint::TailPipeline => "/api/v1/pipelines/{name}/tail",
            Endpoint::ListProcessors | Endpoint::RegisterProcessor => "/api/v1/processors",
            Endpoint::GetProcessor => "/api/v1/processors/{name}",
            Endpoint::ListProcessorVersions => "/api/v1/processors/{name}/versions",
            Endpoint::DeleteProcessorVersion => "/api/v1/processors/{name}/versions/{version}",
            Endpoint::ListPipelines | Endpoint::CreatePipeline => "/api/v1/pipelines",
            Endpoint::GetPipeline | Endpoint::DeletePipeline => "/api/v1/pipelines/{name}",
            Endpoint::StartPipeline => "/api/v1/pipelines/{name}/start",
            Endpoint::StopPipeline => "/api/v1/pipelines/{name}/stop",
            Endpoint::UpgradePipeline => "/api/v1/pipelines/{name}/upgrade",
            Endpoint::UpgradeBlueGreen => "/api/v1/pipelines/{name}/upgrade/blue-green",
            Endpoint::UpgradeCanary => "/api/v1/pipelines/{name}/upgrade/canary",
            Endpoint::CutoverPipeline => "/api/v1/pipelines/{name}/cutover",
            Endpoint::RollbackPipeline => "/api/v1/pipelines/{name}/rollback",
            Endpoint::PromoteCanary => "/api/v1/pipelines/{name}/promote",
            Endpoint::CanaryStatus => "/api/v1/pipelines/{name}/canary-status",
            Endpoint::PipelineHistory => "/api/v1/pipelines/{name}/history",
            Endpoint::ReconfigureSource => "/api/v1/pipelines/{name}/reconfigure/source",
            Endpoint::ReconfigureSink => "/api/v1/pipelines/{name}/reconfigure/sink",
            Endpoint::ListIdentities
            | Endpoint::RegisterIdentity => "/api/v1/processors/{name}/identities",
            Endpoint::RevokeIdentity => "/api/v1/processors/{name}/identities/{fingerprint}",
            Endpoint::DeliveryStatus => "/api/v1/pipelines/{name}/delivery",
            Endpoint::DeliveryRetry => "/api/v1/pipelines/{name}/delivery/retry",
            Endpoint::VerifyPipeline => "/api/v1/pipelines/{name}/verify",
            Endpoint::ClusterStatus => "/api/v1/cluster/status",
            Endpoint::TransferPartition => "/api/v1/cluster/partitions/{partition}/transfer",
            Endpoint::ClusterDrain => "/api/v1/cluster/drain",
            Endpoint::ClusterRebalance => "/api/v1/cluster/rebalance",
            Endpoint::ClusterLeave => "/api/v1/cluster/leave",
        }
    }

    fn open_to_all(self) -> (r: bool)
        ensures
            r == self.is_open(),
    {
        match self {
            Endpoint::Health | Endpoint::Ready | Endpoint::Metrics => true,
            _ => false,
        }
    }
}

/// The routes of the API, one for each endpoint.
pub fn api_router() -> (r: Vec<Route>)
    ensures
        r@.len() == Endpoint::every().len(),
        forall|i: int|
            #![trigger r@[i]]
            0 <= i < r@.len() ==> {
                let e = Endpoint::every()[i];
                r@[i].endpoint == e && r@[i].verb == e.asked() && r@[i].path@ == e.place()
                    && r@[i].needs_auth == !e.is_open()
            },
{
    let all = Endpoint::all();
    let mut routes: Vec<Route> = Vec::new();
    let mut i: usize = 0;
    while i < all.len()
        invariant
            i <= all@.len(),
            all@ == Endpoint::every(),
            routes@.len() == i,
            forall|j: int|
                #![trigger routes@[j]]
                0 <= j < i ==> {
                    let e = Endpoint::every()[j];
                    routes@[j].endpoint == e && routes@[j].verb == e.asked() && routes@[j].path@
                        == e.place() && routes@[j].needs_auth == !e.is_open()
                },
        decreases all@.len() - i,
    {
        let endpoint = all[i];
        routes.push(
            Route {
                endpoint,
                verb: endpoint.verb(),
                path: endpoint.path(),
                needs_auth: !endpoint.open_to_all(),
            },
        );
        i += 1;
    }
    routes
}

/// The routes leave no endpoint out.
pub proof fn law_every_endpoint_is_routed(e: Endpoint)
    ensures
        Endpoint::every().contains(e),
{
    let all = Endpoint::every();
    let i: int = match e {
        Endpoint::Health => 0,
        Endpoint::Ready => 1,
        Endpoint::Metrics => 2,
        Endpoint::ConnectProcessor => 3,
        Endpoint::TailPipeline => 4,
        Endpoint::ListProcessors => 5,
        Endpoint::RegisterProcessor => 6,
        Endpoint::GetProcessor => 7,
        Endpoint::ListProcessorVersions => 8,
        Endpoint::DeleteProcessorVersion => 9,
        Endpoint::ListPipelines => 10,
        Endpoint::CreatePipeline => 11,
        Endpoint::GetPipeline => 12,
        Endpoint::DeletePipeline => 13,
        Endpoint::StartPipeline => 14,
        Endpoint::StopPipeline => 15,
        Endpoint::UpgradePipeline => 16,
        Endpoint::UpgradeBlueGreen => 17,
        Endpoint::UpgradeCanary => 18,
        Endpoint::CutoverPipeline => 19,
        Endpoint::RollbackPipeline => 20,
        Endpoint::PromoteCanary => 21,
        Endpoint::CanaryStatus => 22,
        Endpoint::PipelineHistory => 23,
        Endpoint::ReconfigureSource => 24,
        Endpoint::ReconfigureSink => 25,
        Endpoint::ListIdentities => 26,
        Endpoint::RegisterIdentity => 27,
        Endpoint::RevokeIdentity => 28,
        Endpoint::DeliveryStatus => 29,
        Endpoint::DeliveryRetry => 30,
        Endpoint::VerifyPipeline => 31,
        Endpoint::ClusterStatus => 32,
        Endpoint::TransferPartition => 33,
        Endpoint::ClusterDrain => 34,
        Endpoint::ClusterRebalance => 35,
        Endpoint::ClusterLeave => 36,
    };
    assert(all[i] == e);
}

/// Every endpoint that changes something asks for a token.
pub proof fn law_changes_need_a_token(e: Endpoint)
    requires
        e.asked() != Verb::Get,
    ensures
        !e.is_open(),
{
}

/// Every endpoint of the API asks for a token.
pub proof fn law_the_api_needs_a_token(e: Endpoint)
    requires
        "/api/v1/"@.is_prefix_of(e.place()),
    ensures
        !e.is_open(),
{
    reveal_strlit("/api/v1/");
    reveal_strlit("/health");
    reveal_strlit("/ready");
    reveal_strlit("/metrics");
    let front = "/api/v1/"@;
    assert(front[1] == 'a');
    assert(e.place().take(front.len() as int)[1] == e.place()[1]);
}

/// The headers that every reply carries.
pub fn security_headers() -> (r: Vec<(&'static str, &'static str)>)
    ensures
        r@.len() == 3,
        r@[0].0@ == "x-content-type-options"@ && r@[0].1@ == "nosniff"@,
        r@[1].0@ == "x-frame-options"@ && r@[1].1@ == "DENY"@,
        r@[2].0@ == "cache-control"@ && r@[2].1@ == "no-store"@,
{
    vec![
        ("x-content-type-options", "nosniff"),
        ("x-frame-options", "DENY"),
        ("cache-control", "no-store"),
    ]
}

/// The digits of a number that may have a plus sign in front.
pub open spec fn unsigned_digits(s: Seq<char>) -> Seq<char> {
    if s.len() > 0 && s[0] == '+' {
        s.skip(1)
    } else {
        s
    }
}

/// Whether a text denotes a number.
pub open spec fn is_number(s: Seq<char>) -> bool {
    let d = unsigned_digits(s);
    &&& d.len() > 0
    &&& forall|i: int| 0 <= i < d.len() ==> is_digit(#[trigger] d[i])
    &&& number(d) <= u64::MAX
}

/// A number from the environment, or the usual one where there is none.
pub fn setting(text: Option<&str>, usual: u64) -> (r: u64)
    ensures
        match text {
            Some(t) => if is_number(t@) {
                r == number(unsigned_digits(t@))
            } else {
                r == usual
            },
            None => r == usual,
        },
{
    let t = match text {
        Some(t) => t,
        None => {
            return usual;
        },
    };
    let chars = chars_of(t);
    let from: usize = if chars.len() > 0 && chars[0] == '+' {
        1
    } else {
        0
    };
    let n = chars.len();
    let ghost d = unsigned_digits(t@);
    proof {
        assert(chars@.subrange(from as int, n as int) =~= d);
    }
    if from >= n {
        return usual;
    }
    let mut i: usize = from;
    while i < n
        invariant
            from <= i <= n,
            n == chars@.len(),
            chars@.subrange(from as int, n as int) == d,
            d == unsigned_digits(t@),
            text == Some(t),
            forall|j: int| from <= j < i ==> is_digit(#[trigger] chars@[j]),
        decreases n - i,
    {
        if !('0' <= chars[i] && chars[i] <= '9') {
            assert(d[i - from] == chars@[i as int]);
            assert(!is_digit(d[i - from]));
            return usual;
        }
        i += 1;
    }
    proof {
        assert forall|j: int| 0 <= j < d.len() implies is_digit(#[trigger] d[j]) by {
            assert(d[j] == chars@[from + j]);
        }
    }
    match parse_digits(&chars, from, n) {
        Some(v) => v,
        None => usual,
    }
}

/// One step of a node's way out.
#[derive(Debug, Clone, Copy, PartialEq, Eq, Structural)]
pub enum DrainStep {
    /// Say that the node is not ready any more.
    MarkNotReady,
    /// Give up leadership within so many milliseconds, and at the same time wait so many seconds
    /// for the word to get round.
    RelinquishAndWait { budget_ms: u64, wait_secs: u64 },
    /// Wait so many seconds for the word to get round.
    Wait { secs: u64 },
    /// Stop every pipeline that runs.
    StopPipelines,
    /// Leave the cluster in good order.
    ShutDownCluster,
}

/// The way out of a node, step by step.
pub fn drain_steps(clustered: bool, prestop: Option<&str>, relinquish: Option<&str>) -> (r: Vec<
    DrainStep,
>)
    ensures
        ({
            let wait_secs = match prestop {
                Some(t) => if is_number(t@) {
                    number(unsigned_digits(t@)) as u64
                } else {
                    5
                },
                None => 5,
            };
            let budget_ms = match relinquish {
                Some(t) => if is_number(t@) {
                    number(unsigned_digits(t@)) as u64
                } else {
                    4000
                },
                None => 4000,
            };
            r@ == if clustered {
                seq![
                    DrainStep::MarkNotReady,
                    DrainStep::RelinquishAndWait { budget_ms, wait_secs },
                    DrainStep::StopPipelines,
                    DrainStep::ShutDownCluster,
                ]
            } else {
                seq![
                    DrainStep::MarkNotReady,
                    DrainStep::Wait { secs: wait_secs },
                    DrainStep::StopPipelines,
                ]
            }
        }),
{
    let wait_secs = setting(prestop, 5);
    let budget_ms = setting(relinquish, 4000);
    let mut steps: Vec<DrainStep> = Vec::new();
    steps.push(DrainStep::MarkNotReady);
    if clustered {
        steps.push(DrainStep::RelinquishAndWait { budget_ms, wait_secs });
        steps.push(DrainStep::StopPipelines);
        steps.push(DrainStep::ShutDownCluster);
    } else {
        steps.push(DrainStep::Wait { secs: wait_secs });
        steps.push(DrainStep::StopPipelines);
    }
    steps
}

/// A name is valid exactly where it has at least one character and at most 128 bytes, does not
/// begin with a dot or a dash, and holds no slash, no backslash, no control character and no two
/// dots in a row.
pub proof fn law_which_names_are_valid(name: Seq<char>, kind: Seq<char>)
    ensures
        name_objection(name, kind) is None <==> {
            &&& name.len() > 0
            &&& encode_utf8(name).len() <= 128
            &&& name[0] != '.' && name[0] != '-'
            &&& forall|i: int|
                0 <= i < name.len() ==> {
                    let c = #[trigger] name[i];
                    &&& c != '/' && c != '\\'
                    &&& ' ' <= c
                    &&& c < '\u{7f}' || c > '\u{9f}'
                    &&& c == '.' && i + 1 < name.len() ==> name[i + 1] != '.'
                }
        },
        name_objection(name, kind) matches Some(text) ==> kind.is_prefix_of(text),
{
    if name_objection(name, kind) is None {
        assert forall|i: int| 0 <= i < name.len() implies {
            let c = #[trigger] name[i];
            &&& c != '/' && c != '\\'
            &&& ' ' <= c
            &&& c < '\u{7f}' || c > '\u{9f}'
            &&& c == '.' && i + 1 < name.len() ==> name[i + 1] != '.'
        } by {
            assert(!is_control(name[i]));
            if name[i] == '/' {
                assert(name.contains('/'));
            }
            if name[i] == '\\' {
                assert(name.contains('\\'));
            }
        }
    } else {
        let text = name_objection(name, kind)->0;
        assert(text.take(kind.len() as int) =~= kind);
        if has_two_dots(name) {
            let i = choose|i: int|
                0 <= i < name.len() - 1 && #[trigger] name[i] == '.' && name[i + 1] == '.';
            assert(name[i] == '.');
        }
        if name.contains('/') {
            let i = choose|i: int| 0 <= i < name.len() && name[i] == '/';
            assert(name[i] == '/');
        }
        if name.contains('\\') {
            let i = choose|i: int| 0 <= i < name.len() && name[i] == '\\';
            assert(name[i] == '\\');
        }
        if exists|i: int| 0 <= i < name.len() && is_control(#[trigger] name[i]) {
            let i = choose|i: int| 0 <= i < name.len() && is_control(#[trigger] name[i]);
            assert(name[i] == name[i]);
        }
    }
}

/// The token of a header is what follows the word in front of it. A header without that word
/// carries none.
pub proof fn law_a_token_follows_the_word(token: Seq<char>, header: Seq<char>)
    ensures
        token_of("Bearer "@ + token) == Some(token),
        token_of(header) matches Some(t) ==> header == "Bearer "@ + t,
{
    reveal_strlit("Bearer ");
    let h = "Bearer "@ + token;
    assert(h.take(7) =~= "Bearer "@);
    assert(h.skip(7) =~= token);
    if token_of(header) is Some {
        assert(header =~= "Bearer "@ + header.skip(7));
    }
}

/// The place of an endpoint among all.
spec fn place_among_all(e: Endpoint) -> int {
    match e {
        Endpoint::Health => 0,
        Endpoint::Ready => 1,
        Endpoint::Metrics => 2,
        Endpoint::ConnectProcessor => 3,
        Endpoint::TailPipeline => 4,
        Endpoint::ListProcessors => 5,
        Endpoint::RegisterProcessor => 6,
        Endpoint::GetProcessor => 7,
        Endpoint::ListProcessorVersions => 8,
        Endpoint::DeleteProcessorVersion => 9,
        Endpoint::ListPipelines => 10,
        Endpoint::CreatePipeline => 11,
        Endpoint::GetPipeline => 12,
        Endpoint::DeletePipeline => 13,
        Endpoint::StartPipeline => 14,
        Endpoint::StopPipeline => 15,
        Endpoint::UpgradePipeline => 16,
        Endpoint::UpgradeBlueGreen => 17,
        Endpoint::UpgradeCanary => 18,
        Endpoint::CutoverPipeline => 19,
        Endpoint::RollbackPipeline => 20,
        Endpoint::PromoteCanary => 21,
        Endpoint::CanaryStatus => 22,
        Endpoint::PipelineHistory => 23,
        Endpoint::ReconfigureSource => 24,
        Endpoint::ReconfigureSink => 25,
        Endpoint::ListIdentities => 26,
        Endpoint::RegisterIdentity => 27,
        Endpoint::RevokeIdentity => 28,
        Endpoint::DeliveryStatus => 29,
        Endpoint::DeliveryRetry => 30,
        Endpoint::VerifyPipeline => 31,
        Endpoint::ClusterStatus => 32,
        Endpoint::TransferPartition => 33,
        Endpoint::ClusterDrain => 34,
        Endpoint::ClusterRebalance => 35,
        Endpoint::ClusterLeave => 36,
    }
}

/// No endpoint is routed twice.
pub proof fn law_no_endpoint_is_routed_twice(i: int, j: int)
    requires
        0 <= i < Endpoint::every().len(),
        0 <= j < Endpoint::every().len(),
        Endpoint::every()[i] == Endpoint::every()[j],
    ensures
        i == j,
{
    assert(place_among_all(Endpoint::every()[i]) == i);
    assert(place_among_all(Endpoint::every()[j]) == j);
}

/// What is read is asked for with GET, what is taken away with DELETE, and what is changed or set
/// going with POST.
pub proof fn law_how_endpoints_are_asked(e: Endpoint)
    ensures
        e.asked() == Verb::Delete <==> e is DeleteProcessorVersion || e is DeletePipeline || e
            is RevokeIdentity,
        e.asked() == Verb::Get <==> e is Health || e is Ready || e is Metrics || e
            is ConnectProcessor || e is TailPipeline || e is ListProcessors || e is GetProcessor
            || e is ListProcessorVersions || e is ListPipelines || e is GetPipeline || e
            is CanaryStatus || e is PipelineHistory || e is ListIdentities || e is DeliveryStatus
            || e is VerifyPipeline || e is ClusterStatus,
        e.asked() == Verb::Get || e.asked() == Verb::Post || e.asked() == Verb::Delete,
{
}

/// What concerns one pipeline stands below the pipelines, under its name.
pub proof fn law_what_concerns_a_pipeline_stands_below_it(e: Endpoint)
    ensures
        ({
            let below = |tail: Seq<char>| e.place() == "/api/v1/pipelines/{name}"@ + tail;
            &&& e is GetPipeline || e is DeletePipeline ==> below(""@)
            &&& e is TailPipeline ==> below("/tail"@)
            &&& e is StartPipeline ==> below("/start"@)
            &&& e is StopPipeline ==> below("/stop"@)
            &&& e is UpgradePipeline ==> below("/upgrade"@)
            &&& e is UpgradeBlueGreen ==> below("/upgrade/blue-green"@)
            &&& e is UpgradeCanary ==> below("/upgrade/canary"@)
            &&& e is CutoverPipeline ==> below("/cutover"@)
            &&& e is RollbackPipeline ==> below("/rollback"@)
            &&& e is PromoteCanary ==> below("/promote"@)
            &&& e is CanaryStatus ==> below("/canary-status"@)
            &&& e is PipelineHistory ==> below("/history"@)
            &&& e is ReconfigureSource ==> below("/reconfigure/source"@)
            &&& e is ReconfigureSink ==> below("/reconfigure/sink"@)
            &&& e is DeliveryStatus ==> below("/delivery"@)
            &&& e is DeliveryRetry ==> below("/delivery/retry"@)
            &&& e is VerifyPipeline ==> below("/verify"@)
        }),
{
    let base = "/api/v1/pipelines/{name}"@;
    reveal_strlit("/api/v1/pipelines/{name}");
    match e {
        Endpoint::GetPipeline => {
            reveal_strlit("");
            assert(e.place() =~= base + ""@);
        },
        Endpoint::DeletePipeline => {
            reveal_strlit("");
            assert(e.place() =~= base + ""@);
        },
        Endpoint::TailPipeline => {
            reveal_strlit("/tail");
            reveal_strlit("/api/v1/pipelines/{name}/tail");
            assert(e.place() =~= base + "/tail"@);
        },
        Endpoint::StartPipeline => {
            reveal_strlit("/start");
            reveal_strlit("/api/v1/pipelines/{name}/start");
            assert(e.place() =~= base + "/start"@);
        },
        Endpoint::StopPipeline => {
            reveal_strlit("/stop");
            reveal_strlit("/api/v1/pipelines/{name}/stop");
            assert(e.place() =~= base + "/stop"@);
        },
        Endpoint::UpgradePipeline => {
            reveal_strlit("/upgrade");
            reveal_strlit("/api/v1/pipelines/{name}/upgrade");
            assert(e.place() =~= base + "/upgrade"@);
        },
        Endpoint::UpgradeBlueGreen => {
            reveal_strlit("/upgrade/blue-green");
            reveal_strlit("/api/v1/pipelines/{name}/upgrade/blue-green");
            assert(e.place() =~= base + "/upgrade/blue-green"@);
        },
        Endpoint::UpgradeCanary => {
            reveal_strlit("/upgrade/canary");
            reveal_strlit("/api/v1/pipelines/{name}/upgrade/canary");
            assert(e.place() =~= base + "/upgrade/canary"@);
        },
        Endpoint::CutoverPipeline => {
            reveal_strlit("/cutover");
            reveal_strlit("/api/v1/pipelines/{name}/cutover");
            assert(e.place() =~= base + "/cutover"@);
        },
        Endpoint::RollbackPipeline => {
            reveal_strlit("/rollback");
            reveal_strlit("/api/v1/pipelines/{name}/rollback");
            assert(e.place() =~= base + "/rollback"@);
        },
        Endpoint::PromoteCanary => {
            reveal_strlit("/promote");
            reveal_strlit("/api/v1/pipelines/{name}/promote");
            assert(e.place() =~= base + "/promote"@);
        },
        Endpoint::CanaryStatus => {
            reveal_strlit("/canary-status");
            reveal_strlit("/api/v1/pipelines/{name}/canary-status");
            assert(e.place() =~= base + "/canary-status"@);
        },
        Endpoint::PipelineHistory => {
            reveal_strlit("/history");
            reveal_strlit("/api/v1/pipelines/{name}/history");
            assert(e.place() =~= base + "/history"@);
        },
        Endpoint::ReconfigureSource => {
            reveal_strlit("/reconfigure/source");
            reveal_strlit("/api/v1/pipelines/{name}/reconfigure/source");
            assert(e.place() =~= base + "/reconfigure/source"@);
        },
        Endpoint::ReconfigureSink => {
            reveal_strlit("/reconfigure/sink");
            reveal_strlit("/api/v1/pipelines/{name}/reconfigure/sink");
            assert(e.place() =~= base + "/reconfigure/sink"@);
        },
        Endpoint::DeliveryStatus => {
            reveal_strlit("/delivery");
            reveal_strlit("/api/v1/pipelines/{name}/delivery");
            assert(e.place() =~= base + "/delivery"@);
        },
        Endpoint::DeliveryRetry => {
            reveal_strlit("/delivery/retry");
            reveal_strlit("/api/v1/pipelines/{name}/delivery/retry");
            assert(e.place() =~= base + "/delivery/retry"@);
        },
        Endpoint::VerifyPipeline => {
            reveal_strlit("/verify");
            reveal_strlit("/api/v1/pipelines/{name}/verify");
            assert(e.place() =~= base + "/verify"@);
        },
        _ => {},
    }
}

/// What concerns processors stands below them, and what concerns the cluster below that; all of
/// them are found at once, without a pipeline's name.
pub proof fn law_where_the_other_endpoints_stand(e: Endpoint)
    ensures
        e is Health ==> e.place() == "/health"@,
        e is Ready ==> e.place() == "/ready"@,
        e is Metrics ==> e.place() == "/metrics"@,
        e is ListPipelines || e is CreatePipeline ==> e.place() == "/api/v1/pipelines"@,
        e is ListProcessors || e is RegisterProcessor ==> e.place() == "/api/v1/processors"@,
        e is ConnectProcessor ==> e.place() == "/api/v1/processors/connect"@,
        e is GetProcessor ==> e.place() == "/api/v1/processors/{name}"@,
        e is ListProcessorVersions ==> e.place() == "/api/v1/processors/{name}/versions"@,
        e is DeleteProcessorVersion ==> e.place()
            == "/api/v1/processors/{name}/versions/{version}"@,
        e is ListIdentities || e is RegisterIdentity ==> e.place()
            == "/api/v1/processors/{name}/identities"@,
        e is RevokeIdentity ==> e.place()
            == "/api/v1/processors/{name}/identities/{fingerprint}"@,
        e is ClusterStatus ==> e.place() == "/api/v1/cluster/status"@,
        e is TransferPartition ==> e.place() == "/api/v1/cluster/partitions/{partition}/transfer"@,
        e is ClusterDrain ==> e.place() == "/api/v1/cluster/drain"@,
        e is ClusterRebalance ==> e.place() == "/api/v1/cluster/rebalance"@,
        e is ClusterLeave ==> e.place() == "/api/v1/cluster/leave"@,
{
}

/// Only what probes and scrapers ask for is open to everyone.
pub proof fn law_only_probes_need_no_token(e: Endpoint)
    ensures
        e.is_open() <==> e is Health || e is Ready || e is Metrics,
{
}

/// A setting is a run of digits, with a plus sign in front or without, that denotes a number of
/// at most 64 bits. Nothing else is one.
pub proof fn law_which_settings_are_numbers(digits: Seq<char>, s: Seq<char>, i: int)
    requires
        digits.len() > 0,
        forall|k: int| 0 <= k < digits.len() ==> '0' <= #[trigger] digits[k] <= '9',
    ensures
        is_number(digits) <==> number(digits) <= u64::MAX,
        is_number("+"@ + digits) <==> number(digits) <= u64::MAX,
        unsigned_digits(digits) == digits,
        unsigned_digits("+"@ + digits) == digits,
        !is_number(""@),
        !is_number("+"@),
        0 <= i < s.len() && !('0' <= s[i] <= '9') && !(i == 0 && s[i] == '+') ==> !is_number(s),
{
    reveal_strlit("+");
    reveal_strlit("");
    assert(digits[0] != '+');
    assert(("+"@ + digits).skip(1) =~= digits);
    assert("+"@.skip(1).len() == 0);
    if 0 <= i < s.len() && !('0' <= s[i] <= '9') && !(i == 0 && s[i] == '+') {
        let d = unsigned_digits(s);
        if s[0] == '+' {
            assert(d[i - 1] == s[i]);
            assert(!is_digit(d[i - 1]));
        } else {
            assert(!is_digit(d[i]));
        }
    }
}

} // verus!
