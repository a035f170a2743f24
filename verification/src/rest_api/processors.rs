//! Requests that concern processors, their versions and their identities.
use vstd::prelude::*;

use crate::definition::{
    ProcessorRecord, ProcessorType, ProcessorVersion, RegistryCommand, RegistryResponse,
    VersionStatus,
};
use crate::name_map::NameMap;
use crate::processor_auth::{
    compute_fingerprint, fingerprint_of, public_key, PipelineScope, ProcessorIdentity,
};
use crate::registry::{has_version, registered, version_deleted, versions_of, ProcessorRegistry};
use crate::rest_api::reply::{is_done, is_error, Body, Reply};
use crate::text::{join2, join3, join5, same_text};

verus! {

/// One processor in a list.
#[derive(Debug)]
pub struct ProcessorListItem {
    pub name: String,
    pub version_count: usize,
    pub latest_version: Option<String>,
}

/// Whether an item stands for a processor.
pub open spec fn lists(item: ProcessorListItem, record: ProcessorRecord) -> bool {
    &&& item.name == record.name
    &&& item.version_count == record.versions@.dom().len()
    &&& match item.latest_version {
        Some(v) => {
            let names = record.versions.names_in_order();
            names.len() > 0 && record.versions@.contains_key(names.last()) && v
                == record.versions@[names.last()].version
        },
        None => record.versions@ == Map::<Seq<char>, ProcessorVersion>::empty(),
    }
}

/// Lists all processors, in the order of their names.
pub fn list_processors(registry: &ProcessorRegistry) -> (r: Vec<ProcessorListItem>)
    requires
        registry.wf(),
    ensures
        r@.len() == registry.names_in_order().len(),
        forall|i: int|
            #![trigger r@[i]]
            0 <= i < r@.len() ==> lists(
                r@[i],
                registry.catalogue()[registry.names_in_order()[i]],
            ),
{
    let names = registry.list();
    let ghost all = registry.names_in_order();
    let mut items: Vec<ProcessorListItem> = Vec::new();
    let mut i: usize = 0;
    proof {
        registry.lemma_names();
        assert(names@.map_values(|s: String| s@).len() == names@.len());
    }
    while i < names.len()
        invariant
            i <= names@.len(),
            registry.wf(),
            all == registry.names_in_order(),
            all == names@.map_values(|s: String| s@),
            all.to_set() == registry.catalogue().dom(),
            items@.len() == i,
            forall|j: int|
                #![trigger items@[j]]
                0 <= j < i ==> lists(items@[j], registry.catalogue()[all[j]]),
        decreases names@.len() - i,
    {
        proof {
            assert(all[i as int] == names@[i as int]@);
            assert(all.to_set().contains(all[i as int]));
        }
        if let Some(record) = registry.get(names[i].as_str()) {
            let latest_version: Option<String> = match record.latest_version() {
                Some(v) => Some(v.version.clone()),
                None => None,
            };
            items.push(
                ProcessorListItem {
                    name: record.name.clone(),
                    version_count: record.versions.len(),
                    latest_version,
                },
            );
        }
        i += 1;
    }
    items
}

/// Whether a reply is the answer to a version that was to be registered.
pub open spec fn is_registration(
    r: Reply,
    outcome: Result<RegistryResponse, String>,
    replicated: bool,
) -> bool {
    match outcome {
        Ok(RegistryResponse::ProcessorRegistered { name, version }) => r == (Reply {
            status: 201,
            leader: None,
            body: Body::Registered { name, version, replicated },
        }),
        Ok(RegistryResponse::Error { message }) => is_error(r, 400, message@),
        Ok(other) => r == (Reply { status: 200, leader: None, body: Body::Response(other) }),
        Err(why) => is_error(r, 500, why@),
    }
}

/// Answers a registration, from the answer to the change or from why it could not be made.
pub fn registration(outcome: Result<RegistryResponse, String>, replicated: bool) -> (r: Reply)
    ensures
        is_registration(r, outcome, replicated),
{
    match outcome {
        Ok(RegistryResponse::ProcessorRegistered { name, version }) => Reply::new(
            201,
            Body::Registered { name, version, replicated },
        ),
        Ok(RegistryResponse::Error { message }) => Reply::error(400, message),
        Ok(other) => Reply::new(200, Body::Response(other)),
        Err(why) => Reply::error(500, why),
    }
}

/// Registers a version on a node without a cluster.
pub fn register_processor(
    registry: &mut ProcessorRegistry,
    name: String,
    description: String,
    version: ProcessorVersion,
    now: i64,
) -> (r: Reply)
    requires
        old(registry).wf(),
    ensures
        final(registry).wf(),
        registered(
            old(registry).catalogue(),
            final(registry).catalogue(),
            name@,
            description@,
            version,
            now,
        ),
        r.status == 201,
        r.leader is None,
        match r.body {
            Body::Registered { name: n, version: v, replicated } => n@ == name@ && v@
                == version.version@ && !replicated,
            _ => false,
        },
{
    let answer = registry.apply(
        RegistryCommand::RegisterProcessor { name, description, version },
        now,
    );
    registration(Ok(answer), false)
}

/// The refusal of a processor that is not registered.
pub open spec fn no_processor(name: Seq<char>) -> Seq<char> {
    "processor '"@ + name + "' not found"@
}

fn unknown_processor(name: &str) -> (r: Reply)
    ensures
        is_error(r, 404, no_processor(name@)),
{
    Reply::error(404, join3("processor '", name, "' not found"))
}

/// Looks a processor up.
pub fn get_processor<'a>(registry: &'a ProcessorRegistry, name: &str) -> (r: Result<
    &'a ProcessorRecord,
    Reply,
>)
    requires
        registry.wf(),
    ensures
        match r {
            Ok(record) => registry.catalogue().contains_key(name@) && *record
                == registry.catalogue()[name@],
            Err(reply) => !registry.catalogue().contains_key(name@) && is_error(
                reply,
                404,
                no_processor(name@),
            ),
        },
{
    match registry.get(name) {
        Some(record) => Ok(record),
        None => Err(unknown_processor(name)),
    }
}

/// Looks the versions of a processor up.
pub fn list_processor_versions<'a>(registry: &'a ProcessorRegistry, name: &str) -> (r: Result<
    &'a NameMap<ProcessorVersion>,
    Reply,
>)
    requires
        registry.wf(),
    ensures
        match r {
            Ok(versions) => registry.catalogue().contains_key(name@) && versions@ == versions_of(
                registry.catalogue(),
                name@,
            ),
            Err(reply) => !registry.catalogue().contains_key(name@) && is_error(
                reply,
                404,
                no_processor(name@),
            ),
        },
{
    match registry.versions(name) {
        Some(versions) => Ok(versions),
        None => Err(unknown_processor(name)),
    }
}

/// Deletes a version. A version that pipelines run is kept; one that is not registered counts as
/// deleted.
pub fn delete_processor_version(
    registry: &mut ProcessorRegistry,
    name: &str,
    version: &str,
    now: i64,
) -> (r: Reply)
    requires
        old(registry).wf(),
    ensures
        final(registry).wf(),
        ({
            let before = old(registry).catalogue();
            let after = final(registry).catalogue();
            if !has_version(before, name@, version@) {
                after == before && is_done(r, 200, "deleted"@, None, false)
            } else if before[name@].versions@[version@].status == VersionStatus::Active {
                after == before && is_error(
                    r,
                    400,
                    "cannot delete active version "@ + name@ + ":"@ + version@
                        + " — stop pipelines first"@,
                )
            } else {
                version_deleted(before, after, name@, version@, now) && is_done(
                    r,
                    200,
                    "deleted"@,
                    None,
                    false,
                )
            }
        }),
{
    match registry.delete_version(name, version, now) {
        Ok(_) => Reply::done(200, "deleted", None, false),
        Err(e) => Reply::refused(&e),
    }
}

/// How a processor is brought to life.
#[derive(Debug, Clone, Copy, PartialEq, Eq, Structural)]
pub enum Instantiation {
    /// From a WebAssembly module.
    Wasm,
    /// From a shared library.
    Native,
}

/// Decides how a registered version is brought to life. `artifact` says whether its artifact could
/// be read, `native` whether this node loads shared libraries.
pub fn instantiate_processor(
    registry: &ProcessorRegistry,
    name: &str,
    version: &str,
    artifact: Result<(), String>,
    native: bool,
) -> (r: Result<Instantiation, Reply>)
    requires
        registry.wf(),
    ensures
        ({
            let c = registry.catalogue();
            match artifact {
                Err(why) => r is Err && is_error(
                    r->Err_0,
                    400,
                    "failed to load artifact: "@ + why@,
                ),
                Ok(_) => if !c.contains_key(name@) {
                    r is Err && is_error(r->Err_0, 404, no_processor(name@))
                } else if !has_version(c, name@, version@) {
                    r is Err && is_error(
                        r->Err_0,
                        404,
                        "version "@ + name@ + ":"@ + version@ + " not found"@,
                    )
                } else {
                    let kind = c[name@].versions@[version@].processor_type;
                    if kind == ProcessorType::Wasm {
                        r == Ok::<Instantiation, Reply>(Instantiation::Wasm)
                    } else if kind == ProcessorType::NativeSo && native {
                        r == Ok::<Instantiation, Reply>(Instantiation::Native)
                    } else {
                        r is Err && is_error(
                            r->Err_0,
                            400,
                            "hot-swap not supported for processor type '"@ + kind.text()
                                + "' — T3/T4 processors are managed externally"@,
                        )
                    }
                },
            }
        }),
{
    if let Err(why) = artifact {
        return Err(Reply::error(400, join2("failed to load artifact: ", why.as_str())));
    }
    let record = match registry.get(name) {
        Some(record) => record,
        None => {
            return Err(unknown_processor(name));
        },
    };
    let kind = match record.get_version(version) {
        Some(v) => v.processor_type,
        None => {
            return Err(
                Reply::error(404, join5("version ", name, ":", version, " not found")),
            );
        },
    };
    if kind == ProcessorType::Wasm {
        return Ok(Instantiation::Wasm);
    }
    if kind == ProcessorType::NativeSo && native {
        return Ok(Instantiation::Native);
    }
    Err(
        Reply::error(
            400,
            join3(
                "hot-swap not supported for processor type '",
                kind.as_text(),
                "' — T3/T4 processors are managed externally",
            ),
        ),
    )
}

/// What went wrong when a processor was brought to life.
#[derive(Debug, Clone, Copy, PartialEq, Eq, Structural)]
pub enum InstantiationStage {
    CompileWasm,
    CreateWasm,
    LoadNative,
}

/// Answers a request whose processor could not be brought to life.
pub fn instantiation_failed(stage: InstantiationStage, why: &str) -> (r: Reply)
    ensures
        is_error(
            r,
            400,
            match stage {
                InstantiationStage::CompileWasm => "failed to compile Wasm module: "@ + why@,
                InstantiationStage::CreateWasm => "failed to create Wasm processor: "@ + why@,
                InstantiationStage::LoadNative => "failed to load native processor: "@ + why@,
            },
        ),
{
    let front = match stage {
        InstantiationStage::CompileWasm => "failed to compile Wasm module: ",
        InstantiationStage::CreateWasm => "failed to create Wasm processor: ",
        InstantiationStage::LoadNative => "failed to load native processor: ",
    };
    Reply::error(400, join2(front, why))
}

/// The usual limit on the connections of an identity.
pub fn default_max_instances() -> (r: u32)
    ensures
        r == 1,
{
    1
}

/// Makes an identity of a public key. The key must be well formed.
pub fn register_identity(
    processor: String,
    key: String,
    allowed_pipelines: PipelineScope,
    max_instances: u32,
    now: i64,
) -> (r: Result<ProcessorIdentity, Reply>)
    ensures
        match r {
            Ok(id) => {
                &&& public_key(key@) is Ok
                &&& id.fingerprint@ == fingerprint_of(public_key(key@)->Ok_0)
                &&& id.registered_by@ == "api"@
                &&& id == ProcessorIdentity {
                    public_key: key,
                    fingerprint: id.fingerprint,
                    processor_name: processor,
                    allowed_pipelines,
                    max_instances,
                    registered_at: now,
                    registered_by: id.registered_by,
                    revoked_at: None,
                }
            },
            Err(reply) => public_key(key@) is Err && is_error(reply, 400, public_key(key@)->Err_0),
        },
{
    match compute_fingerprint(key.as_str()) {
        Ok(fingerprint) => Ok(
            ProcessorIdentity {
                public_key: key,
                fingerprint,
                processor_name: processor,
                allowed_pipelines,
                max_instances,
                registered_at: now,
                registered_by: "api".to_owned(),
                revoked_at: None,
            },
        ),
        Err(e) => Err(Reply::refused(&e)),
    }
}

/// Answers the registration of an identity, from what the store says.
pub fn identity_registered(outcome: Result<String, String>) -> (r: Reply)
    ensures
        match outcome {
            Ok(fingerprint) => r == (Reply {
                status: 201,
                leader: None,
                body: Body::IdentityActive { fingerprint },
            }),
            Err(why) => is_error(r, 409, why@),
        },
{
    match outcome {
        Ok(fingerprint) => Reply::new(201, Body::IdentityActive { fingerprint }),
        Err(why) => Reply::error(409, why),
    }
}

/// Checks that an identity that is to be revoked is one of this processor's.
pub fn may_revoke(name: &str, fingerprint: &str, found: Option<&ProcessorIdentity>) -> (r: Result<
    (),
    Reply,
>)
    ensures
        match found {
            Some(id) => if id.processor_name@ == name@ {
                r is Ok
            } else {
                r is Err && is_error(
                    r->Err_0,
                    404,
                    "identity "@ + fingerprint@ + " does not belong to processor '"@ + name@
                        + "'"@,
                )
            },
            None => r is Err && is_error(
                r->Err_0,
                404,
                "identity "@ + fingerprint@ + " not found"@,
            ),
        },
{
    match found {
        Some(id) => {
            if same_text(id.processor_name.as_str(), name) {
                Ok(())
            } else {
                Err(
                    Reply::error(
                        404,
                        join5(
                            "identity ",
                            fingerprint,
                            " does not belong to processor '",
                            name,
                            "'",
                        ),
                    ),
                )
            }
        },
        None => Err(Reply::error(404, join3("identity ", fingerprint, " not found"))),
    }
}

/// Answers a revocation, from whether the identity was still in use.
pub fn identity_revoked(fingerprint: String, revoked: bool, now: i64) -> (r: Reply)
    ensures
        if revoked {
            r == (Reply {
                status: 200,
                leader: None,
                body: Body::IdentityRevoked { fingerprint, revoked_at: now },
            })
        } else {
            is_error(r, 409, "identity "@ + fingerprint@ + " is already revoked"@)
        },
{
    if revoked {
        Reply::new(200, Body::IdentityRevoked { fingerprint, revoked_at: now })
    } else {
        Reply::error(409, join3("identity ", fingerprint.as_str(), " is already revoked"))
    }
}

/// An item of the list tells a processor's name, how many versions it has, and its last version in
/// the order of their names, where it has any.
pub proof fn law_what_a_list_says(item: ProcessorListItem, record: ProcessorRecord)
    requires
        lists(item, record),
    ensures
        item.name@ == record.name@,
        item.version_count == record.versions@.dom().len(),
        item.latest_version matches Some(v) ==> {
            let names = record.versions.names_in_order();
            &&& names.len() > 0
            &&& record.versions@.contains_key(names[names.len() - 1])
            &&& v@ == record.versions@[names[names.len() - 1]].version@
        },
        item.latest_version is None ==> record.versions@ == Map::<
            Seq<char>,
            ProcessorVersion,
        >::empty(),
{
}

/// A version that was registered is answered with its name, a refusal with its reason, and a
/// failure with what failed.
pub proof fn law_how_a_registration_is_answered(
    r: Reply,
    outcome: Result<RegistryResponse, String>,
    replicated: bool,
)
    requires
        is_registration(r, outcome, replicated),
    ensures
        r.leader is None,
        outcome matches Err(why) ==> r.status == 500 && (r.body matches Body::Error { error }
            && error@ == why@),
        outcome matches Ok(answer) ==> {
            &&& answer matches RegistryResponse::ProcessorRegistered { name, version } ==> {
                &&& r.status == 201
                &&& r.body == Body::Registered { name, version, replicated }
            }
            &&& answer matches RegistryResponse::Error { message } ==> r.status == 400 && (r.body
                matches Body::Error { error } && error@ == message@)
            &&& answer !is ProcessorRegistered && answer !is Error ==> r.status == 200 && r.body
                == Body::Response(answer)
        },
{
}

/// The refusal names the processor that is not registered.
pub proof fn law_a_missing_processor_is_named(name: Seq<char>)
    ensures
        no_processor(name).len() == name.len() + 22,
        no_processor(name).subrange(11, 11 + name.len() as int) == name,
{
    reveal_strlit("processor '");
    reveal_strlit("' not found");
    assert(no_processor(name).subrange(11, 11 + name.len() as int) =~= name);
}

} // verus!
