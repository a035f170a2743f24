//! The catalogue of processors and their versions.
use vstd::prelude::*;

use crate::definition::{
    ProcessorRecord, ProcessorVersion, RegistryCommand, RegistryResponse, VersionStatus,
};
use crate::digest::{hex_encode, hex_text, sha512, sha512_of};
use crate::error::AeonError;
use crate::name_map::NameMap;
use crate::text::{join3, join4, join5, same_text};

verus! {

/// The processors by name.
pub type Catalogue = Map<Seq<char>, ProcessorRecord>;

/// All processors that are registered. A processor has at least one version.
pub struct ProcessorRegistry {
    processors: NameMap<ProcessorRecord>,
}

/// The SHA-512 digest of bytes, in hexadecimal.
pub fn sha512_hex(data: &[u8]) -> (r: String)
    ensures
        r@ == hex_text(sha512_of(data@)),
        r@.len() == 128,
{
    let digest = sha512(data);
    hex_encode(digest.as_slice())
}

/// The versions of a processor, none where it is not registered.
pub open spec fn versions_of(c: Catalogue, name: Seq<char>) -> Map<Seq<char>, ProcessorVersion> {
    if c.contains_key(name) {
        c[name].versions@
    } else {
        Map::empty()
    }
}

/// Whether a version of a processor is registered.
pub open spec fn has_version(c: Catalogue, name: Seq<char>, version: Seq<char>) -> bool {
    versions_of(c, name).contains_key(version)
}

/// The catalogue with one version more. A new processor is described as given; a known one keeps
/// its description. A version of the same name is replaced.
pub open spec fn registered(
    before: Catalogue,
    after: Catalogue,
    name: Seq<char>,
    description: Seq<char>,
    version: ProcessorVersion,
    now: i64,
) -> bool {
    &&& after.dom() == before.dom().insert(name)
    &&& forall|k: Seq<char>| k != name && before.contains_key(k) ==> after[k] == before[k]
    &&& after[name].versions@ == versions_of(before, name).insert(version.version@, version)
    &&& after[name].updated_at == now
    &&& if before.contains_key(name) {
        after[name].name == before[name].name && after[name].description
            == before[name].description && after[name].created_at == before[name].created_at
    } else {
        after[name].name@ == name && after[name].description@ == description
            && after[name].created_at == now
    }
}

/// The catalogue with one version less. A processor without versions is not kept.
pub open spec fn version_deleted(
    before: Catalogue,
    after: Catalogue,
    name: Seq<char>,
    version: Seq<char>,
    now: i64,
) -> bool {
    let rest = versions_of(before, name).remove(version);
    &&& forall|k: Seq<char>| k != name ==> after.contains_key(k) == before.contains_key(k)
    &&& forall|k: Seq<char>| k != name && before.contains_key(k) ==> after[k] == before[k]
    &&& if rest == Map::<Seq<char>, ProcessorVersion>::empty() {
        !after.contains_key(name)
    } else {
        after.contains_key(name) && after[name] == ProcessorRecord {
            versions: after[name].versions,
            updated_at: now,
            ..before[name]
        } && after[name].versions@ == rest
    }
}

/// The catalogue with a version in another status.
pub open spec fn status_set(
    before: Catalogue,
    after: Catalogue,
    name: Seq<char>,
    version: Seq<char>,
    status: VersionStatus,
    now: i64,
) -> bool {
    let v = before[name].versions@[version];
    &&& after == before.insert(name, after[name])
    &&& after[name] == ProcessorRecord {
        versions: after[name].versions,
        updated_at: now,
        ..before[name]
    }
    &&& after[name].versions@ == before[name].versions@.insert(
        version,
        ProcessorVersion { status, ..v },
    )
}

/// The answer to a change of a version that is not registered.
pub open spec fn answers_unknown_version(
    r: RegistryResponse,
    name: Seq<char>,
    version: Seq<char>,
) -> bool {
    r is Error && r->message@ == "version "@ + name + ":"@ + version + " not found"@
}

/// The answer to a version that was registered.
pub open spec fn answers_registered(
    r: RegistryResponse,
    name: Seq<char>,
    version: Seq<char>,
) -> bool {
    r is ProcessorRegistered && r->ProcessorRegistered_name@ == name && r->version@ == version
}

impl ProcessorRegistry {
    pub closed spec fn wf(&self) -> bool {
        &&& self.processors.wf()
        &&& forall|k: Seq<char>| #[trigger]
            self.processors@.contains_key(k) ==> self.processors@[k].wf()
    }

    /// The processors by name.
    pub closed spec fn catalogue(&self) -> Catalogue {
        self.processors@
    }

    /// The names of the processors in order.
    pub closed spec fn names_in_order(&self) -> Seq<Seq<char>> {
        self.processors.names_in_order()
    }

    /// The names in order are sorted and are exactly those of the processors.
    pub proof fn lemma_names(&self)
        requires
            self.wf(),
        ensures
            crate::name_map::strictly_sorted(self.names_in_order()),
            self.names_in_order().to_set() == self.catalogue().dom(),
    {
        self.processors.lemma_names();
    }

    /// A registry of no processors.
    pub fn new() -> (r: Self)
        ensures
            r.wf(),
            r.catalogue() == Catalogue::empty(),
    {
        ProcessorRegistry { processors: NameMap::new() }
    }

    /// Applies a replicated change. Changes of pipelines are not for this registry.
    pub fn apply(&mut self, cmd: RegistryCommand, now: i64) -> (r: RegistryResponse)
        requires
            old(self).wf(),
        ensures
            final(self).wf(),
            match cmd {
                RegistryCommand::RegisterProcessor { name, description, version } => {
                    &&& registered(
                        old(self).catalogue(),
                        final(self).catalogue(),
                        name@,
                        description@,
                        version,
                        now,
                    )
                    &&& answers_registered(r, name@, version.version@)
                },
                RegistryCommand::DeleteVersion { name, version } => {
                    if has_version(old(self).catalogue(), name@, version@) {
                        r is Done && version_deleted(
                            old(self).catalogue(),
                            final(self).catalogue(),
                            name@,
                            version@,
                            now,
                        )
                    } else {
                        answers_unknown_version(r, name@, version@) && final(self).catalogue()
                            == old(self).catalogue()
                    }
                },
                RegistryCommand::SetVersionStatus { name, version, status } => {
                    if has_version(old(self).catalogue(), name@, version@) {
                        r is Done && status_set(
                            old(self).catalogue(),
                            final(self).catalogue(),
                            name@,
                            version@,
                            status,
                            now,
                        )
                    } else {
                        answers_unknown_version(r, name@, version@) && final(self).catalogue()
                            == old(self).catalogue()
                    }
                },
                _ => r is Error && r->message@ == "command not handled by ProcessorRegistry"@
                    && final(self).catalogue() == old(self).catalogue(),
            },
    {
        match cmd {
            RegistryCommand::RegisterProcessor { name, description, version } => {
                self.apply_register(name.as_str(), description.as_str(), version, now)
            },
            RegistryCommand::DeleteVersion { name, version } => {
                self.apply_delete_version(name.as_str(), version.as_str(), now)
            },
            RegistryCommand::SetVersionStatus { name, version, status } => {
                self.apply_set_status(name.as_str(), version.as_str(), status, now)
            },
            _ => RegistryResponse::Error {
                message: "command not handled by ProcessorRegistry".to_owned(),
            },
        }
    }

    /// Checks that an artifact is the one that a version declares.
    pub fn verify_artifact(version: &ProcessorVersion, artifact: &[u8]) -> (r: Result<
        (),
        AeonError,
    >)
        ensures
            match r {
                Ok(_) => version.sha512@ == hex_text(sha512_of(artifact@)),
                Err(e) => version.sha512@ != hex_text(sha512_of(artifact@)) && e is Config
                    && e.text() == "SHA-512 mismatch: expected "@ + version.sha512@
                    + ", computed "@ + hex_text(sha512_of(artifact@)),
            },
    {
        let computed = sha512_hex(artifact);
        if same_text(computed.as_str(), version.sha512.as_str()) {
            return Ok(());
        }
        Err(
            AeonError::config(
                join4(
                    "SHA-512 mismatch: expected ",
                    version.sha512.as_str(),
                    ", computed ",
                    computed.as_str(),
                ),
            ),
        )
    }

    /// Registers a version whose artifact is the one that it declares.
    pub fn register(
        &mut self,
        name: &str,
        description: &str,
        version: ProcessorVersion,
        artifact: &[u8],
        now: i64,
    ) -> (r: Result<RegistryResponse, AeonError>)
        requires
            old(self).wf(),
        ensures
            final(self).wf(),
            if version.sha512@ == hex_text(sha512_of(artifact@)) {
                &&& r is Ok
                &&& answers_registered(r->Ok_0, name@, version.version@)
                &&& registered(
                    old(self).catalogue(),
                    final(self).catalogue(),
                    name@,
                    description@,
                    version,
                    now,
                )
            } else {
                &&& r is Err
                &&& r->Err_0 is Config
                &&& r->Err_0.text() == "SHA-512 mismatch: expected "@ + version.sha512@
                    + ", computed "@ + hex_text(sha512_of(artifact@))
                &&& final(self).catalogue() == old(self).catalogue()
            },
    {
        match Self::verify_artifact(&version, artifact) {
            Ok(()) => Ok(self.apply_register(name, description, version, now)),
            Err(e) => Err(e),
        }
    }

    fn apply_register(
        &mut self,
        name: &str,
        description: &str,
        version: ProcessorVersion,
        now: i64,
    ) -> (r: RegistryResponse)
        requires
            old(self).wf(),
        ensures
            final(self).wf(),
            registered(
                old(self).catalogue(),
                final(self).catalogue(),
                name@,
                description@,
                version,
                now,
            ),
            answers_registered(r, name@, version.version@),
    {
        let version_name = version.version.clone();
        let response = RegistryResponse::ProcessorRegistered {
            name: name.to_owned(),
            version: version.version.clone(),
        };
        match self.processors.get_mut(name) {
            Some(record) => {
                record.versions.insert(version_name, version);
                record.updated_at = now;
            },
            None => {
                let mut record = ProcessorRecord::new(
                    name.to_owned(),
                    description.to_owned(),
                    now,
                );
                record.versions.insert(version_name, version);
                self.processors.insert(name.to_owned(), record);
            },
        }
        proof {
            assert(self.catalogue().dom() =~= old(self).catalogue().dom().insert(name@));
        }
        response
    }

    fn apply_delete_version(&mut self, name: &str, version: &str, now: i64) -> (r:
        RegistryResponse)
        requires
            old(self).wf(),
        ensures
            final(self).wf(),
            if has_version(old(self).catalogue(), name@, version@) {
                r is Done && version_deleted(
                    old(self).catalogue(),
                    final(self).catalogue(),
                    name@,
                    version@,
                    now,
                )
            } else {
                answers_unknown_version(r, name@, version@) && final(self).catalogue() == old(
                    self,
                ).catalogue()
            },
    {
        let known = match self.processors.get(name) {
            Some(record) => record.versions.contains(version),
            None => false,
        };
        if !known {
            return RegistryResponse::Error {
                message: join5("version ", name, ":", version, " not found"),
            };
        }
        let mut emptied = false;
        match self.processors.get_mut(name) {
            Some(record) => {
                record.versions.remove(version);
                record.updated_at = now;
                emptied = record.versions.len() == 0;
                proof {
                    record.versions.lemma_names();
                    let rest = record.versions@;
                    if emptied {
                        assert(rest.dom() =~= Set::<Seq<char>>::empty());
                        assert(rest =~= Map::<Seq<char>, ProcessorVersion>::empty());
                    }
                }
            },
            None => {},
        }
        if emptied {
            self.processors.remove(name);
        }
        RegistryResponse::Done
    }

    fn apply_set_status(&mut self, name: &str, version: &str, status: VersionStatus, now: i64) -> (r:
        RegistryResponse)
        requires
            old(self).wf(),
        ensures
            final(self).wf(),
            if has_version(old(self).catalogue(), name@, version@) {
                r is Done && status_set(
                    old(self).catalogue(),
                    final(self).catalogue(),
                    name@,
                    version@,
                    status,
                    now,
                )
            } else {
                answers_unknown_version(r, name@, version@) && final(self).catalogue() == old(
                    self,
                ).catalogue()
            },
    {
        let known = match self.processors.get(name) {
            Some(record) => record.versions.contains(version),
            None => false,
        };
        if !known {
            return RegistryResponse::Error {
                message: join5("version ", name, ":", version, " not found"),
            };
        }
        match self.processors.get_mut(name) {
            Some(record) => {
                match record.versions.get_mut(version) {
                    Some(v) => {
                        v.status = status;
                    },
                    None => {},
                }
                record.updated_at = now;
            },
            None => {},
        }
        RegistryResponse::Done
    }

    /// The names of all processors, in order.
    pub fn list(&self) -> (r: Vec<String>)
        requires
            self.wf(),
        ensures
            r@.map_values(|s: String| s@) == self.names_in_order(),
    {
        self.processors.names()
    }

    /// A processor and its versions.
    pub fn get(&self, name: &str) -> (r: Option<&ProcessorRecord>)
        requires
            self.wf(),
        ensures
            match r {
                Some(p) => self.catalogue().contains_key(name@) && *p == self.catalogue()[name@]
                    && p.wf(),
                None => !self.catalogue().contains_key(name@),
            },
    {
        self.processors.get(name)
    }

    /// The versions of a processor.
    pub fn versions(&self, name: &str) -> (r: Option<&NameMap<ProcessorVersion>>)
        requires
            self.wf(),
        ensures
            match r {
                Some(v) => self.catalogue().contains_key(name@) && v@ == versions_of(
                    self.catalogue(),
                    name@,
                ) && v.wf(),
                None => !self.catalogue().contains_key(name@),
            },
    {
        match self.processors.get(name) {
            Some(record) => Some(&record.versions),
            None => None,
        }
    }

    /// Deletes a version that is not in use.
    pub fn delete_version(&mut self, name: &str, version: &str, now: i64) -> (r: Result<
        RegistryResponse,
        AeonError,
    >)
        requires
            old(self).wf(),
        ensures
            final(self).wf(),
            ({
                let before = old(self).catalogue();
                if !has_version(before, name@, version@) {
                    &&& r is Ok
                    &&& answers_unknown_version(r->Ok_0, name@, version@)
                    &&& final(self).catalogue() == before
                } else if before[name@].versions@[version@].status == VersionStatus::Active {
                    &&& r is Err
                    &&& r->Err_0 is Config
                    &&& r->Err_0.text() == "cannot delete active version "@ + name@ + ":"@
                        + version@ + " — stop pipelines first"@
                    &&& final(self).catalogue() == before
                } else {
                    &&& r is Ok
                    &&& r->Ok_0 is Done
                    &&& version_deleted(before, final(self).catalogue(), name@, version@, now)
                }
            }),
    {
        match self.processors.get(name) {
            Some(record) => match record.versions.get(version) {
                Some(v) => {
                    if v.status == VersionStatus::Active {
                        return Err(
                            AeonError::config(
                                join5(
                                    "cannot delete active version ",
                                    name,
                                    ":",
                                    version,
                                    " — stop pipelines first",
                                ),
                            ),
                        );
                    }
                },
                None => {},
            },
            None => {},
        }
        Ok(self.apply_delete_version(name, version, now))
    }

    /// How many processors there are.
    pub fn count(&self) -> (r: usize)
        requires
            self.wf(),
        ensures
            r == self.catalogue().dom().len(),
    {
        self.processors.len()
    }

    /// All processors, for a snapshot.
    pub fn snapshot(&self) -> (r: &NameMap<ProcessorRecord>)
        requires
            self.wf(),
        ensures
            r.wf(),
            r@ == self.catalogue(),
    {
        &self.processors
    }

    /// Takes all processors from a snapshot.
    pub fn restore(&mut self, data: NameMap<ProcessorRecord>)
        requires
            old(self).wf(),
            data.wf(),
            forall|k: Seq<char>| #[trigger] data@.contains_key(k) ==> data@[k].wf(),
        ensures
            final(self).wf(),
            final(self).catalogue() == data@,
    {
        self.processors = data;
    }

    /// Where the artifact of a version is kept, below the directory of artifacts.
    pub fn artifact_path(name: &str, version: &str) -> (r: String)
        ensures
            r@ == name@ + "/"@ + version@,
    {
        join3(name, "/", version)
    }
}

/// A version that was registered can be looked up, and no other version is changed by it.
pub proof fn law_registered_is_found(
    before: Catalogue,
    after: Catalogue,
    name: Seq<char>,
    description: Seq<char>,
    version: ProcessorVersion,
    now: i64,
)
    requires
        registered(before, after, name, description, version, now),
    ensures
        has_version(after, name, version.version@),
        versions_of(after, name)[version.version@] == version,
        forall|k: Seq<char>, v: Seq<char>|
            (k != name || v != version.version@) ==> (#[trigger] has_version(after, k, v)
                == has_version(before, k, v)) && (has_version(before, k, v) ==> versions_of(
                after,
                k,
            )[v] == versions_of(before, k)[v]),
{
    assert forall|k: Seq<char>, v: Seq<char>|
        (k != name || v != version.version@) implies (#[trigger] has_version(after, k, v)
        == has_version(before, k, v)) && (has_version(before, k, v) ==> versions_of(after, k)[v]
        == versions_of(before, k)[v]) by {
        if k != name {
            assert(after.dom().contains(k) == before.dom().contains(k));
        }
    }
}

/// Deleting a version that was new undoes its registration: the same versions are registered as
/// before, and a processor that came with it is gone with it.
pub proof fn law_delete_undoes_register(
    before: Catalogue,
    between: Catalogue,
    after: Catalogue,
    name: Seq<char>,
    description: Seq<char>,
    version: ProcessorVersion,
    now: i64,
    later: i64,
)
    requires
        !has_version(before, name, version.version@),
        before.contains_key(name) ==> versions_of(before, name) != Map::<
            Seq<char>,
            ProcessorVersion,
        >::empty(),
        registered(before, between, name, description, version, now),
        version_deleted(between, after, name, version.version@, later),
    ensures
        after.dom() == before.dom(),
        forall|k: Seq<char>| versions_of(after, k) == versions_of(before, k),
{
    let v = version.version@;
    assert(versions_of(between, name).remove(v) =~= versions_of(before, name));
    assert(between.dom().contains(name));
    assert forall|k: Seq<char>| after.contains_key(k) == before.contains_key(k) by {
        if k != name {
            assert(between.dom().contains(k) == before.dom().contains(k));
        }
    }
    assert(after.dom() =~= before.dom());
    assert forall|k: Seq<char>| versions_of(after, k) == versions_of(before, k) by {
        if k != name {
            assert(between.dom().contains(k) == before.dom().contains(k));
        }
    }
}

/// No processor is left without versions by deleting one.
pub proof fn law_no_processor_without_versions(
    before: Catalogue,
    after: Catalogue,
    name: Seq<char>,
    version: Seq<char>,
    now: i64,
)
    requires
        version_deleted(before, after, name, version, now),
        forall|k: Seq<char>| #[trigger]
            before.contains_key(k) ==> before[k].versions@ != Map::<
                Seq<char>,
                ProcessorVersion,
            >::empty(),
    ensures
        forall|k: Seq<char>| #[trigger]
            after.contains_key(k) ==> after[k].versions@ != Map::<
                Seq<char>,
                ProcessorVersion,
            >::empty(),
{
    assert forall|k: Seq<char>| #[trigger] after.contains_key(k) implies after[k].versions@
        != Map::<Seq<char>, ProcessorVersion>::empty() by {
        if k != name {
            assert(before.contains_key(k));
        }
    }
}

/// Registering a version adds that one to the catalogue and changes no other, of any processor.
pub proof fn law_registering_adds_one_version(
    before: Catalogue,
    after: Catalogue,
    name: Seq<char>,
    description: Seq<char>,
    version: ProcessorVersion,
    now: i64,
    k: Seq<char>,
    v: Seq<char>,
)
    requires
        registered(before, after, name, description, version, now),
    ensures
        after.contains_key(k) <==> k == name || before.contains_key(k),
        k != name && before.contains_key(k) ==> after[k] == before[k],
        after.contains_key(k) && after[k].versions@.contains_key(v) <==> k == name && v
            == version.version@ || before.contains_key(k) && before[k].versions@.contains_key(v),
        after[name].versions@[version.version@] == version,
        before.contains_key(k) && before[k].versions@.contains_key(v) && !(k == name && v
            == version.version@) ==> after[k].versions@[v] == before[k].versions@[v],
        after[name].updated_at == now,
        before.contains_key(name) ==> after[name].created_at == before[name].created_at
            && after[name].description@ == before[name].description@ && after[name].name@
            == before[name].name@,
        !before.contains_key(name) ==> after[name].created_at == now && after[name].description@
            == description && after[name].name@ == name,
{
    assert(after.dom().contains(k) <==> k == name || before.dom().contains(k));
    assert(after.dom().contains(name));
}

/// Deleting a version takes that one out of the catalogue and changes no other, of any processor;
/// a processor goes with its last version.
pub proof fn law_deleting_takes_one_version_out(
    before: Catalogue,
    after: Catalogue,
    name: Seq<char>,
    version: Seq<char>,
    now: i64,
    k: Seq<char>,
    v: Seq<char>,
)
    requires
        before.contains_key(name),
        before[name].versions@.contains_key(version),
        version_deleted(before, after, name, version, now),
    ensures
        k != name ==> (after.contains_key(k) <==> before.contains_key(k)),
        k != name && before.contains_key(k) ==> after[k] == before[k],
        after.contains_key(name) && after[name].versions@.contains_key(v) <==> v != version
            && before[name].versions@.contains_key(v),
        v != version && before[name].versions@.contains_key(v) ==> after[name].versions@[v]
            == before[name].versions@[v] && after[name].updated_at == now
            && after[name].created_at == before[name].created_at && after[name].description
            == before[name].description && after[name].name == before[name].name,
        (forall|u: Seq<char>| #[trigger]
            before[name].versions@.contains_key(u) ==> u == version) <==> !after.contains_key(name),
{
    let rest = before[name].versions@.remove(version);
    if v != version && before[name].versions@.contains_key(v) {
        assert(rest.contains_key(v));
        assert(!Map::<Seq<char>, ProcessorVersion>::empty().contains_key(v));
        assert(after.contains_key(name));
    }
    if forall|u: Seq<char>| #[trigger] before[name].versions@.contains_key(u) ==> u == version {
        assert(rest =~= Map::<Seq<char>, ProcessorVersion>::empty());
    } else {
        let u = choose|u: Seq<char>| #[trigger]
            before[name].versions@.contains_key(u) && u != version;
        assert(rest.contains_key(u));
        assert(!Map::<Seq<char>, ProcessorVersion>::empty().contains_key(u));
    }
}

/// A new status changes the status of one version and nothing else of any.
pub proof fn law_a_status_is_that_of_one_version(
    before: Catalogue,
    after: Catalogue,
    name: Seq<char>,
    version: Seq<char>,
    status: VersionStatus,
    now: i64,
    k: Seq<char>,
    v: Seq<char>,
)
    requires
        before.contains_key(name),
        before[name].versions@.contains_key(version),
        status_set(before, after, name, version, status, now),
    ensures
        after.contains_key(k) <==> before.contains_key(k),
        k != name && before.contains_key(k) ==> after[k] == before[k],
        after[name].versions@.contains_key(v) <==> before[name].versions@.contains_key(v),
        v != version && before[name].versions@.contains_key(v) ==> after[name].versions@[v]
            == before[name].versions@[v],
        after[name].versions@[version].status == status,
        after[name].versions@[version] == (ProcessorVersion {
            status,
            ..before[name].versions@[version]
        }),
        after[name].updated_at == now,
        after[name].created_at == before[name].created_at,
        after[name].description == before[name].description,
        after[name].name == before[name].name,
{
    assert(after.contains_key(k) == before.insert(name, after[name]).contains_key(k));
}

/// A version is known exactly where its processor is and has it.
pub proof fn law_which_versions_are_known(c: Catalogue, name: Seq<char>, version: Seq<char>)
    ensures
        has_version(c, name, version) <==> c.contains_key(name)
            && c[name].versions@.contains_key(version),
{
}

/// The answer to a registration names what was registered; the answer to a change of an unknown
/// version names what is not there.
pub proof fn law_answers_name_the_version(
    r: RegistryResponse,
    name: Seq<char>,
    version: Seq<char>,
)
    ensures
        answers_registered(r, name, version) <==> (r matches
            RegistryResponse::ProcessorRegistered { name: n, version: v } && n@ == name && v@
            == version),
        answers_unknown_version(r, name, version) <==> (r matches RegistryResponse::Error {
            message,
        } && message@ == "version "@ + name + ":"@ + version + " not found"@),
{
}

} // verus!
