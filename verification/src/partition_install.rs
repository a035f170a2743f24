//! Taking over a partition: the segments and the proof-of-history chain that come with it.
use vstd::prelude::*;
use vstd::string::StringExecFns;

use crate::error::AeonError;
use crate::partition_map::PartitionMap;
use crate::pipeline::config::PipelineConfig;
use crate::pipeline::metrics::PipelineMetrics;
use crate::text::{
    chars_of, decimal, digit, join2, join3, law_a_digit_counts_for_its_place,
    law_a_number_is_read_back, number, push_u64,
};
use crate::types::Output;

verus! {

/// Receives the segments of partitions. `W` writes the segments of one partition.
pub struct L2SegmentInstaller<W> {
    root: String,
    pipeline: String,
    writers: PartitionMap<W>,
}

/// What to do with a writer whose transfer has ended.
pub enum FinishStep<W> {
    /// Complete what was written.
    Commit(W),
    /// Drop the writer and remove the partition's directory.
    Discard(W),
}

/// The last five decimal digits of a number.
pub open spec fn five_digits(n: nat) -> Seq<char> {
    seq![
        digit(n / 10000 % 10),
        digit(n / 1000 % 10),
        digit(n / 100 % 10),
        digit(n / 10 % 10),
        digit(n % 10),
    ]
}

/// A path below another one. A path that starts at the root of the file system stays as it is.
pub open spec fn below(base: Seq<char>, path: Seq<char>) -> Seq<char> {
    if path.len() > 0 && path[0] == '/' {
        path
    } else if base.len() == 0 || base.last() == '/' {
        base + path
    } else {
        base + "/"@ + path
    }
}

/// The directory of a partition: below the root the pipeline's, and below that one `p` and the
/// partition's number in five digits.
pub open spec fn partition_dir_of(root: Seq<char>, pipeline: Seq<char>, partition: u16) -> Seq<
    char,
> {
    below(below(root, pipeline), "p"@ + five_digits(partition as nat))
}

fn join_path(base: &str, path: &str) -> (r: String)
    ensures
        r@ == below(base@, path@),
{
    proof {
        reveal_strlit("/");
    }
    let start = chars_of(path);
    if start.len() > 0 && start[0] == '/' {
        return path.to_owned();
    }
    let chars = chars_of(base);
    if chars.len() == 0 || chars[chars.len() - 1] == '/' {
        join2(base, path)
    } else {
        join3(base, "/", path)
    }
}

/// The text of a request that does not fit the transfers in progress.
pub open spec fn misplaced(what: Seq<char>, pipeline: Seq<char>, partition: u16) -> Seq<char> {
    what + pipeline + " partition="@ + decimal(partition as nat)
}

fn misplaced_error(what: &str, pipeline: &str, partition: u16) -> (r: AeonError)
    ensures
        r is State,
        r.text() == misplaced(what@, pipeline@, partition),
{
    let mut message = join2(what, pipeline);
    message.append(" partition=");
    push_u64(&mut message, partition as u64);
    AeonError::state(message)
}

impl<W> L2SegmentInstaller<W> {
    pub closed spec fn wf(&self) -> bool {
        self.writers.wf()
    }

    /// The writers of the transfers in progress.
    pub closed spec fn in_progress(&self) -> Map<(Seq<char>, u16), W> {
        self.writers@
    }

    /// The directory below which all partitions are kept.
    pub closed spec fn root_dir(&self) -> Seq<char> {
        self.root@
    }

    /// The pipeline whose partitions are received.
    pub closed spec fn pipeline_name(&self) -> Seq<char> {
        self.pipeline@
    }

    pub fn new(root: String, pipeline: String) -> (r: Self)
        ensures
            r.wf(),
            r.root_dir() == root@,
            r.pipeline_name() == pipeline@,
            r.in_progress() == Map::<(Seq<char>, u16), W>::empty(),
    {
        L2SegmentInstaller { root, pipeline, writers: PartitionMap::new() }
    }

    /// The directory below which all partitions are kept.
    pub fn root(&self) -> (r: &str)
        ensures
            r@ == self.root_dir(),
    {
        self.root.as_str()
    }

    /// The directory of a partition.
    pub fn partition_dir(&self, partition: u16) -> (r: String)
        ensures
            r@ == partition_dir_of(self.root_dir(), self.pipeline_name(), partition),
    {
        let mut out = "p".to_owned();
        let n: u64 = partition as u64;
        let ghost base = out@;
        push_u64(&mut out, n / 10000 % 10);
        push_u64(&mut out, n / 1000 % 10);
        push_u64(&mut out, n / 100 % 10);
        push_u64(&mut out, n / 10 % 10);
        push_u64(&mut out, n % 10);
        assert(out@ =~= base + five_digits(n as nat));
        let pipeline_dir = join_path(self.root.as_str(), self.pipeline.as_str());
        join_path(pipeline_dir.as_str(), out.as_str())
    }

    /// Begins a transfer with a writer that has been opened for it. One transfer at a time is in
    /// progress for each partition.
    pub fn begin(&mut self, pipeline: &str, partition: u16, writer: W) -> (r: Result<
        (),
        AeonError,
    >)
        requires
            old(self).wf(),
        ensures
            final(self).wf(),
            final(self).root_dir() == old(self).root_dir(),
            final(self).pipeline_name() == old(self).pipeline_name(),
            if old(self).in_progress().contains_key((pipeline@, partition)) {
                &&& r is Err
                &&& r->Err_0 is State
                &&& r->Err_0.text() == misplaced(
                    "l2-installer: begin called twice for pipeline="@,
                    pipeline@,
                    partition,
                )
                &&& final(self).in_progress() == old(self).in_progress()
            } else {
                &&& r is Ok
                &&& final(self).in_progress() == old(self).in_progress().insert(
                    (pipeline@, partition),
                    writer,
                )
            },
    {
        if self.writers.contains(pipeline, partition) {
            return Err(
                misplaced_error(
                    "l2-installer: begin called twice for pipeline=",
                    pipeline,
                    partition,
                ),
            );
        }
        self.writers.insert(pipeline, partition, writer);
        Ok(())
    }

    /// Hands out the writer that the next chunk of a transfer goes to.
    pub fn apply_chunk(&mut self, pipeline: &str, partition: u16) -> (r: Result<&mut W, AeonError>)
        requires
            old(self).wf(),
        ensures
            match r {
                Ok(w) => old(self).in_progress().contains_key((pipeline@, partition)) && *w == old(
                    self,
                ).in_progress()[(pipeline@, partition)] && final(self).wf()
                    && final(self).in_progress() == old(self).in_progress().insert(
                    (pipeline@, partition),
                    *final(w),
                ) && final(self).root_dir() == old(self).root_dir() && final(self).pipeline_name()
                    == old(self).pipeline_name(),
                Err(e) => !old(self).in_progress().contains_key((pipeline@, partition)) && e
                    is State && e.text() == misplaced(
                    "l2-installer: apply_chunk without begin for pipeline="@,
                    pipeline@,
                    partition,
                ) && *final(self) == *old(self),
            },
    {
        match self.writers.get_mut(pipeline, partition) {
            Some(w) => Ok(w),
            None => Err(
                misplaced_error(
                    "l2-installer: apply_chunk without begin for pipeline=",
                    pipeline,
                    partition,
                ),
            ),
        }
    }

    /// Ends a transfer, whether it succeeded or not. A new one can then begin.
    pub fn finish(&mut self, pipeline: &str, partition: u16, success: bool) -> (r: Result<
        FinishStep<W>,
        AeonError,
    >)
        requires
            old(self).wf(),
        ensures
            final(self).wf(),
            final(self).root_dir() == old(self).root_dir(),
            final(self).pipeline_name() == old(self).pipeline_name(),
            final(self).in_progress() == old(self).in_progress().remove((pipeline@, partition)),
            if old(self).in_progress().contains_key((pipeline@, partition)) {
                let w = old(self).in_progress()[(pipeline@, partition)];
                r == Ok::<FinishStep<W>, AeonError>(
                    if success {
                        FinishStep::Commit(w)
                    } else {
                        FinishStep::Discard(w)
                    },
                )
            } else {
                &&& r is Err
                &&& r->Err_0 is State
                &&& r->Err_0.text() == misplaced(
                    "l2-installer: finish without begin for pipeline="@,
                    pipeline@,
                    partition,
                )
            },
    {
        match self.writers.remove(pipeline, partition) {
            Some(w) => if success {
                Ok(FinishStep::Commit(w))
            } else {
                Ok(FinishStep::Discard(w))
            },
            None => Err(
                misplaced_error(
                    "l2-installer: finish without begin for pipeline=",
                    pipeline,
                    partition,
                ),
            ),
        }
    }
}

/// Chains that came with partitions and wait for their pipelines to start.
pub struct InstalledPohChainRegistry<C> {
    chains: PartitionMap<C>,
}

impl<C> InstalledPohChainRegistry<C> {
    pub closed spec fn wf(&self) -> bool {
        self.chains.wf()
    }

    /// The chains that wait.
    pub closed spec fn waiting(&self) -> Map<(Seq<char>, u16), C> {
        self.chains@
    }

    pub fn new() -> (r: Self)
        ensures
            r.wf(),
            r.waiting() == Map::<(Seq<char>, u16), C>::empty(),
    {
        InstalledPohChainRegistry { chains: PartitionMap::new() }
    }

    /// Takes the chain of a partition. It is then no longer here.
    pub fn take(&mut self, pipeline: &str, partition: u16) -> (r: Option<C>)
        requires
            old(self).wf(),
        ensures
            final(self).wf(),
            final(self).waiting() == old(self).waiting().remove((pipeline@, partition)),
            r == (if old(self).waiting().contains_key((pipeline@, partition)) {
                Some(old(self).waiting()[(pipeline@, partition)])
            } else {
                None
            }),
    {
        self.chains.remove(pipeline, partition)
    }

    fn insert(&mut self, pipeline: &str, partition: u16, chain: C)
        requires
            old(self).wf(),
        ensures
            final(self).wf(),
            final(self).waiting() == old(self).waiting().insert((pipeline@, partition), chain),
    {
        self.chains.insert(pipeline, partition, chain);
    }
}

/// How far a chain that came with a partition is trusted.
#[derive(Debug, Clone, Copy, PartialEq, Eq, Structural)]
pub enum PohVerifyMode {
    /// It is taken as it is.
    TrustExtend,
    /// Its structure is verified.
    Verify,
    /// As `Verify`: a transferred chain carries no signed entries to check.
    VerifyWithKey,
}

/// Installs chains that come with partitions.
pub struct PohChainInstallerImpl {
    pub verify_mode: PohVerifyMode,
    /// How many entries a chain keeps at hand.
    pub max_recent: usize,
}

impl PohChainInstallerImpl {
    pub fn new(verify_mode: PohVerifyMode) -> (r: Self)
        ensures
            r.verify_mode == verify_mode,
            r.max_recent == 1024,
    {
        PohChainInstallerImpl { verify_mode, max_recent: 1024 }
    }

    pub fn with_max_recent(self, max_recent: usize) -> (r: Self)
        ensures
            r == (PohChainInstallerImpl { max_recent, ..self }),
    {
        PohChainInstallerImpl { verify_mode: self.verify_mode, max_recent }
    }

    /// Whether a chain is verified before it is installed.
    pub open spec fn verifies(&self) -> bool {
        self.verify_mode != PohVerifyMode::TrustExtend
    }

    /// Installs the chain of a partition. `decoded` is the chain that `state_bytes` hold, or why
    /// they hold none; `verified` is the verdict on it against the partition of the request. No
    /// bytes mean a partition without a chain: there is nothing to install. The chain is kept
    /// under the partition of the request.
    pub fn install<C>(
        &self,
        registry: &mut InstalledPohChainRegistry<C>,
        pipeline: &str,
        partition: u16,
        state_bytes: &Vec<u8>,
        decoded: Result<C, String>,
        verified: Result<(), String>,
    ) -> (r: Result<(), AeonError>)
        requires
            old(registry).wf(),
        ensures
            final(registry).wf(),
            if state_bytes@.len() == 0 {
                r is Ok && final(registry).waiting() == old(registry).waiting()
            } else if decoded is Err {
                &&& r is Err
                &&& r->Err_0 is State
                &&& r->Err_0.text() == "poh-installer: decode PohChainState: "@
                    + decoded->Err_0@
                &&& final(registry).waiting() == old(registry).waiting()
            } else if self.verifies() && verified is Err {
                &&& r is Err
                &&& r->Err_0 is State
                &&& r->Err_0.text() == "poh-installer: verify_state: "@ + verified->Err_0@
                &&& final(registry).waiting() == old(registry).waiting()
            } else {
                &&& r is Ok
                &&& final(registry).waiting() == old(registry).waiting().insert(
                    (pipeline@, partition),
                    decoded->Ok_0,
                )
            },
    {
        if state_bytes.len() == 0 {
            return Ok(());
        }
        let chain = match decoded {
            Ok(chain) => chain,
            Err(e) => {
                return Err(
                    AeonError::state(join2("poh-installer: decode PohChainState: ", e.as_str())),
                );
            },
        };
        match self.verify_mode {
            PohVerifyMode::TrustExtend => {},
            _ => {
                if let Err(e) = verified {
                    return Err(
                        AeonError::state(join2("poh-installer: verify_state: ", e.as_str())),
                    );
                }
            },
        }
        registry.insert(pipeline, partition, chain);
        Ok(())
    }
}

/// How the chain of a pipeline begins.
pub enum ChainStart<C> {
    /// With the chain that came with the partition.
    Resume(C),
    /// Anew.
    Genesis { partition: u16, max_recent_entries: usize },
}

/// Decides how the chain of a pipeline begins: it goes on from the one that came with the
/// pipeline's partition, which is taken, and otherwise begins anew. A pipeline without proof of
/// history has none.
pub fn create_poh_state<C>(
    config: &PipelineConfig,
    installed: Option<&mut InstalledPohChainRegistry<C>>,
) -> (r: Option<ChainStart<C>>)
    requires
        installed is Some ==> old(installed->0).wf(),
    ensures
        installed is Some ==> {
            let key = (config.pipeline_name@, config.partition_id);
            let before = old(installed->0).waiting();
            &&& final(installed->0).wf()
            &&& final(installed->0).waiting() == (if config.poh is Some {
                before.remove(key)
            } else {
                before
            })
            &&& (config.poh is Some && before.contains_key(key) ==> r == Some(
                ChainStart::Resume(before[key]),
            ))
        },
        config.poh is None ==> r is None,
        config.poh is Some && (installed is None || !old(installed->0).waiting().contains_key(
            (config.pipeline_name@, config.partition_id),
        )) ==> r == Some(
            ChainStart::<C>::Genesis {
                partition: config.poh->0.partition,
                max_recent_entries: config.poh->0.max_recent_entries,
            },
        ),
{
    match &config.poh {
        None => None,
        Some(poh) => {
            if let Some(registry) = installed {
                if let Some(chain) = registry.take(
                    config.pipeline_name.as_str(),
                    config.partition_id,
                ) {
                    return Some(ChainStart::Resume(chain));
                }
            }
            Some(
                ChainStart::Genesis {
                    partition: poh.partition,
                    max_recent_entries: poh.max_recent_entries,
                },
            )
        },
    }
}

/// The payloads that a batch adds to the chain, in order. An empty batch adds nothing.
pub fn poh_append_batch(outputs: &Vec<Output>) -> (r: Option<Vec<&Vec<u8>>>)
    ensures
        r is None == (outputs@.len() == 0),
        r is Some ==> {
            &&& r->0@.len() == outputs@.len()
            &&& forall|i: int|
                0 <= i < outputs@.len() ==> *(#[trigger] r->0@[i]) == outputs@[i].payload
        },
{
    if outputs.len() == 0 {
        return None;
    }
    let mut payloads: Vec<&Vec<u8>> = Vec::new();
    let mut i: usize = 0;
    while i < outputs.len()
        invariant
            i <= outputs@.len(),
            payloads@.len() == i,
            forall|j: int| 0 <= j < i ==> *(#[trigger] payloads@[j]) == outputs@[j].payload,
        decreases outputs@.len() - i,
    {
        payloads.push(&outputs[i].payload);
        i += 1;
    }
    Some(payloads)
}

/// Counts an entry of the chain, where the chain has taken one.
pub fn poh_appended(appended: bool, metrics: &mut PipelineMetrics)
    ensures
        *final(metrics) == (PipelineMetrics {
            poh_entries: (if appended {
                old(metrics).poh_entries.wrapping_add(1)
            } else {
                old(metrics).poh_entries
            }),
            ..*old(metrics)
        }),
{
    if appended {
        metrics.poh_entries = metrics.poh_entries.wrapping_add(1);
    }
}

/// A transfer that has ended leaves no trace, so that another one can begin.
pub proof fn law_transfer_can_be_repeated<W>(
    before: Map<(Seq<char>, u16), W>,
    key: (Seq<char>, u16),
    writer: W,
)
    requires
        !before.contains_key(key),
    ensures
        before.insert(key, writer).remove(key) == before,
{
    assert(before.insert(key, writer).remove(key) =~= before);
}

/// A path is put below another with one slash between them, which is left out where there is
/// nothing above, or where a slash stands there already. A path from the root stays as it is.
pub proof fn law_a_path_is_put_below(base: Seq<char>, path: Seq<char>)
    ensures
        ({
            let r = below(base, path);
            let slash: int = if base.len() == 0 || base.last() == '/' {
                0
            } else {
                1
            };
            if path.len() > 0 && path[0] == '/' {
                r == path
            } else {
                &&& r.len() == base.len() + slash + path.len()
                &&& r.take(base.len() as int) == base
                &&& r.skip(r.len() - path.len()) == path
                &&& slash == 1 ==> r[base.len() as int] == '/'
            }
        }),
{
    reveal_strlit("/");
    let r = below(base, path);
    if !(path.len() > 0 && path[0] == '/') {
        assert(r.take(base.len() as int) =~= base);
        assert(r.skip(r.len() - path.len()) =~= path);
    }
}

/// The directory of a partition stands below the pipeline's, and its name is a `p` and five digits
/// that denote the partition: no two partitions of a pipeline share one.
pub proof fn law_each_partition_has_its_directory(
    root: Seq<char>,
    pipeline: Seq<char>,
    partition: u16,
    other: u16,
)
    ensures
        ({
            let dir = partition_dir_of(root, pipeline, partition);
            &&& dir.len() >= 6
            &&& dir[dir.len() - 6] == 'p'
            &&& forall|i: int| dir.len() - 5 <= i < dir.len() ==> '0' <= #[trigger] dir[i] <= '9'
            &&& number(dir.skip(dir.len() - 5)) == partition
            &&& dir.take(below(root, pipeline).len() as int) == below(root, pipeline)
            &&& dir.len() <= below(root, pipeline).len() + 7
        }),
        partition_dir_of(root, pipeline, partition) == partition_dir_of(root, pipeline, other)
            ==> partition == other,
{
    lemma_directory(root, pipeline, partition);
    lemma_directory(root, pipeline, other);
}

proof fn lemma_directory(root: Seq<char>, pipeline: Seq<char>, partition: u16)
    ensures
        ({
            let dir = partition_dir_of(root, pipeline, partition);
            &&& dir.len() >= 6
            &&& dir[dir.len() - 6] == 'p'
            &&& forall|i: int| dir.len() - 5 <= i < dir.len() ==> '0' <= #[trigger] dir[i] <= '9'
            &&& number(dir.skip(dir.len() - 5)) == partition
            &&& dir.take(below(root, pipeline).len() as int) == below(root, pipeline)
            &&& dir.len() <= below(root, pipeline).len() + 7
        }),
{
    reveal_strlit("p");
    let base = below(root, pipeline);
    let n = partition as nat;
    let path = "p"@ + five_digits(n);
    let dir = partition_dir_of(root, pipeline, partition);
    law_a_path_is_put_below(base, path);
    assert(path[0] == 'p');
    assert(dir.skip(dir.len() - 6) == path);
    let five = five_digits(n);
    assert(dir.skip(dir.len() - 5) =~= five) by {
        assert forall|i: int| 0 <= i < 5 implies dir.skip(dir.len() - 5)[i] == five[i] by {
            assert(dir.skip(dir.len() - 6)[i + 1] == path[i + 1]);
        }
    }
    assert(dir.skip(dir.len() - 6)[0] == path[0]);
    assert forall|i: int| dir.len() - 5 <= i < dir.len() implies '0' <= #[trigger] dir[i] <= '9' by {
        assert(dir[i] == dir.skip(dir.len() - 5)[i - (dir.len() - 5)]);
    }
    let s1 = Seq::<char>::empty().push(digit(n / 10000 % 10));
    let s2 = s1.push(digit(n / 1000 % 10));
    let s3 = s2.push(digit(n / 100 % 10));
    let s4 = s3.push(digit(n / 10 % 10));
    law_a_digit_counts_for_its_place(Seq::<char>::empty(), n / 10000 % 10);
    law_a_digit_counts_for_its_place(s1, n / 1000 % 10);
    law_a_digit_counts_for_its_place(s2, n / 100 % 10);
    law_a_digit_counts_for_its_place(s3, n / 10 % 10);
    law_a_digit_counts_for_its_place(s4, n % 10);
    assert(five =~= s4.push(digit(n % 10)));
    assert(number(Seq::<char>::empty()) == 0);
}

/// A request that does not fit the transfers is answered with what was asked, the pipeline and the
/// partition.
pub proof fn law_a_misplaced_request_is_named(
    what: Seq<char>,
    a: Seq<char>,
    b: Seq<char>,
    p: u16,
    q: u16,
)
    requires
        misplaced(what, a, p) == misplaced(what, b, q),
        a.len() == b.len(),
    ensures
        a == b,
        p == q,
{
    let x = misplaced(what, a, p);
    let y = misplaced(what, b, q);
    let mark = " partition="@;
    let from = what.len() + a.len() + mark.len();
    assert(a =~= x.subrange(what.len() as int, (what.len() + a.len()) as int));
    assert(b =~= y.subrange(what.len() as int, (what.len() + b.len()) as int));
    assert(decimal(p as nat) =~= x.skip(from as int));
    assert(decimal(q as nat) =~= y.skip(from as int));
    law_a_number_is_read_back(p as nat);
    law_a_number_is_read_back(q as nat);
}

/// Only a chain that is taken on trust goes unverified.
pub proof fn law_all_but_trusted_chains_are_verified(installer: PohChainInstallerImpl)
    ensures
        installer.verify_mode is Verify || installer.verify_mode is VerifyWithKey
            <==> installer.verifies(),
        installer.verify_mode is TrustExtend ==> !installer.verifies(),
{
}

} // verus!
