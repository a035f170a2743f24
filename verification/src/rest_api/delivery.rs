//! Requests that look into running pipelines: deliveries, integrity and live figures.
use vstd::prelude::*;

use crate::digest::{hex_encode, hex_text};
use crate::ids::{hyphenated, id_text, parse_id, parsed_id};
use crate::pipeline::metrics::PipelineMetrics;
use crate::pipeline_manager::PipelineManager;
use crate::rest_api::reply::{is_error, Body, Reply};
use crate::text::{join3, same_text};

verus! {

/// The refusal of a pipeline whose deliveries are not followed.
pub open spec fn no_ledger(name: Seq<char>) -> Seq<char> {
    "no delivery ledger for pipeline '"@ + name + "'"@
}

fn without_ledger(name: &str) -> (r: Reply)
    ensures
        is_error(r, 404, no_ledger(name@)),
{
    Reply::error(404, join3("no delivery ledger for pipeline '", name, "'"))
}

/// An event whose delivery failed.
#[derive(Debug)]
pub struct FailedEntry {
    pub event_id: u128,
    pub partition: u16,
    pub source_offset: i64,
    pub reason: String,
    pub attempts: u32,
}

/// What a ledger says of the deliveries of a pipeline.
#[derive(Debug)]
pub struct LedgerReading {
    pub pending_count: usize,
    pub failed_count: usize,
    pub total_tracked: u64,
    pub total_acked: u64,
    pub total_failed: u64,
    pub oldest_pending_age_ms: Option<u64>,
    pub failed: Vec<FailedEntry>,
}

/// A failed event in a report, with its id as text.
#[derive(Debug)]
pub struct FailedReport {
    pub event_id: String,
    pub partition: u16,
    pub source_offset: i64,
    pub reason: String,
    pub attempts: u32,
}

/// A report on the deliveries of a pipeline.
#[derive(Debug)]
pub struct DeliveryReport {
    pub pipeline: String,
    pub pending_count: usize,
    pub failed_count: usize,
    pub total_tracked: u64,
    pub total_acked: u64,
    pub total_failed: u64,
    pub oldest_pending_age_ms: Option<u64>,
    pub failed_entries: Vec<FailedReport>,
}

/// Whether a report stands for a failed event.
pub open spec fn reports(report: FailedReport, entry: FailedEntry) -> bool {
    &&& report.event_id@ == hyphenated(entry.event_id)
    &&& report.partition == entry.partition
    &&& report.source_offset == entry.source_offset
    &&& report.reason == entry.reason
    &&& report.attempts == entry.attempts
}

/// Reports on the deliveries of a pipeline, where they are followed.
pub fn delivery_status(name: &str, ledger: Option<LedgerReading>) -> (r: Result<
    DeliveryReport,
    Reply,
>)
    ensures
        match ledger {
            None => r is Err && is_error(r->Err_0, 404, no_ledger(name@)),
            Some(l) => {
                &&& r is Ok
                &&& r->Ok_0.pipeline@ == name@
                &&& r->Ok_0.pending_count == l.pending_count
                &&& r->Ok_0.failed_count == l.failed_count
                &&& r->Ok_0.total_tracked == l.total_tracked
                &&& r->Ok_0.total_acked == l.total_acked
                &&& r->Ok_0.total_failed == l.total_failed
                &&& r->Ok_0.oldest_pending_age_ms == l.oldest_pending_age_ms
                &&& r->Ok_0.failed_entries@.len() == l.failed@.len()
                &&& forall|i: int|
                    #![trigger r->Ok_0.failed_entries@[i]]
                    0 <= i < l.failed@.len() ==> reports(
                        r->Ok_0.failed_entries@[i],
                        l.failed@[i],
                    )
            },
        },
{
    let l = match ledger {
        Some(l) => l,
        None => {
            return Err(without_ledger(name));
        },
    };
    let ghost all = l.failed@;
    let mut failed_entries: Vec<FailedReport> = Vec::new();
    for entry in it: l.failed.into_iter()
        invariant
            it.seq() == all,
            failed_entries@.len() == it.index(),
            forall|i: int|
                #![trigger failed_entries@[i]]
                0 <= i < failed_entries@.len() ==> reports(failed_entries@[i], all[i]),
    {
        failed_entries.push(
            FailedReport {
                event_id: id_text(entry.event_id),
                partition: entry.partition,
                source_offset: entry.source_offset,
                reason: entry.reason,
                attempts: entry.attempts,
            },
        );
    }
    Ok(
        DeliveryReport {
            pipeline: name.to_owned(),
            pending_count: l.pending_count,
            failed_count: l.failed_count,
            total_tracked: l.total_tracked,
            total_acked: l.total_acked,
            total_failed: l.total_failed,
            oldest_pending_age_ms: l.oldest_pending_age_ms,
            failed_entries,
        },
    )
}

/// The ids that some texts denote, in order, without those that denote none.
pub open spec fn ids_of(texts: Seq<String>) -> Seq<u128>
    decreases texts.len(),
{
    if texts.len() == 0 {
        seq![]
    } else {
        let front = ids_of(texts.drop_last());
        match parsed_id(texts.last()@) {
            Some(id) => front.push(id),
            None => front,
        }
    }
}

/// Failed events that are to be marked for another attempt, one after the other.
pub struct DeliveryRetry {
    ids: Vec<u128>,
    at: usize,
    requested: usize,
    retried: u64,
}

impl DeliveryRetry {
    pub closed spec fn wf(&self) -> bool {
        &&& self.at <= self.ids@.len() <= self.requested
        &&& self.retried <= self.at
    }

    /// The events, as far as they were named by an id.
    pub closed spec fn events(&self) -> Seq<u128> {
        self.ids@
    }

    /// How many of the events have been looked for.
    pub closed spec fn done(&self) -> nat {
        self.at as nat
    }

    /// How many of them were found.
    pub closed spec fn found(&self) -> nat {
        self.retried as nat
    }

    /// How many texts the request held.
    pub closed spec fn asked(&self) -> nat {
        self.requested as nat
    }

    /// Begins with the texts of a request, where the deliveries of the pipeline are followed.
    pub fn begin(name: &str, has_ledger: bool, event_ids: &Vec<String>) -> (r: Result<Self, Reply>)
        ensures
            if has_ledger {
                &&& r is Ok
                &&& r->Ok_0.wf()
                &&& r->Ok_0.events() == ids_of(event_ids@)
                &&& r->Ok_0.done() == 0
                &&& r->Ok_0.found() == 0
                &&& r->Ok_0.asked() == event_ids@.len()
            } else {
                r is Err && is_error(r->Err_0, 404, no_ledger(name@))
            },
    {
        if !has_ledger {
            return Err(without_ledger(name));
        }
        let mut ids: Vec<u128> = Vec::new();
        let mut i: usize = 0;
        assert(event_ids@.take(0) =~= seq![]);
        while i < event_ids.len()
            invariant
                i <= event_ids@.len(),
                ids@ == ids_of(event_ids@.take(i as int)),
                ids@.len() <= i,
            decreases event_ids@.len() - i,
        {
            proof {
                assert(event_ids@.take(i + 1).drop_last() =~= event_ids@.take(i as int));
                assert(event_ids@.take(i + 1).last() == event_ids@[i as int]);
            }
            if let Some(id) = parse_id(event_ids[i].as_str()) {
                ids.push(id);
            }
            i += 1;
        }
        assert(event_ids@.take(event_ids@.len() as int) =~= event_ids@);
        Ok(DeliveryRetry { ids, at: 0, requested: event_ids.len(), retried: 0 })
    }

    /// The next event to look for.
    pub fn next(&self) -> (r: Option<u128>)
        requires
            self.wf(),
        ensures
            match r {
                Some(id) => self.done() < self.events().len() && id
                    == self.events()[self.done() as int],
                None => self.done() == self.events().len(),
            },
    {
        if self.at < self.ids.len() {
            Some(self.ids[self.at])
        } else {
            None
        }
    }

    /// Takes whether the ledger held the event.
    pub fn looked(&mut self, found: bool)
        requires
            old(self).wf(),
            old(self).done() < old(self).events().len(),
        ensures
            final(self).wf(),
            final(self).events() == old(self).events(),
            final(self).asked() == old(self).asked(),
            final(self).done() == old(self).done() + 1,
            final(self).found() == old(self).found() + if found {
                1nat
            } else {
                0nat
            },
    {
        self.at = self.at + 1;
        if found {
            self.retried = self.retried + 1;
        }
    }

    /// Answers the request: every text counts once, as found or as not found.
    pub fn finish(self) -> (r: Reply)
        requires
            self.wf(),
            self.done() == self.events().len(),
        ensures
            r == (Reply {
                status: 200,
                leader: None,
                body: Body::Retried {
                    retried: self.found() as u64,
                    not_found: (self.asked() - self.found()) as u64,
                },
            }),
            self.found() <= self.asked(),
    {
        let not_found = self.requested as u64 - self.retried;
        Reply::new(200, Body::Retried { retried: self.retried, not_found })
    }
}

/// What a proof-of-history chain says of itself.
pub struct ChainReading {
    pub partition: u16,
    pub sequence: u64,
    pub current_hash: Vec<u8>,
    pub mmr_root: Vec<u8>,
    pub recent_entries: usize,
    /// The first of the recent entries that does not fit, if there is one.
    pub invalid_at: Option<usize>,
    /// Whether any of the recent entries is signed.
    pub any_signed: bool,
}

/// A report on a chain.
#[derive(Debug)]
pub struct ChainReport {
    pub partition: u16,
    pub sequence: u64,
    pub current_hash: String,
    pub mmr_root: String,
    pub recent_entries: usize,
    pub verification: &'static str,
    pub invalid_at_index: Option<usize>,
    pub signing: &'static str,
}

/// One pipeline in a report on all.
#[derive(Debug)]
pub struct PipelineIntegrity {
    pub name: String,
    pub state: &'static str,
    pub poh_active: bool,
}

/// What is reported of the integrity of a pipeline.
#[derive(Debug)]
pub enum IntegrityReport {
    /// The pipeline has a chain.
    Active(ChainReport),
    /// The pipeline has none.
    Inactive,
    /// All pipelines.
    All(Vec<PipelineIntegrity>),
}

/// Whether a report stands for a chain.
pub open spec fn chain_reported(report: ChainReport, chain: ChainReading) -> bool {
    &&& report.partition == chain.partition
    &&& report.sequence == chain.sequence
    &&& report.current_hash@ == hex_text(chain.current_hash@)
    &&& report.mmr_root@ == hex_text(chain.mmr_root@)
    &&& report.recent_entries == chain.recent_entries
    &&& report.invalid_at_index == chain.invalid_at
    &&& report.verification@ == if chain.invalid_at is None {
        "valid"@
    } else {
        "invalid"@
    }
    &&& report.signing@ == if chain.any_signed {
        "active"@
    } else {
        "available"@
    }
}

fn report_chain(chain: ChainReading) -> (r: ChainReport)
    ensures
        chain_reported(r, chain),
{
    ChainReport {
        partition: chain.partition,
        sequence: chain.sequence,
        current_hash: hex_encode(chain.current_hash.as_slice()),
        mmr_root: hex_encode(chain.mmr_root.as_slice()),
        recent_entries: chain.recent_entries,
        verification: if chain.invalid_at.is_none() {
            "valid"
        } else {
            "invalid"
        },
        invalid_at_index: chain.invalid_at,
        signing: if chain.any_signed {
            "active"
        } else {
            "available"
        },
    }
}

/// Reports on the integrity of a pipeline, or of all pipelines where that is asked for and no
/// pipeline has that name. `chain` is the pipeline's chain, `chained` says of each pipeline, in the
/// order of their names, whether it has a chain.
pub fn verify_pipeline(
    manager: &PipelineManager,
    name: &str,
    chain: Option<ChainReading>,
    chained: &Vec<bool>,
) -> (r: Result<IntegrityReport, Reply>)
    requires
        manager.wf(),
        chained@.len() == manager.names_in_order().len(),
    ensures
        if manager.definitions().contains_key(name@) {
            match chain {
                Some(c) => r is Ok && r->Ok_0 is Active && chain_reported(r->Ok_0->Active_0, c),
                None => r is Ok && r->Ok_0 is Inactive,
            }
        } else if name@ == "all"@ {
            &&& r is Ok
            &&& r->Ok_0 is All
            &&& r->Ok_0->All_0@.len() == manager.names_in_order().len()
            &&& forall|i: int|
                #![trigger r->Ok_0->All_0@[i]]
                0 <= i < manager.names_in_order().len() ==> {
                    let item = r->Ok_0->All_0@[i];
                    item.name@ == manager.names_in_order()[i] && item.poh_active == chained@[i]
                        && manager.definitions().contains_key(item.name@) && item.state@
                        == manager.definitions()[item.name@].state.text()
                }
        } else {
            r is Err && is_error(r->Err_0, 404, "pipeline '"@ + name@ + "' not found"@)
        },
{
    if let Some(_) = manager.get(name) {
        return match chain {
            Some(c) => Ok(IntegrityReport::Active(report_chain(c))),
            None => Ok(IntegrityReport::Inactive),
        };
    }
    if !same_text(name, "all") {
        return Err(Reply::error(404, join3("pipeline '", name, "' not found")));
    }
    let listed = manager.list_with_state();
    let ghost all = listed@;
    let mut items: Vec<PipelineIntegrity> = Vec::new();
    for entry in it: listed.into_iter()
        invariant
            it.seq() == all,
            all.len() == manager.names_in_order().len(),
            chained@.len() == all.len(),
            forall|i: int|
                0 <= i < all.len() ==> (#[trigger] all[i]).0@ == manager.names_in_order()[i]
                    && manager.definitions().contains_key(all[i].0@) && all[i].1
                    == manager.definitions()[all[i].0@].state,
            items@.len() == it.index(),
            forall|i: int|
                #![trigger items@[i]]
                0 <= i < items@.len() ==> items@[i].name@ == all[i].0@ && items@[i].poh_active
                    == chained@[i] && items@[i].state@ == all[i].1.text(),
    {
        let poh_active = chained[items.len()];
        items.push(PipelineIntegrity { name: entry.0, state: entry.1.as_text(), poh_active });
    }
    Ok(IntegrityReport::All(items))
}

/// One frame of a pipeline's live figures.
#[derive(Debug)]
pub struct TailFrame {
    pub pipeline: String,
    pub state: String,
    /// The figures; none where the pipeline does not run.
    pub metrics: Option<PipelineMetrics>,
    pub timestamp: i64,
}

/// Makes a frame of a pipeline's live figures.
pub fn tail_frame(
    manager: &PipelineManager,
    name: &str,
    metrics: Option<PipelineMetrics>,
    now: i64,
) -> (r: TailFrame)
    requires
        manager.wf(),
    ensures
        r.pipeline@ == name@,
        r.state@ == if manager.definitions().contains_key(name@) {
            manager.definitions()[name@].state.text()
        } else {
            "unknown"@
        },
        r.metrics == metrics,
        r.timestamp == now,
{
    let state = match manager.get(name) {
        Some(d) => d.state.as_text(),
        None => "unknown",
    };
    TailFrame { pipeline: name.to_owned(), state: state.to_owned(), metrics, timestamp: now }
}

/// The report on a failed event tells all that the ledger knows of it.
pub proof fn law_a_failed_event_is_reported(report: FailedReport, entry: FailedEntry)
    requires
        reports(report, entry),
    ensures
        report.event_id@ == hyphenated(entry.event_id),
        report.partition == entry.partition,
        report.source_offset == entry.source_offset,
        report.reason@ == entry.reason@,
        report.attempts == entry.attempts,
{
}

/// Of the texts of a request, each that denotes an id stands for it, in order; the others are
/// passed over.
pub proof fn law_ids_are_taken_in_order(a: Seq<String>, b: Seq<String>, one: String)
    ensures
        ids_of(Seq::empty()) == Seq::<u128>::empty(),
        parsed_id(one@) matches Some(id) ==> ids_of(seq![one]) == seq![id],
        parsed_id(one@) is None ==> ids_of(seq![one]) == Seq::<u128>::empty(),
        ids_of(a + b) == ids_of(a) + ids_of(b),
    decreases b.len(),
{
    let single = seq![one];
    assert(single.drop_last() =~= Seq::<String>::empty());
    assert(single.last() == one);
    assert(ids_of(single.drop_last()) =~= Seq::<u128>::empty());
    if parsed_id(one@) is Some {
        assert(ids_of(single) =~= seq![parsed_id(one@)->0]);
    }
    if b.len() == 0 {
        assert(a + b =~= a);
        assert(ids_of(a) + ids_of(b) =~= ids_of(a));
    } else {
        assert((a + b).drop_last() =~= a + b.drop_last());
        assert((a + b).last() == b.last());
        law_ids_are_taken_in_order(a, b.drop_last(), one);
        assert(ids_of(a + b) =~= ids_of(a) + ids_of(b));
    }
}

/// The report on a chain calls it valid exactly where no entry is out of place, names the first
/// that is, and tells whether entries are signed.
pub proof fn law_a_chain_is_reported(report: ChainReport, chain: ChainReading)
    requires
        chain_reported(report, chain),
    ensures
        report.partition == chain.partition,
        report.sequence == chain.sequence,
        report.current_hash@ == hex_text(chain.current_hash@),
        report.mmr_root@ == hex_text(chain.mmr_root@),
        report.recent_entries == chain.recent_entries,
        report.invalid_at_index == chain.invalid_at,
        report.verification@ == "valid"@ <==> chain.invalid_at is None,
        report.verification@ == "invalid"@ <==> chain.invalid_at is Some,
        report.signing@ == "active"@ <==> chain.any_signed,
        report.signing@ == "available"@ <==> !chain.any_signed,
{
    reveal_strlit("valid");
    reveal_strlit("invalid");
    reveal_strlit("active");
    reveal_strlit("available");
    assert("valid"@.len() == 5 && "invalid"@.len() == 7);
    assert("active"@.len() == 6 && "available"@.len() == 9);
}

/// The refusal names the pipeline whose deliveries are not followed.
pub proof fn law_a_pipeline_without_a_ledger_is_named(name: Seq<char>)
    ensures
        no_ledger(name).len() == name.len() + 34,
        no_ledger(name).subrange(33, 33 + name.len() as int) == name,
{
    reveal_strlit("no delivery ledger for pipeline '");
    reveal_strlit("'");
    assert(no_ledger(name).subrange(33, 33 + name.len() as int) =~= name);
}

} // verus!
