//! Export of everything that a partition holds on a subject.
use vstd::prelude::*;
use vstd::string::StrSliceExecFns;

use crate::error::AeonError;
use crate::text::same_text;
use crate::types::Event;

verus! {

/// The metadata key that names an event's subjects.
pub open spec fn subject_key() -> Seq<char> {
    "aeon.subject_id"@
}

/// Where the first slash of a text stands; its length where it has none.
pub open spec fn first_slash(s: Seq<char>) -> nat
    decreases s.len(),
{
    if s.len() == 0 || s[0] == '/' {
        0
    } else {
        1 + first_slash(s.skip(1))
    }
}

/// The namespace and the name that a text denotes: what stands before its first slash and what
/// stands behind it, neither of them empty.
pub open spec fn split_subject(s: Seq<char>) -> Option<(Seq<char>, Seq<char>)> {
    let k = first_slash(s) as int;
    if 0 < k && k + 1 < s.len() {
        Some((s.take(k), s.skip(k + 1)))
    } else {
        None
    }
}

/// Someone whom events are about.
#[derive(Debug)]
pub struct SubjectId {
    pub namespace: String,
    pub id: String,
}

proof fn lemma_first_slash(s: Seq<char>, k: int)
    requires
        0 <= k <= s.len(),
        forall|j: int| 0 <= j < k ==> s[j] != '/',
        k < s.len() ==> s[k] == '/',
    ensures
        first_slash(s) == k,
    decreases s.len(),
{
    if k > 0 {
        assert(s[0] != '/');
        assert forall|j: int| 0 <= j < k - 1 implies s.skip(1)[j] != '/' by {
            assert(s.skip(1)[j] == s[j + 1]);
        }
        lemma_first_slash(s.skip(1), k - 1);
    }
}

fn split(text: &str) -> (r: Option<(&str, &str)>)
    ensures
        match r {
            Some((ns, id)) => split_subject(text@) == Some((ns@, id@)),
            None => split_subject(text@) is None,
        },
{
    let n = text.unicode_len();
    let mut k: usize = 0;
    while k < n && text.get_char(k) != '/'
        invariant
            k <= n,
            n == text@.len(),
            forall|j: int| 0 <= j < k ==> text@[j] != '/',
        decreases n - k,
    {
        k += 1;
    }
    proof {
        lemma_first_slash(text@, k as int);
    }
    if k == 0 || k >= n || k + 1 >= n {
        return None;
    }
    let ns = text.substring_char(0, k);
    let id = text.substring_char(k + 1, n);
    proof {
        assert(ns@ =~= text@.take(k as int));
        assert(id@ =~= text@.skip(k + 1));
    }
    Some((ns, id))
}

impl SubjectId {
    /// Parses a subject in the form `namespace/id`.
    pub fn parse(text: &str) -> (r: Option<Self>)
        ensures
            match r {
                Some(s) => split_subject(text@) == Some((s.namespace@, s.id@)),
                None => split_subject(text@) is None,
            },
    {
        match split(text) {
            Some((ns, id)) => Some(SubjectId { namespace: ns.to_owned(), id: id.to_owned() }),
            None => None,
        }
    }
}

/// Whose events are asked for.
#[derive(Debug)]
pub enum ErasureSelector {
    /// One subject.
    Subject { namespace: String, id: String },
    /// Every subject of a namespace.
    Namespace { namespace: String },
}

impl ErasureSelector {
    /// Whether a subject is selected.
    pub open spec fn covers(self, namespace: Seq<char>, id: Seq<char>) -> bool {
        match self {
            ErasureSelector::Subject { namespace: ns, id: one } => ns@ == namespace && one@ == id,
            ErasureSelector::Namespace { namespace: ns } => ns@ == namespace,
        }
    }

    /// Parses a selector: `namespace/id` for one subject, `namespace/*` for all of a namespace.
    pub fn parse(text: &str) -> (r: Option<Self>)
        ensures
            match split_subject(text@) {
                None => r is None,
                Some((ns, id)) => match r {
                    None => false,
                    Some(ErasureSelector::Namespace { namespace }) => id == "*"@ && namespace@
                        == ns,
                    Some(ErasureSelector::Subject { namespace, id: one }) => id != "*"@
                        && namespace@ == ns && one@ == id,
                },
            },
    {
        match split(text) {
            None => None,
            Some((ns, id)) => if same_text(id, "*") {
                Some(ErasureSelector::Namespace { namespace: ns.to_owned() })
            } else {
                Some(ErasureSelector::Subject { namespace: ns.to_owned(), id: id.to_owned() })
            },
        }
    }

    /// Whether a subject is selected.
    pub fn matches(&self, subject: &SubjectId) -> (r: bool)
        ensures
            r == self.covers(subject.namespace@, subject.id@),
    {
        match self {
            ErasureSelector::Subject { namespace, id } => same_text(
                namespace.as_str(),
                subject.namespace.as_str(),
            ) && same_text(id.as_str(), subject.id.as_str()),
            ErasureSelector::Namespace { namespace } => same_text(
                namespace.as_str(),
                subject.namespace.as_str(),
            ),
        }
    }
}

/// Whether a metadata entry names a subject that is selected. An entry that does not parse names
/// nobody.
pub open spec fn entry_selected(selector: ErasureSelector, entry: (String, String)) -> bool {
    entry.0@ == subject_key() && match split_subject(entry.1@) {
        Some((ns, id)) => selector.covers(ns, id),
        None => false,
    }
}

/// Whether an event is about someone who is selected.
pub open spec fn event_selected(selector: ErasureSelector, event: Event) -> bool {
    exists|i: int|
        0 <= i < event.metadata@.len() && entry_selected(selector, #[trigger] event.metadata@[i])
}

/// Whether any of these subjects is selected.
pub fn selector_matches_any(selector: &ErasureSelector, subjects: &[SubjectId]) -> (r: bool)
    ensures
        r == exists|i: int|
            0 <= i < subjects@.len() && selector.covers(
                (#[trigger] subjects@[i]).namespace@,
                subjects@[i].id@,
            ),
{
    let mut i: usize = 0;
    while i < subjects.len()
        invariant
            i <= subjects@.len(),
            forall|j: int|
                0 <= j < i ==> !selector.covers(
                    (#[trigger] subjects@[j]).namespace@,
                    subjects@[j].id@,
                ),
        decreases subjects@.len() - i,
    {
        if selector.matches(&subjects[i]) {
            return true;
        }
        i += 1;
    }
    false
}

/// Whether an event is about someone who is selected.
pub fn event_matches(event: &Event, selector: &ErasureSelector) -> (r: bool)
    ensures
        r == event_selected(*selector, *event),
{
    let mut i: usize = 0;
    while i < event.metadata.len()
        invariant
            i <= event.metadata@.len(),
            forall|j: int|
                0 <= j < i ==> !entry_selected(*selector, #[trigger] event.metadata@[j]),
        decreases event.metadata@.len() - i,
    {
        let (key, value) = &event.metadata[i];
        if same_text(key.as_str(), "aeon.subject_id") {
            if let Some(subject) = SubjectId::parse(value.as_str()) {
                if selector.matches(&subject) {
                    assert(entry_selected(*selector, event.metadata@[i as int]));
                    return true;
                }
            }
        }
        assert(!entry_selected(*selector, event.metadata@[i as int]));
        i += 1;
    }
    false
}

/// What reading a record of a segment yields: its sequence number and the event, or why it could
/// not be read.
pub type RecordRead = Result<(u64, Event), AeonError>;

/// What reading a segment yields: its records in order, or why it could not be opened.
pub type SegmentRead = Result<Vec<RecordRead>, AeonError>;

/// What reading the segments of a partition yields, in order.
pub struct L2BodyStore {
    pub segments: Vec<SegmentRead>,
}

/// The records of some segments, one after the other. A segment that could not be opened counts
/// as a record that could not be read.
pub open spec fn records(segments: Seq<SegmentRead>) -> Seq<RecordRead>
    decreases segments.len(),
{
    if segments.len() == 0 {
        seq![]
    } else {
        records(segments.drop_last()) + match segments.last() {
            Ok(list) => list@,
            Err(e) => seq![Err(e)],
        }
    }
}

/// Why the first record that could not be read could not be read.
pub open spec fn failure(reads: Seq<RecordRead>) -> Option<AeonError>
    decreases reads.len(),
{
    if reads.len() == 0 {
        None
    } else if failure(reads.drop_last()) is Some {
        failure(reads.drop_last())
    } else {
        match reads.last() {
            Ok(_) => None,
            Err(e) => Some(e),
        }
    }
}

/// The selected events up to the first record that could not be read, in order.
pub open spec fn selected(selector: ErasureSelector, reads: Seq<RecordRead>) -> Seq<(u64, Event)>
    decreases reads.len(),
{
    if reads.len() == 0 {
        seq![]
    } else {
        let front = selected(selector, reads.drop_last());
        match reads.last() {
            Ok(record) => if failure(reads.drop_last()) is None && event_selected(
                selector,
                record.1,
            ) {
                front.push(record)
            } else {
                front
            },
            Err(_) => front,
        }
    }
}

/// What comes behind the first failure changes nothing.
proof fn lemma_failure_is_last(selector: ErasureSelector, reads: Seq<RecordRead>, k: int)
    requires
        0 <= k <= reads.len(),
        failure(reads.take(k)) is Some,
    ensures
        failure(reads) == failure(reads.take(k)),
        selected(selector, reads) == selected(selector, reads.take(k)),
    decreases reads.len(),
{
    if k < reads.len() {
        assert(reads.drop_last().take(k) =~= reads.take(k));
        lemma_failure_is_last(selector, reads.drop_last(), k);
    } else {
        assert(reads.take(k) =~= reads);
    }
}

/// The selected events of a part are the first of the selected events of the whole.
proof fn lemma_selected_grows(selector: ErasureSelector, reads: Seq<RecordRead>, k: int)
    requires
        0 <= k <= reads.len(),
    ensures
        selected(selector, reads.take(k)).is_prefix_of(selected(selector, reads)),
        selected(selector, reads).len() <= reads.len(),
    decreases reads.len(),
{
    if k < reads.len() {
        assert(reads.drop_last().take(k) =~= reads.take(k));
        lemma_selected_grows(selector, reads.drop_last(), k);
        let a = selected(selector, reads.take(k));
        let b = selected(selector, reads.drop_last());
        let c = selected(selector, reads);
        assert(c.take(a.len() as int) =~= b.take(a.len() as int));
    } else {
        assert(reads.take(k) =~= reads);
        if reads.len() > 0 {
            assert(reads.drop_last().take(0) =~= reads.take(0));
            lemma_selected_grows(selector, reads.drop_last(), 0);
        }
        let c = selected(selector, reads);
        assert(c.take(c.len() as int) =~= c);
    }
}

proof fn lemma_records_prefix(segments: Seq<SegmentRead>, k: int)
    requires
        0 <= k <= segments.len(),
    ensures
        records(segments.take(k)).is_prefix_of(records(segments)),
    decreases segments.len(),
{
    let whole = records(segments);
    if k < segments.len() {
        assert(segments.drop_last().take(k) =~= segments.take(k));
        lemma_records_prefix(segments.drop_last(), k);
        let part = records(segments.take(k));
        let mid = records(segments.drop_last());
        assert(whole.take(part.len() as int) =~= mid.take(part.len() as int));
    } else {
        assert(segments.take(k) =~= segments);
        assert(whole.take(whole.len() as int) =~= whole);
    }
}

/// Takes the selected events as they are found, and may put an end to the scan.
pub trait MatchVisitor {
    /// What stays the same of the visitor.
    type Id;

    spec fn id(&self) -> Self::Id;

    spec fn wf(&self) -> bool;

    /// What the visitor has been shown.
    spec fn seen(&self) -> Seq<(u64, Event)>;

    /// Why the visitor put an end to the scan.
    spec fn refused(&self) -> Option<AeonError>;

    fn on_match(&mut self, seq: u64, event: Event) -> (r: Result<(), AeonError>)
        requires
            old(self).wf(),
            old(self).refused() is None,
        ensures
            final(self).wf(),
            final(self).id() == old(self).id(),
            final(self).seen() == old(self).seen().push((seq, event)),
            match r {
                Ok(_) => final(self).refused() is None,
                Err(e) => final(self).refused() == Some(e),
            },
    ;
}

/// One event that an export found. The number is the partition's own sequence number.
#[derive(Debug)]
pub struct SubjectExportRecord {
    pub seq: u64,
    pub event: Event,
}

/// A visitor that keeps everything.
struct Collector {
    found: Vec<SubjectExportRecord>,
}

/// Records as pairs.
pub open spec fn pairs(found: Seq<SubjectExportRecord>) -> Seq<(u64, Event)> {
    found.map_values(|r: SubjectExportRecord| (r.seq, r.event))
}

impl MatchVisitor for Collector {
    type Id = ();

    closed spec fn id(&self) -> () {
        ()
    }

    closed spec fn wf(&self) -> bool {
        true
    }

    closed spec fn seen(&self) -> Seq<(u64, Event)> {
        pairs(self.found@)
    }

    closed spec fn refused(&self) -> Option<AeonError> {
        None
    }

    fn on_match(&mut self, seq: u64, event: Event) -> (r: Result<(), AeonError>)
        ensures
            r is Ok,
    {
        let ghost before = self.found@;
        self.found.push(SubjectExportRecord { seq, event });
        assert(pairs(self.found@) =~= pairs(before).push((seq, event)));
        Ok(())
    }
}

/// What a function returned when it was called with each event in turn: all went well, but for
/// the last call where it refused an event.
pub open spec fn answered<F: FnMut(u64, Event) -> Result<(), AeonError>>(
    on_match: F,
    seen: Seq<(u64, Event)>,
    refused: Option<AeonError>,
) -> bool {
    &&& refused is Some ==> seen.len() > 0
    &&& forall|i: int|
        0 <= i < seen.len() ==> call_ensures(
            on_match,
            #[trigger] seen[i],
            if i == seen.len() - 1 && refused is Some {
                Err::<(), AeonError>(refused->0)
            } else {
                Ok(())
            },
        )
}

/// A visitor that calls a function once for each event.
struct Caller<F> {
    on_match: F,
    seen: Ghost<Seq<(u64, Event)>>,
    refused: Ghost<Option<AeonError>>,
}

impl<F: FnMut(u64, Event) -> Result<(), AeonError>> MatchVisitor for Caller<F> {
    type Id = F;

    closed spec fn id(&self) -> F {
        self.on_match
    }

    closed spec fn wf(&self) -> bool {
        &&& forall|seq: u64, event: Event| call_requires(self.on_match, (seq, event))
        &&& answered(self.on_match, self.seen@, self.refused@)
    }

    closed spec fn seen(&self) -> Seq<(u64, Event)> {
        self.seen@
    }

    closed spec fn refused(&self) -> Option<AeonError> {
        self.refused@
    }

    fn on_match(&mut self, seq: u64, event: Event) -> (r: Result<(), AeonError>) {
        let ghost before = self.seen@;
        let r = (self.on_match)(seq, event);
        proof {
            self.seen@ = before.push((seq, event));
            self.refused@ = if r is Ok {
                None
            } else {
                Some(r->Err_0)
            };
            assert(r is Ok ==> r->Ok_0 == ());
            assert forall|i: int| 0 <= i < self.seen@.len() implies call_ensures(
                self.on_match,
                #[trigger] self.seen@[i],
                if i == self.seen@.len() - 1 && self.refused@ is Some {
                    Err::<(), AeonError>(self.refused@->0)
                } else {
                    Ok(())
                },
            ) by {
                if i < before.len() {
                    assert(self.seen@[i] == before[i]);
                }
            }
        }
        r
    }
}

/// Searches what a partition holds for the events of a subject.
pub struct SubjectExporter {
    store: L2BodyStore,
}

impl SubjectExporter {
    /// What the exporter searches.
    pub closed spec fn reads(self) -> Seq<RecordRead> {
        records(self.store.segments@)
    }

    pub fn new(store: L2BodyStore) -> (r: Self)
        ensures
            r.reads() == records(store.segments@),
    {
        SubjectExporter { store }
    }

    /// Calls the function with each event with a selected subject, once and in order, and returns
    /// their number. The scan ends with the first record that cannot be read and when the function
    /// refuses an event.
    pub fn scan<F: FnMut(u64, Event) -> Result<(), AeonError>>(
        self,
        selector: &ErasureSelector,
        on_match: F,
    ) -> (r: Result<usize, AeonError>)
        requires
            self.reads().len() <= usize::MAX,
            forall|seq: u64, event: Event| call_requires(on_match, (seq, event)),
        ensures
            ({
                let all = selected(*selector, self.reads());
                match r {
                    Ok(count) => {
                        &&& count == all.len()
                        &&& failure(self.reads()) is None
                        &&& answered(on_match, all, None)
                    },
                    Err(e) => {
                        ||| failure(self.reads()) == Some(e) && answered(on_match, all, None)
                        ||| exists|shown: int|
                            0 < shown <= all.len() && #[trigger] answered(
                                on_match,
                                all.take(shown),
                                Some(e),
                            )
                    },
                }
            }),
    {
        let mut caller = Caller { on_match, seen: Ghost(Seq::empty()), refused: Ghost(None) };
        let r = self.visit(selector, &mut caller);
        proof {
            let all = selected(*selector, self.reads());
            let shown = caller.seen().len() as int;
            assert(seq![] + all.take(shown) =~= all.take(shown));
            assert(all.take(all.len() as int) =~= all);
            assert(answered(on_match, all.take(shown), caller.refused()));
        }
        r
    }

    /// Shows the visitor each event with a selected subject, once and in order, and returns their
    /// number. The scan ends with the first record that cannot be read and when the visitor
    /// refuses an event.
    pub fn visit<V: MatchVisitor>(self, selector: &ErasureSelector, visitor: &mut V) -> (r: Result<
        usize,
        AeonError,
    >)
        requires
            self.reads().len() <= usize::MAX,
            old(visitor).wf(),
            old(visitor).refused() is None,
        ensures
            final(visitor).wf(),
            final(visitor).id() == old(visitor).id(),
            ({
                let all = selected(*selector, self.reads());
                let shown = final(visitor).seen().len() - old(visitor).seen().len();
                &&& 0 <= shown <= all.len()
                &&& final(visitor).seen() == old(visitor).seen() + all.take(shown)
                &&& shown == 0 ==> *final(visitor) == *old(visitor)
                &&& match final(visitor).refused() {
                    Some(e) => r == Err::<usize, AeonError>(e) && shown > 0,
                    None => shown == all.len() && match failure(self.reads()) {
                        Some(e) => r == Err::<usize, AeonError>(e),
                        None => r is Ok && r->Ok_0 == all.len(),
                    },
                }
            }),
    {
        let ghost reads = self.reads();
        let ghost first = old(visitor).seen();
        let ghost segments = self.store.segments@;
        let mut count: usize = 0;
        proof {
            assert(segments.take(0) =~= seq![]);
            assert(reads.take(0) =~= seq![]);
            assert(first + seq![] =~= first);
        }
        for segment in outer: self.store.segments.into_iter()
            invariant
                outer.seq() == segments,
                reads == records(segments),
                reads.len() <= usize::MAX,
                first == old(visitor).seen(),
                records(segments.take(outer.index())).is_prefix_of(reads),
                failure(records(segments.take(outer.index()))) is None,
                count == selected(*selector, records(segments.take(outer.index()))).len(),
                visitor.seen() == first + selected(
                    *selector,
                    records(segments.take(outer.index())),
                ),
                visitor.wf(),
                visitor.id() == old(visitor).id(),
                visitor.refused() is None,
                count == 0 ==> *visitor == *old(visitor),
        {
            let ghost at = outer.index();
            let ghost done = records(segments.take(at));
            proof {
                assert(segments.take(at + 1).drop_last() =~= segments.take(at));
                assert(segments.take(at + 1).last() == segment);
                lemma_records_prefix(segments, at + 1);
            }
            let list = match segment {
                Ok(list) => list,
                Err(e) => {
                    proof {
                        let upto = records(segments.take(at + 1));
                        assert(upto.drop_last() =~= done);
                        assert(reads.take(upto.len() as int) =~= upto);
                        lemma_failure_is_last(*selector, reads, upto.len() as int);
                        let all = selected(*selector, reads);
                        assert(all.take(all.len() as int) =~= all);
                    }
                    return Err(e);
                },
            };
            let ghost records_here = list@;
            proof {
                assert(done + records_here.take(0) =~= done);
            }
            for record in inner: list.into_iter()
                invariant
                    inner.seq() == records_here,
                    reads.len() <= usize::MAX,
                    first == old(visitor).seen(),
                    (done + records_here).is_prefix_of(reads),
                    failure(done + records_here.take(inner.index())) is None,
                    count == selected(*selector, done + records_here.take(inner.index())).len(),
                    visitor.seen() == first + selected(
                        *selector,
                        done + records_here.take(inner.index()),
                    ),
                    visitor.wf(),
                    visitor.id() == old(visitor).id(),
                    visitor.refused() is None,
                    count == 0 ==> *visitor == *old(visitor),
                    reads == self.reads(),
            {
                let ghost before = done + records_here.take(inner.index());
                let ghost upto = done + records_here.take(inner.index() + 1);
                proof {
                    assert(upto.drop_last() =~= before);
                    assert(upto.last() == record);
                    assert(reads.take(upto.len() as int) =~= upto);
                    lemma_selected_grows(*selector, reads, upto.len() as int);
                }
                match record {
                    Err(e) => {
                        proof {
                            lemma_failure_is_last(*selector, reads, upto.len() as int);
                            let all = selected(*selector, reads);
                            assert(all.take(all.len() as int) =~= all);
                        }
                        return Err(e);
                    },
                    Ok((seq, event)) => {
                        if event_matches(&event, selector) {
                            let ghost shown = visitor.seen();
                            let answer = visitor.on_match(seq, event);
                            proof {
                                assert(visitor.seen() =~= first + selected(*selector, upto));
                                let all = selected(*selector, reads);
                                let now = selected(*selector, upto);
                                assert(all.take(now.len() as int) =~= now);
                            }
                            if let Err(e) = answer {
                                return Err(e);
                            }
                            count += 1;
                        }
                    },
                }
            }
            proof {
                assert(records_here.take(records_here.len() as int) =~= records_here);
                assert(done + records_here =~= records(segments.take(at + 1)));
            }
        }
        proof {
            assert(segments.take(segments.len() as int) =~= segments);
            let all = selected(*selector, reads);
            assert(all.take(all.len() as int) =~= all);
        }
        Ok(count)
    }

    /// Collects each event with a selected subject, once and in order.
    pub fn collect(self, selector: &ErasureSelector) -> (r: Result<
        Vec<SubjectExportRecord>,
        AeonError,
    >)
        requires
            self.reads().len() <= usize::MAX,
        ensures
            match failure(self.reads()) {
                Some(e) => r == Err::<Vec<SubjectExportRecord>, AeonError>(e),
                None => r is Ok && pairs(r->Ok_0@) == selected(*selector, self.reads()),
            },
    {
        let ghost all = selected(*selector, self.reads());
        let mut collector = Collector { found: Vec::new() };
        match self.visit(selector, &mut collector) {
            Ok(_) => {
                proof {
                    assert(all.take(all.len() as int) =~= all);
                    assert(Seq::<(u64, Event)>::empty() + all =~= all);
                    assert(pairs(Seq::<SubjectExportRecord>::empty()) =~= seq![]);
                }
                Ok(collector.found)
            },
            Err(e) => Err(e),
        }
    }
}

/// A selector of a namespace selects everything that a selector of one of its subjects does.
pub proof fn law_namespace_covers_its_subjects(namespace: String, id: String, event: Event)
    requires
        event_selected(ErasureSelector::Subject { namespace, id }, event),
    ensures
        event_selected(ErasureSelector::Namespace { namespace }, event),
{
    let one = ErasureSelector::Subject { namespace, id };
    let i = choose|i: int|
        0 <= i < event.metadata@.len() && entry_selected(one, #[trigger] event.metadata@[i]);
    assert(entry_selected(ErasureSelector::Namespace { namespace }, event.metadata@[i]));
}

/// Where every record can be read, an export holds each selected event as often as the partition
/// does, and nothing else.
pub proof fn law_export_is_complete(selector: ErasureSelector, reads: Seq<RecordRead>)
    requires
        failure(reads) is None,
    ensures
        forall|i: int| 0 <= i < reads.len() ==> (#[trigger] reads[i]) is Ok,
        selected(selector, reads) == reads.map_values(
            |r: RecordRead| r->Ok_0,
        ).filter(|r: (u64, Event)| event_selected(selector, r.1)),
    decreases reads.len(),
{
    reveal(Seq::filter);
    let plain = reads.map_values(|r: RecordRead| r->Ok_0);
    if reads.len() > 0 {
        law_export_is_complete(selector, reads.drop_last());
        assert(plain.drop_last() =~= reads.drop_last().map_values(|r: RecordRead| r->Ok_0));
        assert forall|i: int| 0 <= i < reads.len() implies (#[trigger] reads[i]) is Ok by {
            if i < reads.len() - 1 {
                assert(reads.drop_last()[i] is Ok);
            }
        }
    }
}

/// A text denotes a subject exactly where it is a namespace, a slash and a name: neither is empty,
/// and there is no slash in the namespace.
pub proof fn law_a_subject_is_namespace_slash_name(s: Seq<char>, ns: Seq<char>, id: Seq<char>)
    ensures
        split_subject(s) == Some((ns, id)) <==> {
            &&& s == ns + seq!['/'] + id
            &&& ns.len() > 0
            &&& id.len() > 0
            &&& forall|j: int| 0 <= j < ns.len() ==> ns[j] != '/'
        },
{
    if s == ns + seq!['/'] + id && (forall|j: int| 0 <= j < ns.len() ==> ns[j] != '/') {
        assert forall|j: int| 0 <= j < ns.len() implies s[j] != '/' by {
            assert(s[j] == ns[j]);
        }
        lemma_first_slash(s, ns.len() as int);
        assert(s.take(ns.len() as int) =~= ns);
        assert(s.skip(ns.len() as int + 1) =~= id);
    }
    if split_subject(s) == Some((ns, id)) {
        let k = first_slash(s) as int;
        lemma_slash_is_first(s);
        assert(s =~= ns + seq!['/'] + id);
        assert forall|j: int| 0 <= j < ns.len() implies ns[j] != '/' by {
            assert(s[j] == ns[j]);
        }
    }
}

proof fn lemma_slash_is_first(s: Seq<char>)
    ensures
        first_slash(s) <= s.len(),
        first_slash(s) < s.len() ==> s[first_slash(s) as int] == '/',
        forall|j: int| 0 <= j < first_slash(s) ==> s[j] != '/',
    decreases s.len(),
{
    if s.len() > 0 && s[0] != '/' {
        lemma_slash_is_first(s.skip(1));
        assert forall|j: int| 0 <= j < first_slash(s) implies s[j] != '/' by {
            if j > 0 {
                assert(s[j] == s.skip(1)[j - 1]);
            }
        }
        if first_slash(s) < s.len() {
            assert(s[first_slash(s) as int] == s.skip(1)[first_slash(s) - 1]);
        }
    }
}

/// A selector of one subject covers that subject only; a selector of a namespace covers every
/// subject of that namespace and no other.
pub proof fn law_what_a_selector_covers(namespace: String, id: String, ns: Seq<char>, one: Seq<char>)
    ensures
        (ErasureSelector::Subject { namespace, id }).covers(ns, one) <==> namespace@ == ns && id@
            == one,
        (ErasureSelector::Namespace { namespace }).covers(ns, one) <==> namespace@ == ns,
{
}

/// An event is selected where any of its metadata entries, at whatever place, names the subject.
pub proof fn law_any_entry_can_select(
    selector: ErasureSelector,
    event: Event,
    i: int,
    ns: Seq<char>,
    id: Seq<char>,
)
    requires
        0 <= i < event.metadata@.len(),
        event.metadata@[i].0@ == "aeon.subject_id"@,
        event.metadata@[i].1@ == ns + seq!['/'] + id,
        ns.len() > 0 && id.len() > 0,
        forall|j: int| 0 <= j < ns.len() ==> ns[j] != '/',
        match selector {
            ErasureSelector::Subject { namespace, id: one } => namespace@ == ns && one@ == id,
            ErasureSelector::Namespace { namespace } => namespace@ == ns,
        },
    ensures
        event_selected(selector, event),
{
    law_a_subject_is_namespace_slash_name(event.metadata@[i].1@, ns, id);
    assert(entry_selected(selector, event.metadata@[i]));
}

/// An event that is selected has an entry that names such a subject.
pub proof fn law_a_selected_event_names_a_subject(selector: ErasureSelector, event: Event) -> (r: (
    int,
    Seq<char>,
    Seq<char>,
))
    requires
        event_selected(selector, event),
    ensures
        0 <= r.0 < event.metadata@.len(),
        event.metadata@[r.0].0@ == "aeon.subject_id"@,
        event.metadata@[r.0].1@ == r.1 + seq!['/'] + r.2,
        r.1.len() > 0 && r.2.len() > 0,
        forall|j: int| 0 <= j < r.1.len() ==> r.1[j] != '/',
        match selector {
            ErasureSelector::Subject { namespace, id } => namespace@ == r.1 && id@ == r.2,
            ErasureSelector::Namespace { namespace } => namespace@ == r.1,
        },
{
    let i = choose|i: int|
        0 <= i < event.metadata@.len() && entry_selected(selector, #[trigger] event.metadata@[i]);
    let (ns, id) = split_subject(event.metadata@[i].1@)->0;
    law_a_subject_is_namespace_slash_name(event.metadata@[i].1@, ns, id);
    (i, ns, id)
}

/// What reading yields fails exactly with the first record that could not be read.
pub proof fn law_the_first_failure_counts(reads: Seq<RecordRead>)
    ensures
        failure(reads) is None <==> forall|i: int|
            0 <= i < reads.len() ==> (#[trigger] reads[i]) is Ok,
        forall|k: int|
            0 <= k < reads.len() && (#[trigger] reads[k]) is Err && (forall|i: int|
                0 <= i < k ==> (#[trigger] reads[i]) is Ok) ==> failure(reads) == Some(
                reads[k]->Err_0,
            ),
    decreases reads.len(),
{
    if reads.len() > 0 {
        let rest = reads.drop_last();
        law_the_first_failure_counts(rest);
        if failure(reads) is None {
            assert forall|i: int| 0 <= i < reads.len() implies (#[trigger] reads[i]) is Ok by {
                if i < rest.len() {
                    assert(rest[i] is Ok);
                }
            }
        }
        if forall|i: int| 0 <= i < reads.len() ==> (#[trigger] reads[i]) is Ok {
            assert forall|i: int| 0 <= i < rest.len() implies (#[trigger] rest[i]) is Ok by {
                assert(reads[i] is Ok);
            }
        }
        assert forall|k: int|
            0 <= k < reads.len() && (#[trigger] reads[k]) is Err && (forall|i: int|
                0 <= i < k ==> (#[trigger] reads[i]) is Ok) implies failure(reads) == Some(
            reads[k]->Err_0,
        ) by {
            if k < rest.len() {
                assert(rest[k] is Err);
                assert forall|i: int| 0 <= i < k implies (#[trigger] rest[i]) is Ok by {
                    assert(reads[i] is Ok);
                }
            } else {
                assert forall|i: int| 0 <= i < rest.len() implies (#[trigger] rest[i]) is Ok by {
                    assert(reads[i] is Ok);
                }
            }
        }
    }
}

/// What the export of two stretches of records holds is what that of the first holds and then,
/// where all of it could be read, what that of the second holds: nothing is left out, added or
/// moved where they meet.
pub proof fn law_exports_join(
    selector: ErasureSelector,
    a: Seq<RecordRead>,
    b: Seq<RecordRead>,
)
    ensures
        failure(a + b) == (if failure(a) is Some {
            failure(a)
        } else {
            failure(b)
        }),
        selected(selector, a + b) == (if failure(a) is Some {
            selected(selector, a)
        } else {
            selected(selector, a) + selected(selector, b)
        }),
    decreases b.len(),
{
    if b.len() == 0 {
        assert(a + b =~= a);
        assert(selected(selector, a) + selected(selector, b) =~= selected(selector, a));
    } else {
        assert((a + b).drop_last() =~= a + b.drop_last());
        law_exports_join(selector, a, b.drop_last());
        if failure(a) is None {
            assert(selected(selector, a + b) =~= selected(selector, a) + selected(selector, b));
        }
    }
}

/// The export of a single record that can be read is that record where its event is selected, and
/// empty where it is not.
pub proof fn law_one_record_is_exported_or_not(selector: ErasureSelector, record: (u64, Event))
    ensures
        failure(seq![Ok(record)]) is None,
        selected(selector, seq![Ok(record)]) == (if event_selected(selector, record.1) {
            seq![record]
        } else {
            Seq::<(u64, Event)>::empty()
        }),
{
    let reads: Seq<RecordRead> = seq![Ok(record)];
    assert(reads.drop_last() =~= Seq::<RecordRead>::empty());
    assert(failure(reads.drop_last()) is None);
    assert(selected(selector, reads.drop_last()) =~= Seq::<(u64, Event)>::empty());
    assert(reads.last() == Ok::<(u64, Event), AeonError>(record));
    assert(selected(selector, reads) =~= (if event_selected(selector, record.1) {
        seq![record]
    } else {
        Seq::<(u64, Event)>::empty()
    }));
}

/// A record that can be read, with all records before it, and whose event names the subject in any
/// of its metadata entries is in the export.
pub proof fn law_the_export_holds_the_subject(
    selector: ErasureSelector,
    reads: Seq<RecordRead>,
    k: int,
    i: int,
    ns: Seq<char>,
    id: Seq<char>,
)
    requires
        0 <= k < reads.len(),
        forall|j: int| 0 <= j <= k ==> (#[trigger] reads[j]) is Ok,
        0 <= i < (reads[k]->Ok_0).1.metadata@.len(),
        (reads[k]->Ok_0).1.metadata@[i].0@ == "aeon.subject_id"@,
        (reads[k]->Ok_0).1.metadata@[i].1@ == ns + seq!['/'] + id,
        ns.len() > 0 && id.len() > 0,
        forall|j: int| 0 <= j < ns.len() ==> ns[j] != '/',
        match selector {
            ErasureSelector::Subject { namespace, id: one } => namespace@ == ns && one@ == id,
            ErasureSelector::Namespace { namespace } => namespace@ == ns,
        },
    ensures
        selected(selector, reads).contains(reads[k]->Ok_0),
{
    let record = reads[k]->Ok_0;
    law_any_entry_can_select(selector, record.1, i, ns, id);
    let upto = reads.take(k + 1);
    let before = reads.take(k);
    assert(upto.drop_last() =~= before);
    assert forall|j: int| 0 <= j < before.len() implies (#[trigger] before[j]) is Ok by {
        assert(reads[j] is Ok);
    }
    law_the_first_failure_counts(before);
    assert(upto.last() == reads[k]);
    let part = selected(selector, upto);
    assert(part.last() == record);
    lemma_selected_grows(selector, reads, k + 1);
    let all = selected(selector, reads);
    assert(all[part.len() - 1] == record);
}

/// The records of two stretches of segments are those of the first and then those of the second;
/// those of one segment are the segment's own, and a segment that could not be opened is one
/// record that could not be read.
pub proof fn law_records_are_those_of_the_segments(
    a: Seq<SegmentRead>,
    b: Seq<SegmentRead>,
    segment: SegmentRead,
)
    ensures
        records(a + b) == records(a) + records(b),
        segment is Ok ==> records(seq![segment]) == segment->Ok_0@,
        segment is Err ==> records(seq![segment]) == seq![
            Err::<(u64, Event), AeonError>(segment->Err_0),
        ],
    decreases b.len(),
{
    let one = seq![segment];
    assert(one.drop_last() =~= Seq::<SegmentRead>::empty());
    assert(records(one.drop_last()) =~= Seq::<RecordRead>::empty());
    if segment is Ok {
        assert(records(one) =~= segment->Ok_0@);
    } else {
        assert(records(one) =~= seq![Err::<(u64, Event), AeonError>(segment->Err_0)]);
    }
    if b.len() == 0 {
        assert(a + b =~= a);
        assert(records(a) + records(b) =~= records(a));
    } else {
        assert((a + b).drop_last() =~= a + b.drop_last());
        law_records_are_those_of_the_segments(a, b.drop_last(), segment);
        assert(records(a + b) =~= records(a) + records(b));
    }
}

/// What is collected is each record with its own number, one for one.
pub proof fn law_collected_records_are_whole(found: Seq<SubjectExportRecord>)
    ensures
        pairs(found).len() == found.len(),
        forall|i: int|
            0 <= i < found.len() ==> (#[trigger] pairs(found)[i]).0 == found[i].seq
                && pairs(found)[i].1 == found[i].event,
{
}

/// A function that was shown some events was called with each of them and let each pass, but for
/// the last one where it put an end to the scan: that one it refused with its error.
pub proof fn law_each_event_was_answered<F: FnMut(u64, Event) -> Result<(), AeonError>>(
    on_match: F,
    seen: Seq<(u64, Event)>,
    refused: Option<AeonError>,
    i: int,
)
    requires
        answered(on_match, seen, refused),
        0 <= i < seen.len(),
    ensures
        i < seen.len() - 1 || refused is None ==> call_ensures(
            on_match,
            seen[i],
            Ok::<(), AeonError>(()),
        ),
        i == seen.len() - 1 ==> (refused matches Some(e) ==> call_ensures(
            on_match,
            seen[i],
            Err::<(), AeonError>(e),
        )),
{
    let call = seen[i];
}

} // verus!
