//! Native processors: integrity, symbols, status codes and the origin of their outputs.
use vstd::prelude::*;

use crate::digest::{hex_encode, hex_text, sha256, sha256_of};
use crate::error::AeonError;
use crate::text::{
    i64_text, join2, join3, join5, join_listed, listed, lists_text, same_text, signed_decimal, texts,
};
use crate::types::{Event, Output};

verus! {

/// The size of the buffer for outputs that a processor is loaded with.
pub const DEFAULT_OUT_BUF_SIZE: usize = 1_048_576;

/// The symbols that a processor must export.
pub open spec fn required_symbols() -> Seq<Seq<char>> {
    seq![
        "aeon_processor_create"@,
        "aeon_processor_destroy"@,
        "aeon_process"@,
        "aeon_process_batch"@,
    ]
}

/// The symbols that a processor may export.
pub open spec fn optional_symbols() -> Seq<Seq<char>> {
    seq!["aeon_processor_name"@, "aeon_processor_version"@]
}

/// The texts of a list of literals.
pub open spec fn literal_texts(list: Seq<&str>) -> Seq<Seq<char>> {
    list.map_values(|s: &str| s@)
}

/// Those of some symbols that are exported, in order.
pub open spec fn exported_of(symbols: Seq<Seq<char>>, exported: Seq<Seq<char>>) -> Seq<Seq<char>> {
    symbols.filter(|s: Seq<char>| exported.contains(s))
}

/// Those of some symbols that are not exported, in order.
pub open spec fn missing_of(symbols: Seq<Seq<char>>, exported: Seq<Seq<char>>) -> Seq<Seq<char>> {
    symbols.filter(|s: Seq<char>| !exported.contains(s))
}

fn partition_symbols(symbols: &Vec<&str>, exported: &Vec<String>) -> (r: (
    Vec<String>,
    Vec<String>,
))
    ensures
        texts(r.0@) == exported_of(literal_texts(symbols@), texts(exported@)),
        texts(r.1@) == missing_of(literal_texts(symbols@), texts(exported@)),
{
    let ghost all = literal_texts(symbols@);
    let ghost have = texts(exported@);
    let ghost is_in = |s: Seq<char>| have.contains(s);
    let ghost is_out = |s: Seq<char>| !have.contains(s);
    let mut found: Vec<String> = Vec::new();
    let mut missing: Vec<String> = Vec::new();
    let mut i: usize = 0;
    proof {
        reveal(Seq::filter);
        assert(texts(found@) =~= all.take(0).filter(is_in));
        assert(texts(missing@) =~= all.take(0).filter(is_out));
    }
    while i < symbols.len()
        invariant
            i <= symbols@.len(),
            all == literal_texts(symbols@),
            have == texts(exported@),
            is_in == (|s: Seq<char>| have.contains(s)),
            is_out == (|s: Seq<char>| !have.contains(s)),
            texts(found@) == all.take(i as int).filter(is_in),
            texts(missing@) == all.take(i as int).filter(is_out),
        decreases symbols@.len() - i,
    {
        proof {
            reveal(Seq::filter);
            assert(all.take(i + 1).drop_last() =~= all.take(i as int));
            assert(all.take(i + 1).last() == symbols@[i as int]@);
        }
        if lists_text(exported, symbols[i]) {
            let ghost before = found@;
            found.push(symbols[i].to_owned());
            assert(texts(found@) =~= texts(before).push(symbols@[i as int]@));
        } else {
            let ghost before = missing@;
            missing.push(symbols[i].to_owned());
            assert(texts(missing@) =~= texts(before).push(symbols@[i as int]@));
        }
        i += 1;
    }
    proof {
        assert(all.take(all.len() as int) =~= all);
    }
    (found, missing)
}

proof fn lemma_none_missing(symbols: Seq<Seq<char>>, exported: Seq<Seq<char>>)
    requires
        missing_of(symbols, exported).len() == 0,
    ensures
        exported_of(symbols, exported) == symbols,
    decreases symbols.len(),
{
    reveal(Seq::filter);
    if symbols.len() > 0 {
        lemma_none_missing(symbols.drop_last(), exported);
        assert(symbols =~= symbols.drop_last().push(symbols.last()));
    } else {
        assert(exported_of(symbols, exported) =~= symbols);
    }
}

/// What to do after a call into a processor.
#[derive(Debug)]
pub enum NativeStep {
    /// Decode the outputs.
    Decode,
    /// The buffer was too small: call again with one of this size.
    Grow(usize),
    /// The call failed.
    Fail(AeonError),
}

/// The status of a call whose buffer was too small.
pub const BUFFER_TOO_SMALL: i32 = -4;

/// A processor in a shared library: what the host knows of it, and the size of the buffer that it
/// writes its outputs into.
#[derive(Debug)]
pub struct NativeProcessor {
    buffer: usize,
}

impl NativeProcessor {
    /// The size of the buffer for outputs.
    pub closed spec fn size(&self) -> usize {
        self.buffer
    }

    /// A processor with a buffer of the usual size.
    pub fn load() -> (r: Self)
        ensures
            r.size() == DEFAULT_OUT_BUF_SIZE,
    {
        NativeProcessor { buffer: DEFAULT_OUT_BUF_SIZE }
    }

    /// A processor with a buffer of this size.
    pub fn load_with_buffer(initial_buffer_size: usize) -> (r: Self)
        ensures
            r.size() == initial_buffer_size,
    {
        NativeProcessor { buffer: initial_buffer_size }
    }

    /// A processor with a buffer of the usual size, if its artifact has the digest that is
    /// expected of it.
    pub fn load_verified(
        path: &str,
        artifact: Result<Vec<u8>, String>,
        expected_hash: &str,
    ) -> (r: Result<Self, AeonError>)
        ensures
            match r {
                Ok(p) => intact(artifact, expected_hash@) && p.size() == DEFAULT_OUT_BUF_SIZE,
                Err(e) => !intact(artifact, expected_hash@) && e is Config && e.text()
                    == integrity_complaint(path@, artifact, expected_hash@),
            },
    {
        match NativeProcessor::verify_integrity(path, artifact, expected_hash) {
            Ok(_) => Ok(NativeProcessor::load()),
            Err(e) => Err(e),
        }
    }

    /// Checks that an artifact has the digest that is expected of it. `artifact` is what reading
    /// the file yields: its bytes, or why it could not be read.
    pub fn verify_integrity(
        path: &str,
        artifact: Result<Vec<u8>, String>,
        expected_hash: &str,
    ) -> (r: Result<(), AeonError>)
        ensures
            match r {
                Ok(_) => intact(artifact, expected_hash@),
                Err(e) => !intact(artifact, expected_hash@) && e is Config && e.text()
                    == integrity_complaint(path@, artifact, expected_hash@),
            },
    {
        let bytes = match artifact {
            Ok(bytes) => bytes,
            Err(complaint) => {
                let front = join3("failed to read '", path, "' for integrity check: ");
                return Err(AeonError::config(join2(front.as_str(), complaint.as_str())));
            },
        };
        let digest = sha256(bytes.as_slice());
        let actual = hex_encode(digest.as_slice());
        if same_text(actual.as_str(), expected_hash) {
            return Ok(());
        }
        let front = join5(
            "integrity check failed for '",
            path,
            "': expected SHA-256 ",
            expected_hash,
            ", got ",
        );
        Err(AeonError::config(join2(front.as_str(), actual.as_str())))
    }

    /// The SHA-256 digest of an artifact, in hexadecimal. `artifact` is what reading the file
    /// yields.
    pub fn compute_hash(path: &str, artifact: Result<Vec<u8>, String>) -> (r: Result<
        String,
        AeonError,
    >)
        ensures
            match artifact {
                Ok(bytes) => r is Ok && r->Ok_0@ == hex_text(sha256_of(bytes@)),
                Err(complaint) => r is Err && r->Err_0 is Config && r->Err_0.text()
                    == "failed to read '"@ + path@ + "': "@ + complaint@,
            },
    {
        match artifact {
            Ok(bytes) => {
                let digest = sha256(bytes.as_slice());
                Ok(hex_encode(digest.as_slice()))
            },
            Err(complaint) => {
                let front = join3("failed to read '", path, "': ");
                Err(AeonError::config(join2(front.as_str(), complaint.as_str())))
            },
        }
    }

    /// Checks the symbols that a library exports, as far as they matter: all required ones must be
    /// among them. Returns those that matter.
    pub fn validate(path: &str, exported: &Vec<String>) -> (r: Result<Vec<String>, AeonError>)
        ensures
            ({
                let have = texts(exported@);
                let missing = missing_of(required_symbols(), have);
                match r {
                    Ok(found) => missing.len() == 0 && texts(found@) == required_symbols()
                        + exported_of(optional_symbols(), have),
                    Err(e) => missing.len() > 0 && e is Config && e.text() == "native processor '"@
                        + path@ + "' missing required symbols: "@ + listed(missing),
                }
            }),
    {
        let required = vec![
            "aeon_processor_create",
            "aeon_processor_destroy",
            "aeon_process",
            "aeon_process_batch",
        ];
        let optional = vec!["aeon_processor_name", "aeon_processor_version"];
        proof {
            assert(literal_texts(required@) =~= required_symbols());
            assert(literal_texts(optional@) =~= optional_symbols());
        }
        let (mut found, missing) = partition_symbols(&required, exported);
        if missing.len() > 0 {
            proof {
                assert(texts(missing@).len() == missing@.len());
            }
            let list = join_listed(&missing);
            let front = join3("native processor '", path, "' missing required symbols: ");
            return Err(AeonError::config(join2(front.as_str(), list.as_str())));
        }
        proof {
            assert(texts(missing@).len() == 0);
            lemma_none_missing(required_symbols(), texts(exported@));
        }
        let (mut more, _) = partition_symbols(&optional, exported);
        let ghost a = found@;
        let ghost b = more@;
        found.append(&mut more);
        assert(texts(found@) =~= texts(a) + texts(b));
        Ok(found)
    }

    /// The size of a buffer that was too small, once it has grown: twice what it was, and at least
    /// one byte; nothing where no allocation can be that large.
    pub open spec fn grown(size: usize) -> Option<usize> {
        if size == 0 {
            Some(1)
        } else if size * 2 <= isize::MAX {
            Some((size * 2) as usize)
        } else {
            None
        }
    }

    /// Decides what to do after a call into the processor, from its status. A buffer that is too
    /// small grows, as often as that is needed and as long as it can.
    pub fn after_call(&mut self, status: i32) -> (r: NativeStep)
        ensures
            if status == BUFFER_TOO_SMALL && Self::grown(old(self).size()) is Some {
                &&& r == NativeStep::Grow(final(self).size())
                &&& final(self).size() == Self::grown(old(self).size())->0
                &&& final(self).size() > old(self).size()
            } else {
                &&& final(self).size() == old(self).size()
                &&& if status == 0 {
                    r is Decode
                } else {
                    &&& r is Fail
                    &&& r->Fail_0 is Processor
                    &&& r->Fail_0.text() == "aeon_process returned error code "@ + signed_decimal(
                        status as int,
                    )
                }
            },
    {
        if status == 0 {
            return NativeStep::Decode;
        }
        if status == BUFFER_TOO_SMALL {
            if self.buffer == 0 {
                self.buffer = 1;
                return NativeStep::Grow(1);
            }
            if self.buffer <= isize::MAX as usize / 2 {
                self.buffer = self.buffer * 2;
                return NativeStep::Grow(self.buffer);
            }
        }
        let code = i64_text(status as i64);
        NativeStep::Fail(
            AeonError::processor(join2("aeon_process returned error code ", code.as_str())),
        )
    }
}

/// Whether an artifact could be read and has this digest.
pub open spec fn intact(artifact: Result<Vec<u8>, String>, expected_hash: Seq<char>) -> bool {
    artifact is Ok && expected_hash == hex_text(sha256_of(artifact->Ok_0@))
}

/// What is wrong with an artifact that is not intact.
pub open spec fn integrity_complaint(
    path: Seq<char>,
    artifact: Result<Vec<u8>, String>,
    expected_hash: Seq<char>,
) -> Seq<char> {
    match artifact {
        Err(complaint) => "failed to read '"@ + path + "' for integrity check: "@ + complaint@,
        Ok(bytes) => "integrity check failed for '"@ + path + "': expected SHA-256 "@
            + expected_hash + ", got "@ + hex_text(sha256_of(bytes@)),
    }
}

/// An output that knows the event it came from. Its own time stamp, where it has one, stays.
pub open spec fn stamped(o: Output, e: Event) -> Output {
    Output {
        source_event_id: Some(e.id),
        source_partition: Some(e.partition),
        source_offset: e.source_offset,
        source_ts: (if o.source_ts is Some {
            o.source_ts
        } else {
            e.source_ts
        }),
        ..o
    }
}

/// Stamps outputs with the event that they came from.
pub fn stamp_outputs(outputs: Vec<Output>, event: &Event) -> (r: Vec<Output>)
    ensures
        r@ == outputs@.map_values(|o: Output| stamped(o, *event)),
{
    let ghost all = outputs@;
    let mut out: Vec<Output> = Vec::new();
    for o in it: outputs.into_iter()
        invariant
            it.seq() == all,
            out@.len() == it.index(),
            forall|i: int| 0 <= i < out@.len() ==> #[trigger] out@[i] == stamped(all[i], *event),
    {
        let source_ts: Option<i64> = match o.source_ts {
            Some(ts) => Some(ts),
            None => event.source_ts,
        };
        out.push(
            Output {
                source_event_id: Some(event.id),
                source_partition: Some(event.partition),
                source_offset: event.source_offset,
                source_ts,
                ..o
            },
        );
    }
    assert(out@ =~= all.map_values(|o: Output| stamped(o, *event)));
    out
}

/// Each of some symbols is either exported or missing, as often as it stands there and in the same
/// order.
pub proof fn law_symbols_are_exported_or_missing(
    a: Seq<Seq<char>>,
    b: Seq<Seq<char>>,
    exported: Seq<Seq<char>>,
    one: Seq<char>,
)
    ensures
        exported_of(seq![one], exported) == (if exported.contains(one) {
            seq![one]
        } else {
            Seq::empty()
        }),
        missing_of(seq![one], exported) == (if exported.contains(one) {
            Seq::empty()
        } else {
            seq![one]
        }),
        exported_of(a + b, exported) == exported_of(a, exported) + exported_of(b, exported),
        missing_of(a + b, exported) == missing_of(a, exported) + missing_of(b, exported),
{
    reveal(Seq::filter);
    let is_in = |s: Seq<char>| exported.contains(s);
    let is_out = |s: Seq<char>| !exported.contains(s);
    Seq::filter_distributes_over_add(a, b, is_in);
    Seq::filter_distributes_over_add(a, b, is_out);
    let single = seq![one];
    assert(single.drop_last() =~= Seq::<Seq<char>>::empty());
    assert(single.last() == one);
    assert(single.drop_last().filter(is_in) =~= Seq::<Seq<char>>::empty());
    assert(single.drop_last().filter(is_out) =~= Seq::<Seq<char>>::empty());
    assert(single.filter(is_in) =~= exported_of(single, exported));
    assert(single.filter(is_out) =~= missing_of(single, exported));
    assert(Seq::<Seq<char>>::empty().push(one) =~= single);
}

/// A library lacks nothing exactly where it exports the four symbols of a processor: to create it,
/// to destroy it, and to process an event or a batch.
pub proof fn law_a_processor_exports_four_symbols(exported: Seq<Seq<char>>)
    ensures
        missing_of(required_symbols(), exported).len() == 0 <==> {
            &&& exported.contains("aeon_processor_create"@)
            &&& exported.contains("aeon_processor_destroy"@)
            &&& exported.contains("aeon_process"@)
            &&& exported.contains("aeon_process_batch"@)
        },
        exported_of(optional_symbols(), exported).len() == 2 <==> exported.contains(
            "aeon_processor_name"@,
        ) && exported.contains("aeon_processor_version"@),
{
    let e = exported;
    let a = "aeon_processor_create"@;
    let b = "aeon_processor_destroy"@;
    let c = "aeon_process"@;
    let d = "aeon_process_batch"@;
    let n = "aeon_processor_name"@;
    let v = "aeon_processor_version"@;
    let four = seq![a] + seq![b] + (seq![c] + seq![d]);
    assert(four.len() == 4 && required_symbols().len() == 4);
    assert(four[0] == a && four[1] == b && four[2] == c && four[3] == d);
    assert(required_symbols()[0] == a && required_symbols()[1] == b);
    assert(required_symbols()[2] == c && required_symbols()[3] == d);
    assert(required_symbols() =~= four);
    let two = seq![n] + seq![v];
    assert(two.len() == 2 && two[0] == n && two[1] == v);
    assert(optional_symbols() =~= two);
    law_symbols_are_exported_or_missing(seq![a], seq![b], e, a);
    law_symbols_are_exported_or_missing(seq![c], seq![d], e, b);
    law_symbols_are_exported_or_missing(seq![a] + seq![b], seq![c] + seq![d], e, c);
    law_symbols_are_exported_or_missing(seq![n], seq![v], e, d);
    law_symbols_are_exported_or_missing(seq![n], seq![v], e, n);
    law_symbols_are_exported_or_missing(seq![n], seq![v], e, v);
    let ma = missing_of(seq![a], e);
    let mb = missing_of(seq![b], e);
    let mc = missing_of(seq![c], e);
    let md = missing_of(seq![d], e);
    assert(missing_of(required_symbols(), e) == ma + mb + (mc + md));
    assert((ma + mb + (mc + md)).len() == ma.len() + mb.len() + mc.len() + md.len());
    assert(ma.len() == 0 <==> e.contains(a));
    assert(mb.len() == 0 <==> e.contains(b));
    assert(mc.len() == 0 <==> e.contains(c));
    assert(md.len() == 0 <==> e.contains(d));
    let en = exported_of(seq![n], e);
    let ev = exported_of(seq![v], e);
    assert(exported_of(optional_symbols(), e) == en + ev);
    assert((en + ev).len() == en.len() + ev.len());
    assert(en.len() == (if e.contains(n) {
        1int
    } else {
        0
    }));
    assert(ev.len() == (if e.contains(v) {
        1int
    } else {
        0
    }));
}

/// A buffer that is too small grows to twice its size, an empty one to one byte, as long as
/// memory can be that large.
pub proof fn law_a_buffer_grows(size: usize)
    ensures
        NativeProcessor::grown(size) matches Some(n) ==> n > size && n <= isize::MAX && (size > 0
            ==> n == size + size),
        NativeProcessor::grown(size) is None <==> size + size > isize::MAX,
        NativeProcessor::grown(0) == Some(1usize),
{
}

/// An artifact is intact exactly where it could be read and its digest is the one expected; what
/// is said of another quotes the path.
pub proof fn law_only_the_expected_artifact_is_intact(
    path: Seq<char>,
    bytes: Vec<u8>,
    why: String,
    expected: Seq<char>,
)
    ensures
        intact(Ok(bytes), expected) <==> hex_text(sha256_of(bytes@)) == expected,
        !intact(Err(why), expected),
        exists|i: int|
            0 <= i && i + path.len() <= integrity_complaint(path, Ok(bytes), expected).len()
                && #[trigger] integrity_complaint(path, Ok(bytes), expected).subrange(
                i,
                i + path.len(),
            ) == path,
        exists|i: int|
            0 <= i && i + path.len() <= integrity_complaint(path, Err(why), expected).len()
                && #[trigger] integrity_complaint(path, Err(why), expected).subrange(
                i,
                i + path.len(),
            ) == path,
{
    let i = "integrity check failed for '"@.len() as int;
    assert(integrity_complaint(path, Ok(bytes), expected).subrange(i, i + path.len()) =~= path);
    let j = "failed to read '"@.len() as int;
    assert(integrity_complaint(path, Err(why), expected).subrange(j, j + path.len()) =~= path);
}

/// A stamp says which event an output came from. It leaves alone what the output carries and a
/// time that it has, and a second stamp of the same event changes nothing.
pub proof fn law_a_stamp_says_the_origin(o: Output, e: Event)
    ensures
        ({
            let s = stamped(o, e);
            &&& s.source_event_id == Some(e.id)
            &&& s.source_partition == Some(e.partition)
            &&& s.source_offset == e.source_offset
            &&& o.source_ts is Some ==> s.source_ts == o.source_ts
            &&& o.source_ts is None ==> s.source_ts == e.source_ts
            &&& s.destination == o.destination
            &&& s.key == o.key
            &&& s.payload == o.payload
            &&& s.headers == o.headers
            &&& s.l2_seq == o.l2_seq
            &&& stamped(s, e) == s
        }),
{
}

} // verus!
