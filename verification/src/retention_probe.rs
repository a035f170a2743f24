//! How long event bodies and checkpoints are kept, as a pipeline declares it.
use vstd::prelude::*;
use vstd::string::StrSliceExecFns;

use crate::error::AeonError;
use crate::text::{
    chars_of, is_digit, join3, join5, law_leading_digits_end_at_the_first_other,
    law_trimming_takes_white_space_off, leading_digits, number, parse_digits, same_text, trim,
    trim_bounds, white_space,
};
use crate::time::Duration;

verus! {

/// What a manifest says of the body store.
#[derive(Debug, Clone)]
pub struct L2RetentionBlock {
    pub hold_after_ack: Option<String>,
}

/// What a manifest says of the checkpoint store.
#[derive(Debug, Clone)]
pub struct L3RetentionBlock {
    pub max_records: Option<u32>,
}

/// What a manifest says of retention.
#[derive(Debug, Clone)]
pub struct RetentionBlock {
    pub l2_body: L2RetentionBlock,
    pub l3_ack: L3RetentionBlock,
}

impl Default for RetentionBlock {
    fn default() -> (r: Self)
        ensures
            r.l2_body.hold_after_ack is None,
            r.l3_ack.max_records is None,
    {
        RetentionBlock {
            l2_body: L2RetentionBlock { hold_after_ack: None },
            l3_ack: L3RetentionBlock { max_records: None },
        }
    }
}

/// A retention plan. At zero, event bodies are reclaimed as soon as they are acknowledged;
/// without a number of records, all checkpoints are kept.
#[derive(Debug, Clone, Copy, PartialEq, Eq, Structural)]
pub struct RetentionPlan {
    pub l2_hold_after_ack: Duration,
    pub l3_max_records: Option<u32>,
}

impl Default for RetentionPlan {
    fn default() -> (r: Self)
        ensures
            r == (RetentionPlan {
                l2_hold_after_ack: Duration { secs: 0, nanos: 0 },
                l3_max_records: None,
            }),
    {
        RetentionPlan { l2_hold_after_ack: Duration::zero(), l3_max_records: None }
    }
}

impl RetentionPlan {
    /// Whether the plan holds nothing back.
    pub fn is_inert(&self) -> (r: bool)
        ensures
            r == (self.l2_hold_after_ack.total_nanos() == 0 && self.l3_max_records is None),
    {
        self.l2_hold_after_ack.is_zero() && self.l3_max_records.is_none()
    }
}

/// What a hold time denotes.
pub ghost enum HoldTime {
    /// A span of nanoseconds.
    Span(nat),
    Empty,
    NoUnit,
    NoNumber,
    TooLarge,
    UnknownUnit(Seq<char>),
}

/// A number of seconds, as far as seconds can be counted.
pub open spec fn counted_secs(n: nat) -> nat {
    if n > u64::MAX {
        u64::MAX as nat
    } else {
        n
    }
}

/// What a hold time denotes: a number and a unit, which is mandatory, with white space around
/// them at most.
pub open spec fn hold_time(s: Seq<char>) -> HoldTime {
    let t = trim(s);
    let k = leading_digits(t);
    let n = number(t.take(k as int));
    let unit = t.skip(k as int);
    if t.len() == 0 {
        HoldTime::Empty
    } else if k == t.len() {
        HoldTime::NoUnit
    } else if k == 0 {
        HoldTime::NoNumber
    } else if n > u64::MAX {
        HoldTime::TooLarge
    } else if unit == "ms"@ {
        HoldTime::Span(n * 1_000_000)
    } else if unit == "s"@ {
        HoldTime::Span(n * 1_000_000_000)
    } else if unit == "m"@ {
        HoldTime::Span(counted_secs(n * 60) * 1_000_000_000)
    } else if unit == "h"@ {
        HoldTime::Span(counted_secs(n * 3600) * 1_000_000_000)
    } else {
        HoldTime::UnknownUnit(unit)
    }
}

/// The refusal of a text that denotes no hold time.
pub open spec fn hold_error(s: Seq<char>) -> Seq<char> {
    match hold_time(s) {
        HoldTime::Empty => "retention: empty hold_after_ack string"@,
        HoldTime::NoUnit => "retention: hold_after_ack '"@ + s
            + "' requires a unit suffix (ms/s/m/h)"@,
        HoldTime::NoNumber => "retention: hold_after_ack '"@ + s + "' has no numeric body"@,
        HoldTime::TooLarge => "retention: bad number in '"@ + s
            + "': number too large to fit in target type"@,
        HoldTime::UnknownUnit(unit) => "retention: unknown unit '"@ + unit + "' in '"@ + s
            + "' (expected ms/s/m/h)"@,
        HoldTime::Span(_) => Seq::empty(),
    }
}

fn scan_digits(chars: &Vec<char>, from: usize, to: usize) -> (r: usize)
    requires
        from <= to <= chars@.len(),
    ensures
        from <= r <= to,
        r - from == leading_digits(chars@.subrange(from as int, to as int)),
        forall|i: int| from <= i < r ==> is_digit(chars@[i]),
{
    let mut i: usize = from;
    let ghost all = chars@.subrange(from as int, to as int);
    proof {
        assert(all.skip(0) =~= all);
    }
    while i < to && '0' <= chars[i] && chars[i] <= '9'
        invariant
            from <= i <= to <= chars@.len(),
            all == chars@.subrange(from as int, to as int),
            forall|j: int| from <= j < i ==> is_digit(chars@[j]),
            leading_digits(all) == (i - from) + leading_digits(all.skip(i - from)),
        decreases to - i,
    {
        proof {
            let rest = all.skip(i - from);
            assert(rest[0] == chars@[i as int]);
            assert(rest.drop_first() =~= all.skip(i + 1 - from));
        }
        i += 1;
    }
    proof {
        let rest = all.skip(i - from);
        if i < to {
            assert(rest[0] == chars@[i as int]);
        }
        assert(leading_digits(rest) == 0);
    }
    i
}

/// Reads a hold time such as `300s`, `5m`, `30ms` or `1h`.
pub fn parse_hold_duration(s: &str) -> (r: Result<Duration, AeonError>)
    ensures
        match r {
            Ok(d) => d.wf() && hold_time(s@) == HoldTime::Span(d.total_nanos()),
            Err(e) => hold_time(s@) !is Span && e is Config && e.text() == hold_error(s@),
        },
{
    let chars = chars_of(s);
    let (from, to) = trim_bounds(&chars);
    let ghost t = trim(s@);
    if from == to {
        return Err(AeonError::config("retention: empty hold_after_ack string".to_owned()));
    }
    let split = scan_digits(&chars, from, to);
    if split == to {
        return Err(
            AeonError::config(
                join3("retention: hold_after_ack '", s, "' requires a unit suffix (ms/s/m/h)"),
            ),
        );
    }
    if split == from {
        return Err(
            AeonError::config(join3("retention: hold_after_ack '", s, "' has no numeric body")),
        );
    }
    let unit = s.substring_char(split, to);
    proof {
        assert(t.take(split - from) =~= chars@.subrange(from as int, split as int));
        assert(t.skip(split - from) =~= unit@);
    }
    let n: u64 = match parse_digits(&chars, from, split) {
        Some(n) => n,
        None => {
            return Err(
                AeonError::config(
                    join3(
                        "retention: bad number in '",
                        s,
                        "': number too large to fit in target type",
                    ),
                ),
            );
        },
    };
    proof {
        reveal_strlit("ms");
        reveal_strlit("s");
        reveal_strlit("m");
        reveal_strlit("h");
        assert("s"@[0] != "m"@[0]);
        assert("h"@[0] != "m"@[0]);
        assert("s"@[0] != "h"@[0]);
    }
    if same_text(unit, "ms") {
        return Ok(Duration::from_millis(n));
    }
    if same_text(unit, "s") {
        return Ok(Duration::from_secs(n));
    }
    if same_text(unit, "m") {
        return Ok(Duration::from_secs(saturating_mul(n, 60)));
    }
    if same_text(unit, "h") {
        return Ok(Duration::from_secs(saturating_mul(n, 3600)));
    }
    Err(
        AeonError::config(
            join5("retention: unknown unit '", unit, "' in '", s, "' (expected ms/s/m/h)"),
        ),
    )
}

fn saturating_mul(n: u64, k: u64) -> (r: u64)
    ensures
        r == counted_secs((n * k) as nat),
{
    proof {
        assert(n * k <= 0xffff_ffff_ffff_ffff * 0xffff_ffff_ffff_ffff) by (nonlinear_arith)
            requires
                n <= 0xffff_ffff_ffff_ffff,
                k <= 0xffff_ffff_ffff_ffff,
        ;
    }
    let product: u128 = n as u128 * k as u128;
    if product > u64::MAX as u128 {
        u64::MAX
    } else {
        product as u64
    }
}

/// Resolves what a manifest says of retention. It is refused only where a hold time is given
/// that denotes none.
pub fn resolve_retention_plan(block: &RetentionBlock) -> (r: Result<RetentionPlan, AeonError>)
    ensures
        match block.l2_body.hold_after_ack {
            None => r is Ok && r->Ok_0.l2_hold_after_ack == (Duration { secs: 0, nanos: 0 })
                && r->Ok_0.l3_max_records == block.l3_ack.max_records,
            Some(s) => match r {
                Ok(plan) => plan.l2_hold_after_ack.wf() && hold_time(s@) == HoldTime::Span(
                    plan.l2_hold_after_ack.total_nanos(),
                ) && plan.l3_max_records == block.l3_ack.max_records,
                Err(e) => hold_time(s@) !is Span && e is Config && e.text() == hold_error(s@),
            },
        },
{
    let hold = match &block.l2_body.hold_after_ack {
        Some(s) => match parse_hold_duration(s.as_str()) {
            Ok(d) => d,
            Err(e) => {
                return Err(e);
            },
        },
        None => Duration::zero(),
    };
    Ok(RetentionPlan { l2_hold_after_ack: hold, l3_max_records: block.l3_ack.max_records })
}

/// A number and a unit, whatever white space stands around them, denote the number of those units;
/// minutes and hours only as far as seconds can be counted. A number that is too large, or another
/// unit, is refused.
pub proof fn law_a_number_and_a_unit_are_a_span(
    lead: Seq<char>,
    digits: Seq<char>,
    unit: Seq<char>,
    tail: Seq<char>,
)
    requires
        forall|i: int| 0 <= i < lead.len() ==> white_space(#[trigger] lead[i]),
        forall|i: int| 0 <= i < tail.len() ==> white_space(#[trigger] tail[i]),
        digits.len() > 0,
        forall|i: int| 0 <= i < digits.len() ==> '0' <= #[trigger] digits[i] <= '9',
        unit.len() > 0,
        !('0' <= unit[0] <= '9'),
        !white_space(unit.last()),
    ensures
        ({
            let r = hold_time(lead + digits + unit + tail);
            let n = number(digits);
            &&& n > u64::MAX ==> r == HoldTime::TooLarge
            &&& n <= u64::MAX ==> {
                &&& unit == "ms"@ ==> r == HoldTime::Span(n * 1_000_000)
                &&& unit == "s"@ ==> r == HoldTime::Span(n * 1_000_000_000)
                &&& unit == "m"@ && n * 60 <= u64::MAX ==> r == HoldTime::Span(
                    n * 60 * 1_000_000_000,
                )
                &&& unit == "h"@ && n * 3600 <= u64::MAX ==> r == HoldTime::Span(
                    n * 3600 * 1_000_000_000,
                )
                &&& unit == "m"@ && n * 60 > u64::MAX || unit == "h"@ && n * 3600 > u64::MAX
                    ==> r == HoldTime::Span((u64::MAX * 1_000_000_000) as nat)
                &&& unit != "ms"@ && unit != "s"@ && unit != "m"@ && unit != "h"@ ==> r
                    == HoldTime::UnknownUnit(unit)
            }
        }),
{
    let t = digits + unit;
    let s = lead + digits + unit + tail;
    assert(s =~= lead + t + tail);
    assert(t.last() == unit.last());
    assert(t[0] == digits[0]);
    lemma_trimmed(lead, t, tail);
    lemma_front_digits(digits, unit);
    assert(t.take(digits.len() as int) =~= digits);
    assert(t.skip(digits.len() as int) =~= unit);
    reveal_strlit("ms");
    reveal_strlit("s");
    reveal_strlit("m");
    reveal_strlit("h");
    assert("ms"@.len() == 2 && "s"@[0] == 's' && "m"@[0] == 'm' && "h"@[0] == 'h');
}

/// Nothing but white space denotes no span, a number without a unit none, and a unit without a
/// number none.
pub proof fn law_a_number_and_a_unit_are_needed(lead: Seq<char>, t: Seq<char>, tail: Seq<char>)
    requires
        forall|i: int| 0 <= i < lead.len() ==> white_space(#[trigger] lead[i]),
        forall|i: int| 0 <= i < tail.len() ==> white_space(#[trigger] tail[i]),
        t.len() > 0,
        !white_space(t[0]),
        !white_space(t.last()),
    ensures
        hold_time(lead) == HoldTime::Empty,
        (forall|i: int| 0 <= i < t.len() ==> '0' <= #[trigger] t[i] <= '9') ==> hold_time(
            lead + t + tail,
        ) == HoldTime::NoUnit,
        !('0' <= t[0] <= '9') ==> hold_time(lead + t + tail) == HoldTime::NoNumber,
{
    let bounds = law_trimming_takes_white_space_off(lead);
    if bounds.0 < bounds.1 {
        assert(white_space(lead[bounds.0]));
    }
    assert(trim(lead).len() == 0);
    lemma_trimmed(lead, t, tail);
    law_leading_digits_end_at_the_first_other(t);
}

proof fn lemma_trimmed(lead: Seq<char>, t: Seq<char>, tail: Seq<char>)
    requires
        forall|i: int| 0 <= i < lead.len() ==> white_space(#[trigger] lead[i]),
        forall|i: int| 0 <= i < tail.len() ==> white_space(#[trigger] tail[i]),
        t.len() > 0,
        !white_space(t[0]),
        !white_space(t.last()),
    ensures
        trim(lead + t + tail) == t,
{
    let s = lead + t + tail;
    let bounds = law_trimming_takes_white_space_off(s);
    let from = lead.len() as int;
    let to = (lead.len() + t.len()) as int;
    assert(s[from] == t[0]);
    assert(s[to - 1] == t.last());
    assert(bounds.0 <= from && to <= bounds.1);
    if bounds.0 < from {
        assert(s[bounds.0] == lead[bounds.0]);
    }
    if bounds.1 > to {
        assert(s[bounds.1 - 1] == tail[bounds.1 - 1 - to]);
    }
    assert(s.subrange(from, to) =~= t);
}

proof fn lemma_front_digits(digits: Seq<char>, unit: Seq<char>)
    requires
        forall|i: int| 0 <= i < digits.len() ==> '0' <= #[trigger] digits[i] <= '9',
        unit.len() > 0,
        !('0' <= unit[0] <= '9'),
    ensures
        leading_digits(digits + unit) == digits.len(),
{
    let t = digits + unit;
    law_leading_digits_end_at_the_first_other(t);
    let k = leading_digits(t) as int;
    if k < digits.len() {
        assert(t[k] == digits[k]);
    }
    if k > digits.len() {
        assert(t[digits.len() as int] == unit[0]);
    }
}

/// A refusal quotes the text, except where there was none.
pub proof fn law_a_refused_hold_time_is_quoted(s: Seq<char>)
    ensures
        hold_time(s) !is Span && hold_time(s) !is Empty ==> exists|i: int|
            0 <= i && i + s.len() <= hold_error(s).len() && #[trigger] hold_error(s).subrange(
                i,
                i + s.len(),
            ) == s,
{
    let e = hold_error(s);
    match hold_time(s) {
        HoldTime::NoUnit => {
            let i = "retention: hold_after_ack '"@.len() as int;
            assert(e.subrange(i, i + s.len()) =~= s);
        },
        HoldTime::NoNumber => {
            let i = "retention: hold_after_ack '"@.len() as int;
            assert(e.subrange(i, i + s.len()) =~= s);
        },
        HoldTime::TooLarge => {
            let i = "retention: bad number in '"@.len() as int;
            assert(e.subrange(i, i + s.len()) =~= s);
        },
        HoldTime::UnknownUnit(unit) => {
            let i = ("retention: unknown unit '"@ + unit + "' in '"@).len() as int;
            assert(e.subrange(i, i + s.len()) =~= s);
        },
        _ => {},
    }
}

} // verus!
