//! The happiness score: one minus the clamped sum of a square-root penalty
//! for each past-due task. Scores are fixed point, in millionths.

use vstd::prelude::*;
use vstd::string::StringExecFns;
use crate::clock::{LocalDateTime, Span};
use crate::task_manager::TaskDue;

verus! {

/// A score of one, in millionths.
pub const FULL: u32 = 1_000_000;

/// The largest `r` with `r * r <= v`.
pub open spec fn floor_sqrt(v: nat) -> nat
    decreases v,
{
    if v == 0 {
        0
    } else {
        let r = floor_sqrt((v - 1) as nat);
        if (r + 1) * (r + 1) <= v {
            r + 1
        } else {
            r
        }
    }
}

pub proof fn lemma_floor_sqrt(v: nat)
    ensures
        floor_sqrt(v) * floor_sqrt(v) <= v < (floor_sqrt(v) + 1) * (floor_sqrt(v) + 1),
    decreases v,
{
    if v > 0 {
        lemma_floor_sqrt((v - 1) as nat);
        let r = floor_sqrt((v - 1) as nat);
        if (r + 1) * (r + 1) <= v {
            assert(floor_sqrt(v) == r + 1);
            assert(v < (r + 2) * (r + 2)) by (nonlinear_arith)
                requires v - 1 < (r + 1) * (r + 1), r >= 0;
            let s = floor_sqrt(v);
            assert(s * s <= v && v < (s + 1) * (s + 1));
        } else {
            assert(floor_sqrt(v) == r);
            assert(r * r <= v);
            let s = floor_sqrt(v);
            assert(s * s <= v && v < (s + 1) * (s + 1));
        }
    } else {
        let s = floor_sqrt(v);
        assert(s == 0);
        assert(s * s == 0 && (s + 1) * (s + 1) == 1) by (nonlinear_arith)
            requires s == 0;
    }
}

/// Only one `r` has `r * r <= v < (r + 1) * (r + 1)`.
pub proof fn lemma_floor_sqrt_unique(v: nat, r: nat)
    requires
        r * r <= v < (r + 1) * (r + 1),
    ensures
        r == floor_sqrt(v),
{
    lemma_floor_sqrt(v);
    let s = floor_sqrt(v);
    if r < s {
        assert((r + 1) * (r + 1) <= s * s) by (nonlinear_arith)
            requires r + 1 <= s;
    } else if s < r {
        assert((s + 1) * (s + 1) <= r * r) by (nonlinear_arith)
            requires s + 1 <= r;
    }
}

/// The penalty, in millionths, of a task overdue by `elapsed` nanoseconds:
/// the square root of how far the whole seconds overdue pass `timeout`, as a
/// share of `timeout_max`; at most one.
pub open spec fn penalty(elapsed: int, timeout: Span, timeout_max: Span) -> nat {
    let over = if elapsed > 0 {
        (elapsed / 1_000_000_000) * 1_000_000_000 - timeout.nanos
    } else {
        0
    };
    if over <= 0 {
        0
    } else if over >= timeout_max.nanos {
        FULL as nat
    } else {
        floor_sqrt(((over * 1_000_000_000_000) / (timeout_max.nanos as int)) as nat)
    }
}

/// The penalties of the tasks of `past`, at `now`, summed.
pub open spec fn total_penalty(past: Seq<TaskDue>, now: LocalDateTime, timeout: Span, timeout_max: Span) -> nat
    decreases past.len(),
{
    if past.len() == 0 {
        0
    } else {
        total_penalty(past.drop_last(), now, timeout, timeout_max) + penalty(
            now.since_epoch() - past.last().when.since_epoch(),
            timeout,
            timeout_max,
        )
    }
}

/// One minus the summed penalties, clamped to `[0, 1]`, in millionths.
pub open spec fn score(past: Seq<TaskDue>, now: LocalDateTime, timeout: Span, timeout_max: Span) -> int {
    let t = total_penalty(past, now, timeout, timeout_max);
    FULL - if t < FULL { t as int } else { FULL as int }
}

/// `floor_sqrt(v)`, for `v` below one million squared.
pub fn isqrt(v: u64) -> (r: u32)
    requires
        v < 1_000_000_000_000,
    ensures
        r == floor_sqrt(v as nat),
        r < FULL,
{
    let mut lo: u64 = 0;
    let mut hi: u64 = 1_000_000;
    while lo + 1 < hi
        invariant
            lo < hi <= 1_000_000,
            lo * lo <= v,
            v < hi * hi,
        decreases hi - lo,
    {
        let mid = lo + (hi - lo) / 2;
        assert(mid * mid <= 1_000_000_000_000) by (nonlinear_arith)
            requires mid <= 1_000_000;
        if mid * mid <= v {
            lo = mid;
        } else {
            hi = mid;
        }
    }
    proof {
        lemma_floor_sqrt_unique(v as nat, lo as nat);
    }
    lo as u32
}

/// The penalty of one task overdue by `elapsed` nanoseconds.
pub fn task_penalty(elapsed: i128, timeout: Span, timeout_max: Span) -> (r: u32)
    ensures
        r == penalty(elapsed as int, timeout, timeout_max),
        r <= FULL,
{
    if elapsed <= 0 {
        return 0;
    }
    let e = elapsed as u128;
    let secs = e / 1_000_000_000;
    let whole = secs * 1_000_000_000;
    assert(whole <= e) by (nonlinear_arith)
        requires secs == e / 1_000_000_000, whole == secs * 1_000_000_000, e >= 0;
    if whole <= timeout.nanos as u128 {
        return 0;
    }
    let over = whole - timeout.nanos as u128;
    if over >= timeout_max.nanos as u128 {
        return FULL;
    }
    assert(over * 1_000_000_000_000 < 0x1_0000_0000_0000_0000 * 1_000_000_000_000) by (nonlinear_arith)
        requires over < 0x1_0000_0000_0000_0000;
    let q = over * 1_000_000_000_000 / timeout_max.nanos as u128;
    assert(q < 1_000_000_000_000) by (nonlinear_arith)
        requires q == over * 1_000_000_000_000 / (timeout_max.nanos as int), over < timeout_max.nanos, over >= 0;
    isqrt(q as u64)
}

/// The happiness score, in millionths, of a companion whose past-due tasks
/// are `past`, at `now`.
pub fn happiness(past: &Vec<TaskDue>, now: &LocalDateTime, timeout: Span, timeout_max: Span) -> (r: u32)
    requires
        now.wf(),
        forall|i: int| 0 <= i < past@.len() ==> (#[trigger] past@[i]).when.wf(),
    ensures
        r == score(past@, *now, timeout, timeout_max),
        r <= FULL,
{
    let mut acc: u32 = 0;
    let mut i: usize = 0;
    while i < past.len()
        invariant
            i <= past@.len(),
            now.wf(),
            forall|k: int| 0 <= k < past@.len() ==> (#[trigger] past@[k]).when.wf(),
            acc <= FULL,
            acc == {
                let t = total_penalty(past@.subrange(0, i as int), *now, timeout, timeout_max);
                if t < FULL { t } else { FULL as nat }
            },
        decreases past@.len() - i,
    {
        let p = task_penalty(now.nanos_since(&past[i].when), timeout, timeout_max);
        proof {
            let pre = past@.subrange(0, i as int);
            assert(past@.subrange(0, i + 1).drop_last() =~= pre);
        }
        acc = if acc + p < FULL { acc + p } else { FULL };
        i = i + 1;
    }
    assert(past@.subrange(0, past@.len() as int) =~= past@);
    FULL - acc
}

/// A score with no past-due task is full, and every score lies in `[0, 1]`.
pub proof fn lemma_score_bounds(past: Seq<TaskDue>, now: LocalDateTime, timeout: Span, timeout_max: Span)
    ensures
        0 <= score(past, now, timeout, timeout_max) <= FULL,
        past.len() == 0 ==> score(past, now, timeout, timeout_max) == FULL,
{
}

/// How the companion feels, by happiness.
#[derive(Clone, Copy, Debug, PartialEq, Eq, Structural)]
pub enum Mood {
    VerySad,
    Sad,
    Neutral,
    Happy,
    VeryHappy,
}

/// The mood of a score in millionths: up to 0.1 very sad, up to 0.4 sad,
/// up to 0.6 neutral, up to 0.9 happy, above that very happy.
pub open spec fn mood_spec(h: int) -> Mood {
    if h <= 100_000 {
        Mood::VerySad
    } else if h <= 400_000 {
        Mood::Sad
    } else if h <= 600_000 {
        Mood::Neutral
    } else if h <= 900_000 {
        Mood::Happy
    } else {
        Mood::VeryHappy
    }
}

pub fn mood(h: u32) -> (r: Mood)
    ensures
        r == mood_spec(h as int),
{
    if h <= 100_000 {
        Mood::VerySad
    } else if h <= 400_000 {
        Mood::Sad
    } else if h <= 600_000 {
        Mood::Neutral
    } else if h <= 900_000 {
        Mood::Happy
    } else {
        Mood::VeryHappy
    }
}

pub open spec fn mood_label(m: Mood) -> Seq<char> {
    match m {
        Mood::VerySad => "Very Sad"@,
        Mood::Sad => "Sad"@,
        Mood::Neutral => "Neutral"@,
        Mood::Happy => "Happy"@,
        Mood::VeryHappy => "Very Happy"@,
    }
}

impl Mood {
    /// The mood in words ("Very Happy").
    pub fn label(&self) -> (r: String)
        ensures
            r@ == mood_label(*self),
    {
        match self {
            Mood::VerySad => String::from_str("Very Sad"),
            Mood::Sad => String::from_str("Sad"),
            Mood::Neutral => String::from_str("Neutral"),
            Mood::Happy => String::from_str("Happy"),
            Mood::VeryHappy => String::from_str("Very Happy"),
        }
    }
}

} // verus!
