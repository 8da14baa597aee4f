//! Local wall-clock time as plain values.
//!
//! An instant is a calendar day (counted as chrono counts days from the
//! common era, with 1 January of year 1 as day 1) and a time of day. Spans
//! of time are whole nanoseconds.

use vstd::prelude::*;
use chrono::{Datelike, Local, NaiveDate, NaiveTime, TimeZone, Timelike};

verus! {

pub const NANOS_PER_SEC: u64 = 1_000_000_000;

pub const SECS_PER_DAY: u32 = 86_400;

pub const NANOS_PER_DAY: u64 = 86_400_000_000_000;

/// A non-negative span of time, in nanoseconds.
#[derive(Clone, Copy, Debug, PartialEq, Eq, Structural)]
pub struct Span {
    pub nanos: u64,
}

impl Span {
    pub fn from_secs(secs: u64) -> (r: Option<Span>)
        ensures
            r is Some <==> secs * NANOS_PER_SEC <= u64::MAX,
            r matches Some(s) ==> s.nanos == secs * NANOS_PER_SEC,
    {
        match secs.checked_mul(NANOS_PER_SEC) {
            Some(n) => Some(Span { nanos: n }),
            None => None,
        }
    }

    pub fn from_millis(millis: u64) -> (r: Option<Span>)
        ensures
            r is Some <==> millis * 1_000_000 <= u64::MAX,
            r matches Some(s) ==> s.nanos == millis * 1_000_000,
    {
        match millis.checked_mul(1_000_000) {
            Some(n) => Some(Span { nanos: n }),
            None => None,
        }
    }
}

/// A time of day on the local wall clock.
#[derive(Clone, Copy, Debug, PartialEq, Eq, Structural)]
pub struct TimeOfDay {
    pub secs: u32,
    pub nanos: u32,
}

impl TimeOfDay {
    pub open spec fn wf(self) -> bool {
        self.secs < SECS_PER_DAY && self.nanos < NANOS_PER_SEC
    }

    /// Nanoseconds since midnight.
    pub open spec fn since_midnight(self) -> int {
        self.secs * NANOS_PER_SEC + self.nanos
    }

    pub open spec fn later_than(self, other: TimeOfDay) -> bool {
        self.since_midnight() > other.since_midnight()
    }

    pub open spec fn is_midnight(self) -> bool {
        self.secs == 0 && self.nanos == 0
    }

    pub fn midnight() -> (r: TimeOfDay)
        ensures
            r.wf(),
            r.is_midnight(),
    {
        TimeOfDay { secs: 0, nanos: 0 }
    }

    /// The time `h:m:s`, or `None` where a field is out of range.
    pub fn from_hms(h: u32, m: u32, s: u32) -> (r: Option<TimeOfDay>)
        ensures
            r is Some <==> h < 24 && m < 60 && s < 60,
            r matches Some(t) ==> t.wf() && t.secs == h * 3600 + m * 60 + s && t.nanos == 0,
    {
        if h < 24 && m < 60 && s < 60 {
            Some(TimeOfDay { secs: h * 3600 + m * 60 + s, nanos: 0 })
        } else {
            None
        }
    }

    /// Nanoseconds since midnight.
    pub fn nanos_since_midnight(&self) -> (r: u64)
        requires
            self.wf(),
        ensures
            r == self.since_midnight(),
            r < NANOS_PER_DAY,
    {
        self.secs as u64 * NANOS_PER_SEC + self.nanos as u64
    }

    /// Whether `self` comes strictly after `other` within a day.
    pub fn is_later_than(&self, other: &TimeOfDay) -> (r: bool)
        requires
            self.wf(),
            other.wf(),
        ensures
            r == self.later_than(*other),
    {
        self.nanos_since_midnight() > other.nanos_since_midnight()
    }
}

/// An instant on the local wall clock.
#[derive(Clone, Copy, Debug, PartialEq, Eq, Structural)]
pub struct LocalDateTime {
    /// The calendar day, counted from the common era (1 January of year 1 is day 1).
    pub day: i32,
    pub time: TimeOfDay,
}

impl LocalDateTime {
    pub open spec fn wf(self) -> bool {
        self.time.wf()
    }

    /// Nanoseconds since the start of day 0.
    pub open spec fn since_epoch(self) -> int {
        self.day * NANOS_PER_DAY + self.time.since_midnight()
    }

    /// The instant for a day and the seconds and nanoseconds since its
    /// midnight. A leap second (`nanos` of a second or more) is held at the
    /// last nanosecond of the second it extends.
    pub fn from_parts(day: i32, secs: u32, nanos: u32) -> (r: Option<LocalDateTime>)
        ensures
            r is Some <==> secs < SECS_PER_DAY,
            r matches Some(t) ==> t.wf() && t.day == day && t.time.secs == secs
                && t.time.nanos == (if nanos < NANOS_PER_SEC { nanos as int } else { NANOS_PER_SEC - 1 }),
    {
        if secs < SECS_PER_DAY {
            let n: u32 = if nanos < 1_000_000_000 { nanos } else { 999_999_999 };
            Some(LocalDateTime { day, time: TimeOfDay { secs, nanos: n } })
        } else {
            None
        }
    }

    /// Nanoseconds since the start of day 0.
    pub fn nanos_since_epoch(&self) -> (r: i128)
        requires
            self.wf(),
        ensures
            r == self.since_epoch(),
    {
        let n = self.time.nanos_since_midnight();
        proof {
            assert(-0x8000_0000 * NANOS_PER_DAY <= self.day * NANOS_PER_DAY <= 0x7fff_ffff * NANOS_PER_DAY)
                by (nonlinear_arith)
                requires -0x8000_0000 <= self.day <= 0x7fff_ffff;
        }
        self.day as i128 * NANOS_PER_DAY as i128 + n as i128
    }

    /// `self - earlier`, in nanoseconds.
    pub fn nanos_since(&self, earlier: &LocalDateTime) -> (r: i128)
        requires
            self.wf(),
            earlier.wf(),
        ensures
            r == self.since_epoch() - earlier.since_epoch(),
    {
        self.nanos_since_epoch() - earlier.nanos_since_epoch()
    }

    /// Whether `self` comes strictly after `other`.
    pub fn is_after(&self, other: &LocalDateTime) -> (r: bool)
        requires
            self.wf(),
            other.wf(),
        ensures
            r == (self.since_epoch() > other.since_epoch()),
    {
        self.nanos_since_epoch() > other.nanos_since_epoch()
    }

    /// The instant `total` nanoseconds after the start of day 0.
    pub open spec fn from_since_epoch(total: int) -> LocalDateTime {
        LocalDateTime {
            day: (total / (NANOS_PER_DAY as int)) as i32,
            time: TimeOfDay {
                secs: ((total % (NANOS_PER_DAY as int)) / (NANOS_PER_SEC as int)) as u32,
                nanos: (total % (NANOS_PER_SEC as int)) as u32,
            },
        }
    }

    /// Whether the instant `total` nanoseconds after the start of day 0 has
    /// its day in the range of `i32`.
    pub open spec fn in_range(total: int) -> bool {
        i32::MIN <= total / (NANOS_PER_DAY as int) <= i32::MAX
    }

    /// `self + d`, where its day stays in the range of `i32`.
    pub open spec fn plus(self, d: Span) -> Option<LocalDateTime> {
        let total = self.since_epoch() + d.nanos;
        if Self::in_range(total) {
            Some(Self::from_since_epoch(total))
        } else {
            None
        }
    }

    /// `day * NANOS_PER_DAY + secs * NANOS_PER_SEC + nanos` splits back into
    /// its day, second and nanosecond.
    pub proof fn lemma_split(total: int, day: int, secs: int, nanos: int)
        requires
            0 <= secs < SECS_PER_DAY,
            0 <= nanos < NANOS_PER_SEC,
            total == day * NANOS_PER_DAY + secs * NANOS_PER_SEC + nanos,
        ensures
            total / (NANOS_PER_DAY as int) == day,
            total % (NANOS_PER_DAY as int) == secs * NANOS_PER_SEC + nanos,
            (total % (NANOS_PER_DAY as int)) / (NANOS_PER_SEC as int) == secs,
            total % (NANOS_PER_SEC as int) == nanos,
    {
        let rem = secs * NANOS_PER_SEC + nanos;
        assert(0 <= rem < NANOS_PER_DAY) by (nonlinear_arith)
            requires rem == secs * NANOS_PER_SEC + nanos, 0 <= secs < SECS_PER_DAY, 0 <= nanos < NANOS_PER_SEC;
        vstd::arithmetic::div_mod::lemma_fundamental_div_mod_converse(total, NANOS_PER_DAY as int, day, rem);
        vstd::arithmetic::div_mod::lemma_fundamental_div_mod_converse(rem, NANOS_PER_SEC as int, secs, nanos);
        assert(total == (day * SECS_PER_DAY + secs) * NANOS_PER_SEC + nanos) by (nonlinear_arith)
            requires total == day * NANOS_PER_DAY + secs * NANOS_PER_SEC + nanos;
        vstd::arithmetic::div_mod::lemma_fundamental_div_mod_converse(
            total, NANOS_PER_SEC as int, day * SECS_PER_DAY + secs, nanos);
    }

    /// A valid instant is the instant its own count of nanoseconds names.
    pub proof fn lemma_round_trip(self)
        requires
            self.wf(),
        ensures
            Self::in_range(self.since_epoch()),
            Self::from_since_epoch(self.since_epoch()) == self,
    {
        Self::lemma_split(self.since_epoch(), self.day as int, self.time.secs as int, self.time.nanos as int);
    }

    /// Counting nanoseconds from day 0 and back names the same count.
    pub proof fn lemma_from_since_epoch(total: int)
        requires
            Self::in_range(total),
        ensures
            Self::from_since_epoch(total).wf(),
            Self::from_since_epoch(total).since_epoch() == total,
    {
        let n = NANOS_PER_DAY as int;
        let s = NANOS_PER_SEC as int;
        let day = total / n;
        let rem = total % n;
        vstd::arithmetic::div_mod::lemma_fundamental_div_mod(total, n);
        vstd::arithmetic::div_mod::lemma_mod_bound(total, n);
        let secs = rem / s;
        let nanos = rem % s;
        vstd::arithmetic::div_mod::lemma_fundamental_div_mod(rem, s);
        vstd::arithmetic::div_mod::lemma_mod_bound(rem, s);
        assert(0 <= secs < SECS_PER_DAY) by (nonlinear_arith)
            requires rem == s * secs + nanos, 0 <= rem < n, 0 <= nanos < s, n == 86_400_000_000_000int,
                s == 1_000_000_000int;
        Self::lemma_split(total, day, secs, nanos);
    }

    /// `self + d`, or `None` where the day would leave the range of `i32`.
    pub fn checked_add(&self, d: Span) -> (r: Option<LocalDateTime>)
        requires
            self.wf(),
        ensures
            r == self.plus(d),
            r matches Some(t) ==> t.wf() && t.since_epoch() == self.since_epoch() + d.nanos,
    {
        let nod: u128 = self.time.nanos_since_midnight() as u128 + d.nanos as u128;
        let extra: u128 = nod / (NANOS_PER_DAY as u128);
        let rem: u128 = nod % (NANOS_PER_DAY as u128);
        let secs: u128 = rem / (NANOS_PER_SEC as u128);
        let nanos: u128 = rem % (NANOS_PER_SEC as u128);
        let ghost total = self.since_epoch() + d.nanos;
        proof {
            assert(nod == extra * NANOS_PER_DAY + rem) by (nonlinear_arith)
                requires extra as int == nod as int / (NANOS_PER_DAY as int), rem as int == nod as int % (NANOS_PER_DAY as int);
            assert(rem == secs * NANOS_PER_SEC + nanos) by (nonlinear_arith)
                requires secs as int == rem as int / (NANOS_PER_SEC as int), nanos as int == rem as int % (NANOS_PER_SEC as int);
            assert(secs < SECS_PER_DAY) by (nonlinear_arith)
                requires rem == secs * NANOS_PER_SEC + nanos, rem < NANOS_PER_DAY, nanos >= 0;
            assert(extra <= nod);
            assert(total == (self.day + extra) * NANOS_PER_DAY + secs * NANOS_PER_SEC + nanos) by (nonlinear_arith)
                requires total == self.day * NANOS_PER_DAY + nod, nod == extra * NANOS_PER_DAY + rem,
                    rem == secs * NANOS_PER_SEC + nanos;
            Self::lemma_split(total, self.day + extra, secs as int, nanos as int);
        }
        let new_day: i64 = self.day as i64 + extra as i64;
        if new_day > i32::MAX as i64 {
            return None;
        }
        let t = LocalDateTime { day: new_day as i32, time: TimeOfDay { secs: secs as u32, nanos: nanos as u32 } };
        proof {
            Self::lemma_split(total, t.day as int, secs as int, nanos as int);
        }
        Some(t)
    }

    /// Midnight at the start of the day after `self`, or `None` past the
    /// last day.
    pub fn next_midnight(&self) -> (r: Option<LocalDateTime>)
        ensures
            r is Some <==> self.day < i32::MAX,
            r matches Some(t) ==> t.day == self.day + 1 && t.wf() && t.time.is_midnight(),
    {
        if self.day < i32::MAX {
            Some(LocalDateTime { day: self.day + 1, time: TimeOfDay::midnight() })
        } else {
            None
        }
    }
}

/// Relies on chrono's `Local::now`: the date and time now on the local wall
/// clock, as chrono counts them. `num_seconds_from_midnight` stays below one
/// day and `nanosecond` below two seconds (a leap second).
#[verifier::external_body]
pub(crate) fn local_now_parts() -> (r: (i32, u32, u32))
    ensures
        r.1 < SECS_PER_DAY,
        r.2 < 2 * NANOS_PER_SEC,
{
    let now = Local::now().naive_local();
    (now.date().num_days_from_ce(), now.time().num_seconds_from_midnight(), now.time().nanosecond())
}

/// The local wall-clock time now.
pub fn local_now() -> (r: LocalDateTime)
    ensures
        r.wf(),
{
    let (day, secs, nanos) = local_now_parts();
    match LocalDateTime::from_parts(day, secs, nanos) {
        Some(t) => t,
        None => LocalDateTime { day, time: TimeOfDay::midnight() },
    }
}

/// Relies on chrono's `Local::from_local_datetime` and
/// `MappedLocalTime::earliest`: whether the wall-clock time names at least one
/// instant in the machine's time zone (false in a gap of a clock shift, or
/// outside chrono's range of dates). It depends on the time zone, so nothing
/// is stated of the answer.
#[verifier::external_body]
pub(crate) fn wall_clock_exists(t: &LocalDateTime) -> (r: bool)
{
    match (
        NaiveDate::from_num_days_from_ce_opt(t.day),
        NaiveTime::from_num_seconds_from_midnight_opt(t.time.secs, t.time.nanos),
    ) {
        (Some(d), Some(tm)) => Local.from_local_datetime(&d.and_time(tm)).earliest().is_some(),
        _ => false,
    }
}

} // verus!
