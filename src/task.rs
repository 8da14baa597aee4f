//! Tasks and the schedules that say when each is due.

use vstd::prelude::*;
use vstd::string::StringExecFns;
use crate::clock::{wall_clock_exists, LocalDateTime, Span, TimeOfDay, local_now};

verus! {

/// What a task is, as a mathematical value.
pub enum TaskKind {
    Eat,
    Drink,
    BrushTeeth,
    Shower,
    EyesRest,
    TakeMeds,
    Sleep,
    Bathroom,
    Other(Seq<char>),
}

/// What a task is: one of the built-in categories, or a free description.
#[derive(Debug)]
pub enum TaskType {
    Eat,
    Drink,
    BrushTeeth,
    Shower,
    EyesRest,
    TakeMeds,
    Sleep,
    Bathroom,
    Other(String),
}

impl View for TaskType {
    type V = TaskKind;

    open spec fn view(&self) -> TaskKind {
        match self {
            TaskType::Eat => TaskKind::Eat,
            TaskType::Drink => TaskKind::Drink,
            TaskType::BrushTeeth => TaskKind::BrushTeeth,
            TaskType::Shower => TaskKind::Shower,
            TaskType::EyesRest => TaskKind::EyesRest,
            TaskType::TakeMeds => TaskKind::TakeMeds,
            TaskType::Sleep => TaskKind::Sleep,
            TaskType::Bathroom => TaskKind::Bathroom,
            TaskType::Other(s) => TaskKind::Other(s@),
        }
    }
}

impl Clone for TaskType {
    fn clone(&self) -> (r: TaskType)
        ensures
            r == *self,
    {
        match self {
            TaskType::Eat => TaskType::Eat,
            TaskType::Drink => TaskType::Drink,
            TaskType::BrushTeeth => TaskType::BrushTeeth,
            TaskType::Shower => TaskType::Shower,
            TaskType::EyesRest => TaskType::EyesRest,
            TaskType::TakeMeds => TaskType::TakeMeds,
            TaskType::Sleep => TaskType::Sleep,
            TaskType::Bathroom => TaskType::Bathroom,
            TaskType::Other(s) => TaskType::Other(s.clone()),
        }
    }
}

impl PartialEq for TaskType {
    fn eq(&self, other: &TaskType) -> (r: bool)
        ensures
            r == (self@ == other@),
    {
        match self {
            TaskType::Eat => match other {
                TaskType::Eat => true,
                _ => false,
            },
            TaskType::Drink => match other {
                TaskType::Drink => true,
                _ => false,
            },
            TaskType::BrushTeeth => match other {
                TaskType::BrushTeeth => true,
                _ => false,
            },
            TaskType::Shower => match other {
                TaskType::Shower => true,
                _ => false,
            },
            TaskType::EyesRest => match other {
                TaskType::EyesRest => true,
                _ => false,
            },
            TaskType::TakeMeds => match other {
                TaskType::TakeMeds => true,
                _ => false,
            },
            TaskType::Sleep => match other {
                TaskType::Sleep => true,
                _ => false,
            },
            TaskType::Bathroom => match other {
                TaskType::Bathroom => true,
                _ => false,
            },
            TaskType::Other(a) => match other {
                TaskType::Other(b) => a.eq(b),
                _ => false,
            },
        }
    }
}

impl vstd::std_specs::cmp::PartialEqSpecImpl for TaskType {
    open spec fn obeys_eq_spec() -> bool {
        true
    }

    open spec fn eq_spec(&self, other: &TaskType) -> bool {
        self@ == other@
    }
}

impl Eq for TaskType {
}

/// What the companion says when a task of this kind is due.
pub open spec fn plea(k: TaskKind) -> Seq<char> {
    match k {
        TaskKind::Eat => "I'm hungry!"@,
        TaskKind::Drink => "I'm thirsty!"@,
        TaskKind::BrushTeeth => "My breath smells!"@,
        TaskKind::Shower => "I'm stinky!"@,
        TaskKind::EyesRest => "My eyes are tired!"@,
        TaskKind::TakeMeds => "I don't feel good >.<"@,
        TaskKind::Sleep => "I'm eepy!"@,
        TaskKind::Bathroom => "I have to go!"@,
        TaskKind::Other(d) => "I need to "@ + d,
    }
}

impl TaskType {
    /// The words for a due task of this kind.
    pub fn message(&self) -> (r: String)
        ensures
            r@ == plea(self@),
    {
        match self {
            TaskType::Eat => String::from_str("I'm hungry!"),
            TaskType::Drink => String::from_str("I'm thirsty!"),
            TaskType::BrushTeeth => String::from_str("My breath smells!"),
            TaskType::Shower => String::from_str("I'm stinky!"),
            TaskType::EyesRest => String::from_str("My eyes are tired!"),
            TaskType::TakeMeds => String::from_str("I don't feel good >.<"),
            TaskType::Sleep => String::from_str("I'm eepy!"),
            TaskType::Bathroom => String::from_str("I have to go!"),
            TaskType::Other(d) => String::from_str("I need to ").concat(d.as_str()),
        }
    }
}

/// Why a schedule gives no due instant.
#[derive(Clone, Copy, Debug, PartialEq, Eq, Structural)]
pub enum ScheduleError {
    /// A schedule of times of day holds no time.
    NoTimes,
    /// The due instant lies past the last representable day.
    OutOfRange,
}

/// When a task recurs: at fixed times of day, or a fixed span after it was
/// last done.
#[derive(Debug)]
pub enum Schedule {
    /// Times of day, in ascending order, without repeats.
    Times(Vec<TimeOfDay>),
    Interval(Span),
}

/// Each time is valid and each comes strictly before the next.
pub open spec fn ascending_times(ts: Seq<TimeOfDay>) -> bool {
    &&& forall|i: int| 0 <= i < ts.len() ==> (#[trigger] ts[i]).wf()
    &&& forall|i: int, j: int| 0 <= i < j < ts.len() ==> (#[trigger] ts[j]).later_than(#[trigger] ts[i])
}

/// The first time of `ts` that comes after `t`.
pub open spec fn first_later(ts: Seq<TimeOfDay>, t: TimeOfDay) -> Option<TimeOfDay>
    decreases ts.len(),
{
    if ts.len() == 0 {
        None
    } else if ts[0].later_than(t) {
        Some(ts[0])
    } else {
        first_later(ts.drop_first(), t)
    }
}

impl Schedule {
    pub open spec fn wf(&self) -> bool {
        match self {
            Schedule::Times(ts) => ascending_times(ts@),
            Schedule::Interval(_) => true,
        }
    }

    /// The due instant that the rule gives for `reference`, before the
    /// local time zone is asked whether that wall-clock time exists.
    pub open spec fn rule_due(&self, reference: LocalDateTime) -> Result<LocalDateTime, ScheduleError> {
        match self {
            Schedule::Times(ts) => match first_later(ts@, reference.time) {
                Some(t) => Ok(LocalDateTime { day: reference.day, time: t }),
                None => if ts@.len() == 0 {
                    Err(ScheduleError::NoTimes)
                } else if reference.day < i32::MAX {
                    Ok(LocalDateTime { day: (reference.day + 1) as i32, time: ts@[0] })
                } else {
                    Err(ScheduleError::OutOfRange)
                },
            },
            Schedule::Interval(d) => match reference.plus(*d) {
                Some(t) => Ok(t),
                None => Err(ScheduleError::OutOfRange),
            },
        }
    }

    /// The due instant for `reference`, where `exists` tells whether the
    /// rule's wall-clock time exists in the local time zone. A time of day
    /// that does not exist (a clock shift skipped it) gives the next
    /// midnight after `reference` instead.
    pub open spec fn due(&self, reference: LocalDateTime, exists: bool) -> Result<LocalDateTime, ScheduleError> {
        match self.rule_due(reference) {
            Err(e) => Err(e),
            Ok(c) => if self is Interval || exists {
                Ok(c)
            } else if reference.day < i32::MAX {
                Ok(LocalDateTime { day: (reference.day + 1) as i32, time: TimeOfDay { secs: 0, nanos: 0 } })
            } else {
                Err(ScheduleError::OutOfRange)
            },
        }
    }
}


impl Schedule {
    /// The due instant that the rule gives for `reference`.
    pub fn rule_due_after(&self, reference: &LocalDateTime) -> (r: Result<LocalDateTime, ScheduleError>)
        requires
            self.wf(),
            reference.wf(),
        ensures
            r == self.rule_due(*reference),
            r matches Ok(t) ==> t.wf(),
    {
        match self {
            Schedule::Times(ts) => {
                let n = ts.len();
                let mut i: usize = 0;
                assert(ts@.subrange(0, n as int) =~= ts@);
                while i < n
                    invariant
                        n == ts@.len(),
                        i <= n,
                        *self == Schedule::Times(*ts),
                        ascending_times(ts@),
                        reference.wf(),
                        first_later(ts@.subrange(i as int, n as int), reference.time)
                            == first_later(ts@, reference.time),
                    decreases n - i,
                {
                    let ghost rest = ts@.subrange(i as int, n as int);
                    assert(rest.drop_first() =~= ts@.subrange(i + 1, n as int));
                    assert(rest[0] == ts@[i as int]);
                    if ts[i].is_later_than(&reference.time) {
                        assert(first_later(rest, reference.time) == Some(ts@[i as int]));
                        return Ok(LocalDateTime { day: reference.day, time: ts[i] });
                    }
                    i = i + 1;
                }
                assert(ts@.subrange(n as int, n as int) =~= Seq::<TimeOfDay>::empty());
                if n == 0 {
                    Err(ScheduleError::NoTimes)
                } else if reference.day < i32::MAX {
                    Ok(LocalDateTime { day: reference.day + 1, time: ts[0] })
                } else {
                    Err(ScheduleError::OutOfRange)
                }
            },
            Schedule::Interval(d) => match reference.checked_add(*d) {
                Some(t) => Ok(t),
                None => Err(ScheduleError::OutOfRange),
            },
        }
    }

    /// The due instant for `reference`, given whether the rule's wall-clock
    /// time exists in the local time zone (see [`Schedule::due`]).
    pub fn due_given(&self, reference: &LocalDateTime, exists: bool) -> (r: Result<LocalDateTime, ScheduleError>)
        requires
            self.wf(),
            reference.wf(),
        ensures
            r == self.due(*reference, exists),
            r matches Ok(t) ==> t.wf(),
    {
        match self.rule_due_after(reference) {
            Err(e) => Err(e),
            Ok(c) => {
                if matches!(self, Schedule::Interval(_)) || exists {
                    Ok(c)
                } else {
                    match reference.next_midnight() {
                        Some(m) => Ok(m),
                        None => Err(ScheduleError::OutOfRange),
                    }
                }
            },
        }
    }

    /// The next due instant after `reference`: the next time of day of the
    /// set (tomorrow's first where none is left today), or `reference` plus
    /// the interval. Where a clock shift skips the wall-clock time, the next
    /// midnight after `reference` stands in for it.
    pub fn next_instance(&self, reference: &LocalDateTime) -> (r: Result<LocalDateTime, ScheduleError>)
        requires
            self.wf(),
            reference.wf(),
        ensures
            exists|exists: bool| r == self.due(*reference, exists),
            r matches Ok(t) ==> t.wf(),
    {
        let exists = match self.rule_due_after(reference) {
            Ok(c) => wall_clock_exists(&c),
            Err(_) => true,
        };
        self.due_given(reference, exists)
    }
}


/// The first time of `ts` later than `t` is later than `t`; where there is
/// none, no time of `ts` is.
pub proof fn lemma_first_later(ts: Seq<TimeOfDay>, t: TimeOfDay)
    ensures
        first_later(ts, t) matches Some(x) ==> x.later_than(t) && ts.contains(x),
        first_later(ts, t) is None ==> forall|j: int| 0 <= j < ts.len() ==> !(#[trigger] ts[j]).later_than(t),
    decreases ts.len(),
{
    if ts.len() > 0 && !ts[0].later_than(t) {
        lemma_first_later(ts.drop_first(), t);
        if first_later(ts, t) is None {
            assert forall|j: int| 0 <= j < ts.len() implies !(#[trigger] ts[j]).later_than(t) by {
                if j > 0 {
                    assert(ts[j] == ts.drop_first()[j - 1]);
                }
            }
        } else {
            assert(ts.drop_first().contains(first_later(ts, t)->Some_0));
        }
    }
}

/// A schedule of times of day never gives an instant whose time of day is
/// the same as or earlier than the reference's unless it also moves to a
/// later day.
pub proof fn lemma_times_move_forward(ts: Vec<TimeOfDay>, reference: LocalDateTime, exists: bool)
    requires
        ascending_times(ts@),
        reference.wf(),
    ensures
        Schedule::Times(ts).due(reference, exists) matches Ok(r) ==> r.day > reference.day || (r.day
            == reference.day && r.time.later_than(reference.time)),
{
    lemma_first_later(ts@, reference.time);
}

/// An interval schedule gives exactly the reference plus the interval,
/// wherever that instant is representable, and an error otherwise.
pub proof fn lemma_interval_exact(d: Span, reference: LocalDateTime, exists: bool)
    requires
        reference.wf(),
    ensures
        Schedule::Interval(d).due(reference, exists) is Ok <==> LocalDateTime::in_range(
            reference.since_epoch() + d.nanos,
        ),
        Schedule::Interval(d).due(reference, exists) matches Ok(r) ==> r.wf() && r.since_epoch()
            == reference.since_epoch() + d.nanos,
{
    let total = reference.since_epoch() + d.nanos;
    if LocalDateTime::in_range(total) {
        LocalDateTime::lemma_from_since_epoch(total);
    }
}

/// A task: what it is, when it recurs, and when it was last done.
#[derive(Debug)]
pub struct Task {
    pub ty: TaskType,
    pub schedule: Schedule,
    pub last_done: LocalDateTime,
}

impl Task {
    pub open spec fn wf(&self) -> bool {
        self.schedule.wf() && self.last_done.wf()
    }

    /// A task that counts as done now.
    pub fn new(ty: TaskType, schedule: Schedule) -> (r: Task)
        requires
            schedule.wf(),
        ensures
            r.wf(),
            r.ty == ty,
            r.schedule == schedule,
    {
        Task { ty, schedule, last_done: local_now() }
    }

    pub fn ty(&self) -> (r: &TaskType)
        ensures
            *r == self.ty,
    {
        &self.ty
    }

    pub fn schedule(&self) -> (r: &Schedule)
        ensures
            *r == self.schedule,
    {
        &self.schedule
    }

    /// Marks the task as done at `now`.
    pub fn complete(&mut self, now: LocalDateTime)
        ensures
            final(self).last_done == now,
            final(self).ty == old(self).ty,
            final(self).schedule == old(self).schedule,
    {
        self.last_done = now;
    }
}

} // verus!
