//! The task ledger: which tasks are past due, due now, or still to come.

use vstd::prelude::*;
use crate::clock::{LocalDateTime, Span};
use crate::config::Config;
use crate::task::{first_later, Schedule, ScheduleError, Task, TaskType};

verus! {

broadcast use vstd::seq_lib::group_filter_ensures;

/// A task's type and the instant it is due in the current cycle.
#[derive(Debug)]
pub struct TaskDue {
    pub ty: TaskType,
    pub when: LocalDateTime,
}

/// Where a due instant stands relative to now.
#[derive(Clone, Copy, Debug, PartialEq, Eq, Structural)]
pub enum Bucket {
    /// Overdue for the whole threshold or longer.
    Past,
    /// Due, and overdue for less than the threshold.
    Current,
    /// Not yet due.
    Upcoming,
}

/// The bucket of a task due at `when`, at `now`.
pub open spec fn bucket_of(when: LocalDateTime, now: LocalDateTime, threshold: Span) -> Bucket {
    if when.since_epoch() > now.since_epoch() {
        Bucket::Upcoming
    } else if now.since_epoch() - when.since_epoch() < threshold.nanos {
        Bucket::Current
    } else {
        Bucket::Past
    }
}

/// The dues of `ds` that fall in bucket `b`, in their order.
pub open spec fn in_bucket(ds: Seq<TaskDue>, now: LocalDateTime, threshold: Span, b: Bucket) -> Seq<TaskDue> {
    ds.filter(|d: TaskDue| bucket_of(d.when, now, threshold) == b)
}

/// The three lists of a classification.
#[derive(Debug)]
pub struct Tasks {
    pub past: Vec<TaskDue>,
    pub current: Vec<TaskDue>,
    pub upcoming: Vec<TaskDue>,
}

impl Tasks {
    /// `self` is the classification of `ds` at `now`.
    pub open spec fn classifies(&self, ds: Seq<TaskDue>, now: LocalDateTime, threshold: Span) -> bool {
        &&& self.past@ == in_bucket(ds, now, threshold, Bucket::Past)
        &&& self.current@ == in_bucket(ds, now, threshold, Bucket::Current)
        &&& self.upcoming@ == in_bucket(ds, now, threshold, Bucket::Upcoming)
    }

    /// No task in any list.
    pub fn empty() -> (r: Tasks)
        ensures
            r.past@.len() == 0,
            r.current@.len() == 0,
            r.upcoming@.len() == 0,
    {
        Tasks { past: Vec::new(), current: Vec::new(), upcoming: Vec::new() }
    }
}

/// The due instants of `tasks` in order, where `exists[i]` tells whether the
/// wall-clock time of task `i`'s rule exists; the first error otherwise.
pub open spec fn dues_of(tasks: Seq<Task>, exists: Seq<bool>) -> Result<Seq<TaskDue>, ScheduleError>
    decreases tasks.len(),
{
    if tasks.len() == 0 {
        Ok(Seq::empty())
    } else {
        match dues_of(tasks.drop_last(), exists) {
            Err(e) => Err(e),
            Ok(ds) => match tasks.last().schedule.due(tasks.last().last_done, exists[tasks.len() - 1]) {
                Err(e) => Err(e),
                Ok(w) => Ok(ds.push(TaskDue { ty: tasks.last().ty, when: w })),
            },
        }
    }
}

/// Owns the tasks and classifies them.
pub struct TaskManager {
    pub tasks: Vec<Task>,
    pub task_threshold: Span,
}

impl TaskManager {
    pub open spec fn wf(&self) -> bool {
        forall|i: int| 0 <= i < self.tasks@.len() ==> (#[trigger] self.tasks@[i]).wf()
    }

    /// A ledger that takes over the configured tasks, leaving none in
    /// `config`, and counts tasks overdue by the configured timeout or more as
    /// past.
    pub fn new(config: &mut Config) -> (r: TaskManager)
        requires
            old(config).wf(),
        ensures
            r.wf(),
            r.tasks@ == old(config).tasks@,
            r.task_threshold == old(config).task_timeout,
            final(config).tasks@.len() == 0,
            final(config).character == old(config).character,
            final(config).task_timeout == old(config).task_timeout,
            final(config).task_timeout_max == old(config).task_timeout_max,
            final(config).idle_animation_time_min == old(config).idle_animation_time_min,
            final(config).idle_animation_time_max == old(config).idle_animation_time_max,
            final(config).task_animation_duration == old(config).task_animation_duration,
            final(config).colour == old(config).colour,
    {
        let mut tasks: Vec<Task> = Vec::new();
        std::mem::swap(&mut tasks, &mut config.tasks);
        TaskManager { tasks, task_threshold: config.task_timeout }
    }

    /// Sorts `dues` into past, current and upcoming at `now`.
    pub fn classify(&self, dues: Vec<TaskDue>, now: &LocalDateTime) -> (r: Tasks)
        requires
            now.wf(),
            forall|i: int| 0 <= i < dues@.len() ==> (#[trigger] dues@[i]).when.wf(),
        ensures
            r.classifies(dues@, *now, self.task_threshold),
    {
        let mut r = Tasks::empty();
        let mut dues = dues;
        let ghost all = dues@;
        let mut rest: Vec<TaskDue> = Vec::new();
        // Take the dues from the back, so that each move is O(1), then
        // place them from the front.
        while dues.len() > 0
            invariant
                all == dues@ + rest@.reverse(),
            decreases dues.len(),
        {
            let d = dues.pop().unwrap();
            let ghost before = rest@;
            rest.push(d);
            proof {
                assert(rest@.reverse() =~= seq![d] + before.reverse()) by {
                    assert forall|k: int| 0 <= k < rest@.len() implies rest@.reverse()[k] == (seq![d]
                        + before.reverse())[k] by {}
                }
                assert(all =~= dues@ + rest@.reverse());
            }
        }
        assert(all =~= rest@.reverse());
        let ghost th = self.task_threshold;
        let ghost mut placed: Seq<TaskDue> = Seq::empty();
        assert(placed =~= all.subrange(0, 0));
        while rest.len() > 0
            invariant
                now.wf(),
                forall|i: int| 0 <= i < all.len() ==> (#[trigger] all[i]).when.wf(),
                all == placed + rest@.reverse(),
                th == self.task_threshold,
                r.past@ == in_bucket(placed, *now, th, Bucket::Past),
                r.current@ == in_bucket(placed, *now, th, Bucket::Current),
                r.upcoming@ == in_bucket(placed, *now, th, Bucket::Upcoming),
            decreases rest.len(),
        {
            let ghost before = rest@;
            let d = rest.pop().unwrap();
            proof {
                assert(before.reverse() =~= seq![d] + rest@.reverse()) by {
                    assert forall|k: int| 0 <= k < before.len() implies before.reverse()[k] == (seq![d]
                        + rest@.reverse())[k] by {}
                }
                assert(all[placed.len() as int] == d);
                placed.lemma_filter_push(d, |x: TaskDue| bucket_of(x.when, *now, th) == Bucket::Past);
                placed.lemma_filter_push(d, |x: TaskDue| bucket_of(x.when, *now, th) == Bucket::Current);
                placed.lemma_filter_push(d, |x: TaskDue| bucket_of(x.when, *now, th) == Bucket::Upcoming);
                placed = placed.push(d);
                assert(all =~= placed + rest@.reverse());
            }
            if d.when.is_after(now) {
                r.upcoming.push(d);
            } else if now.nanos_since(&d.when) < self.task_threshold.nanos as i128 {
                r.current.push(d);
            } else {
                r.past.push(d);
            }
        }
        assert(placed =~= all);
        r
    }

    /// The due instant of every task, each resolved from when it was last
    /// done, in the order of the tasks; the first schedule error otherwise.
    pub fn dues(&self) -> (r: Result<Vec<TaskDue>, ScheduleError>)
        requires
            self.wf(),
        ensures
            exists|flags: Seq<bool>|
                flags.len() == self.tasks@.len() && #[trigger] dues_of(self.tasks@, flags) == match r {
                    Ok(ds) => Ok::<Seq<TaskDue>, ScheduleError>(ds@),
                    Err(e) => Err(e),
                },
            r matches Ok(ds) ==> forall|i: int| 0 <= i < ds@.len() ==> (#[trigger] ds@[i]).when.wf(),
    {
        let n = self.tasks.len();
        let mut ds: Vec<TaskDue> = Vec::new();
        let ghost mut flags: Seq<bool> = Seq::empty();
        let mut i: usize = 0;
        while i < n
            invariant
                n == self.tasks@.len(),
                self.wf(),
                i <= n,
                flags.len() == i,
                dues_of(self.tasks@.subrange(0, i as int), flags) == Ok::<Seq<TaskDue>, ScheduleError>(ds@),
                forall|k: int| 0 <= k < ds@.len() ==> (#[trigger] ds@[k]).when.wf(),
            decreases n - i,
        {
            let task = &self.tasks[i];
            let ghost pre = self.tasks@.subrange(0, i as int);
            let ghost cur = self.tasks@.subrange(0, i + 1);
            assert(cur.drop_last() =~= pre);
            let w = task.schedule.next_instance(&task.last_done);
            let ghost b = choose|b: bool| w == task.schedule.due(task.last_done, b);
            match w {
                Err(e) => {
                    proof {
                        let full = flags.push(b) + Seq::new((n - i - 1) as nat, |k: int| true);
                        assert(full.subrange(0, i as int) =~= flags);
                        lemma_dues_of_prefix_flags(pre, full, flags);
                        lemma_dues_of_error_persists(self.tasks@, full, i + 1);
                        assert(full[i as int] == b);
                    }
                    return Err(e);
                },
                Ok(when) => {
                    ds.push(TaskDue { ty: task.ty.clone(), when });
                    proof {
                        let nf = flags.push(b);
                        assert(nf.subrange(0, i as int) =~= flags);
                        lemma_dues_of_prefix_flags(pre, nf, flags);
                        assert(nf[i as int] == b);
                        flags = nf;
                    }
                },
            }
            i = i + 1;
        }
        assert(self.tasks@.subrange(0, n as int) =~= self.tasks@);
        Ok(ds)
    }

    /// Classifies every task at `now`: its due instant is resolved from when
    /// it was last done, and compared with `now`. A schedule error aborts the
    /// whole classification.
    pub fn tasks(&self, now: &LocalDateTime) -> (r: Result<Tasks, ScheduleError>)
        requires
            self.wf(),
            now.wf(),
        ensures
            exists|flags: Seq<bool>|
                flags.len() == self.tasks@.len() && match #[trigger] dues_of(self.tasks@, flags) {
                    Ok(ds) => r matches Ok(t) && t.classifies(ds, *now, self.task_threshold),
                    Err(e) => r == Err::<Tasks, ScheduleError>(e),
                },
    {
        match self.dues() {
            Ok(ds) => Ok(self.classify(ds, now)),
            Err(e) => Err(e),
        }
    }

    /// Marks every task of type `ty` as done at `now`.
    pub fn complete_tasks(&mut self, ty: &TaskType, now: LocalDateTime)
        requires
            old(self).wf(),
            now.wf(),
        ensures
            final(self).wf(),
            final(self).task_threshold == old(self).task_threshold,
            final(self).tasks@.len() == old(self).tasks@.len(),
            forall|i: int| 0 <= i < old(self).tasks@.len() ==> {
                let (a, b) = (#[trigger] final(self).tasks@[i], old(self).tasks@[i]);
                &&& a.ty == b.ty
                &&& a.schedule == b.schedule
                &&& a.last_done == if b.ty@ == ty@ { now } else { b.last_done }
            },
    {
        let n = self.tasks.len();
        let mut i: usize = 0;
        while i < n
            invariant
                n == self.tasks@.len(),
                n == old(self).tasks@.len(),
                i <= n,
                now.wf(),
                self.task_threshold == old(self).task_threshold,
                self.wf(),
                forall|k: int| 0 <= k < n ==> {
                    let (a, b) = (#[trigger] self.tasks@[k], old(self).tasks@[k]);
                    &&& a.ty == b.ty
                    &&& a.schedule == b.schedule
                    &&& a.last_done == if k < i && b.ty@ == ty@ { now } else { b.last_done }
                },
            decreases n - i,
        {
            if self.tasks[i].ty == *ty {
                self.tasks[i].complete(now);
            }
            i = i + 1;
        }
    }
}

/// `dues_of` looks only at as many flags as there are tasks.
pub proof fn lemma_dues_of_prefix_flags(tasks: Seq<Task>, f: Seq<bool>, g: Seq<bool>)
    requires
        tasks.len() <= g.len() <= f.len(),
        f.subrange(0, g.len() as int) == g,
    ensures
        dues_of(tasks, f) == dues_of(tasks, g),
    decreases tasks.len(),
{
    if tasks.len() > 0 {
        lemma_dues_of_prefix_flags(tasks.drop_last(), f, g);
        assert(f[tasks.len() - 1] == f.subrange(0, g.len() as int)[tasks.len() - 1]);
    }
}

/// Once the first `k` tasks give an error, so do all of them.
pub proof fn lemma_dues_of_error_persists(tasks: Seq<Task>, f: Seq<bool>, k: int)
    requires
        0 <= k <= tasks.len(),
        dues_of(tasks.subrange(0, k), f) is Err,
    ensures
        dues_of(tasks, f) == dues_of(tasks.subrange(0, k), f),
    decreases tasks.len() - k,
{
    if k < tasks.len() {
        let next = tasks.subrange(0, k + 1);
        assert(next.drop_last() =~= tasks.subrange(0, k));
        lemma_dues_of_error_persists(tasks, f, k + 1);
    } else {
        assert(tasks.subrange(0, k) =~= tasks);
    }
}

} // verus!

verus! {

/// Each classification puts every due in exactly one of the three lists:
/// the lists hold only dues of their own bucket, and together as many as
/// there are dues.
pub proof fn lemma_partition(t: Tasks, ds: Seq<TaskDue>, now: LocalDateTime, threshold: Span)
    requires
        t.classifies(ds, now, threshold),
    ensures
        t.past@.len() + t.current@.len() + t.upcoming@.len() == ds.len(),
        forall|i: int| 0 <= i < t.past@.len() ==> bucket_of((#[trigger] t.past@[i]).when, now, threshold) == Bucket::Past,
        forall|i: int| 0 <= i < t.current@.len() ==> bucket_of((#[trigger] t.current@[i]).when, now, threshold)
            == Bucket::Current,
        forall|i: int| 0 <= i < t.upcoming@.len() ==> bucket_of((#[trigger] t.upcoming@[i]).when, now, threshold)
            == Bucket::Upcoming,
{
    lemma_bucket_lengths(ds, now, threshold);
}

/// The three buckets of `ds` hold as many dues as `ds`.
pub proof fn lemma_bucket_lengths(ds: Seq<TaskDue>, now: LocalDateTime, threshold: Span)
    ensures
        in_bucket(ds, now, threshold, Bucket::Past).len() + in_bucket(ds, now, threshold, Bucket::Current).len()
            + in_bucket(ds, now, threshold, Bucket::Upcoming).len() == ds.len(),
    decreases ds.len(),
{
    if ds.len() > 0 {
        let init = ds.drop_last();
        let d = ds.last();
        lemma_bucket_lengths(init, now, threshold);
        assert(init.push(d) =~= ds);
        init.lemma_filter_push(d, |x: TaskDue| bucket_of(x.when, now, threshold) == Bucket::Past);
        init.lemma_filter_push(d, |x: TaskDue| bucket_of(x.when, now, threshold) == Bucket::Current);
        init.lemma_filter_push(d, |x: TaskDue| bucket_of(x.when, now, threshold) == Bucket::Upcoming);
    }
}

/// Where the dues resolve, there is one for each task, with the task's type
/// and the instant its schedule gives from when it was last done.
pub proof fn lemma_dues_of_ok(tasks: Seq<Task>, flags: Seq<bool>)
    requires
        dues_of(tasks, flags) is Ok,
    ensures
        dues_of(tasks, flags)->Ok_0.len() == tasks.len(),
        forall|i: int| 0 <= i < tasks.len() ==> {
            let d = #[trigger] dues_of(tasks, flags)->Ok_0[i];
            &&& d.ty == tasks[i].ty
            &&& tasks[i].schedule.due(tasks[i].last_done, flags[i]) == Ok::<LocalDateTime, ScheduleError>(d.when)
        },
    decreases tasks.len(),
{
    if tasks.len() > 0 {
        lemma_dues_of_ok(tasks.drop_last(), flags);
    }
}

/// Right after a task is done, its next due instant lies in the future: a
/// time-of-day schedule moves on to a later time, and an interval schedule
/// with a positive interval moves forward by it.
pub proof fn lemma_done_is_upcoming(s: Schedule, now: LocalDateTime, exists: bool, threshold: Span)
    requires
        s.wf(),
        now.wf(),
        s matches Schedule::Interval(d) ==> d.nanos > 0,
    ensures
        s.due(now, exists) matches Ok(w) ==> bucket_of(w, now, threshold) == Bucket::Upcoming,
{
    match s {
        Schedule::Times(ts) => {
            crate::task::lemma_times_move_forward(ts, now, exists);
            if s.due(now, exists) is Ok {
                let w = s.due(now, exists)->Ok_0;
                crate::task::lemma_first_later(ts@, now.time);
                if first_later(ts@, now.time) is None {
                    assert(ts@.contains(ts@[0]));
                }
                assert(w.wf());
                assert(w.since_epoch() > now.since_epoch()) by (nonlinear_arith)
                    requires
                        w.day > now.day || (w.day == now.day && w.time.since_midnight()
                            > now.time.since_midnight()),
                        0 <= now.time.since_midnight() < crate::clock::NANOS_PER_DAY,
                        0 <= w.time.since_midnight(),
                        w.since_epoch() == w.day * crate::clock::NANOS_PER_DAY + w.time.since_midnight(),
                        now.since_epoch() == now.day * crate::clock::NANOS_PER_DAY + now.time.since_midnight();
            }
        },
        Schedule::Interval(d) => {
            crate::task::lemma_interval_exact(d, now, exists);
        },
    }
}

/// After the tasks of one type are marked done at `now`, a classification
/// at `now` puts none of them among the past or current tasks, so long as
/// each interval of theirs is positive.
pub proof fn lemma_completed_leave_due_lists(
    tasks: Seq<Task>,
    flags: Seq<bool>,
    ty: TaskType,
    now: LocalDateTime,
    threshold: Span,
    t: Tasks,
)
    requires
        now.wf(),
        forall|i: int| 0 <= i < tasks.len() ==> (#[trigger] tasks[i]).wf(),
        forall|i: int|
            0 <= i < tasks.len() && (#[trigger] tasks[i]).ty@ == ty@ ==> tasks[i].last_done == now && (
            tasks[i].schedule matches Schedule::Interval(d) ==> d.nanos > 0),
        dues_of(tasks, flags) matches Ok(ds) && t.classifies(ds, now, threshold),
    ensures
        forall|i: int| 0 <= i < t.past@.len() ==> (#[trigger] t.past@[i]).ty@ != ty@,
        forall|i: int| 0 <= i < t.current@.len() ==> (#[trigger] t.current@[i]).ty@ != ty@,
{
    let ds = dues_of(tasks, flags)->Ok_0;
    lemma_dues_of_ok(tasks, flags);
    lemma_partition(t, ds, now, threshold);
    assert forall|j: int| 0 <= j < ds.len() && (#[trigger] ds[j]).ty@ == ty@ implies bucket_of(
        ds[j].when,
        now,
        threshold,
    ) == Bucket::Upcoming by {
        lemma_done_is_upcoming(tasks[j].schedule, now, flags[j], threshold);
        assert(ds.len() == tasks.len());
    }
    lemma_filter_within(ds, |x: TaskDue| bucket_of(x.when, now, threshold) == Bucket::Past);
    lemma_filter_within(ds, |x: TaskDue| bucket_of(x.when, now, threshold) == Bucket::Current);
    assert forall|i: int| 0 <= i < t.past@.len() implies (#[trigger] t.past@[i]).ty@ != ty@ by {
        assert(ds.contains(t.past@[i]));
    }
    assert forall|i: int| 0 <= i < t.current@.len() implies (#[trigger] t.current@[i]).ty@ != ty@ by {
        assert(ds.contains(t.current@[i]));
    }
}

/// What a filter keeps was in the sequence.
pub proof fn lemma_filter_within(ds: Seq<TaskDue>, pred: spec_fn(TaskDue) -> bool)
    ensures
        forall|i: int| 0 <= i < ds.filter(pred).len() ==> ds.contains(#[trigger] ds.filter(pred)[i]),
    decreases ds.len(),
{
    reveal(Seq::filter);
    if ds.len() > 0 {
        let init = ds.drop_last();
        lemma_filter_within(init, pred);
        assert forall|i: int| 0 <= i < ds.filter(pred).len() implies ds.contains(#[trigger] ds.filter(pred)[i]) by {
            if i < init.filter(pred).len() {
                let k = choose|k: int| 0 <= k < init.len() && init[k] == init.filter(pred)[i];
                assert(ds[k] == init[k]);
            } else {
                assert(ds[ds.len() - 1] == ds.last());
            }
        }
    }
}

} // verus!
