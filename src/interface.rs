//! The decisions of the interface around the companion: which key marks
//! which task done, which tasks are newly due, which done task's animation
//! plays, and how large the room is.

use vstd::prelude::*;
use crate::clock::Span;
use crate::lil_guy::Room;
use crate::task::{TaskKind, TaskType};
use crate::task_manager::{TaskDue, Tasks};

verus! {

broadcast use vstd::seq_lib::group_filter_ensures;

/// Keys go from `'1'` up to `'\u{ff}'`.
pub const MAX_KEYBINDS: usize = 207;

/// The tasks offered for completion: the current ones, then the past ones.
pub open spec fn offered(t: &Tasks) -> Seq<TaskDue> {
    t.current@ + t.past@
}

/// The key for the `i`-th offered task.
pub open spec fn key_for(i: int) -> char {
    (0x31 + i) as u8 as char
}

/// Gives each offered task, in order, the next key from `'1'` up; tasks past
/// the last key get none.
pub fn assign_keybinds(tasks: &Tasks) -> (r: Vec<(char, TaskType)>)
    ensures
        r@.len() == if offered(tasks).len() < MAX_KEYBINDS { offered(tasks).len() } else { MAX_KEYBINDS as nat },
        forall|i: int| 0 <= i < r@.len() ==> (#[trigger] r@[i]).0 == key_for(i) && r@[i].1@ == offered(tasks)[i].ty@,
{
    let mut r: Vec<(char, TaskType)> = Vec::new();
    let mut i: usize = 0;
    while i < tasks.current.len() && r.len() < MAX_KEYBINDS
        invariant
            i <= tasks.current@.len(),
            r@.len() == i,
            i <= MAX_KEYBINDS,
            forall|k: int| 0 <= k < r@.len() ==> (#[trigger] r@[k]).0 == key_for(k) && r@[k].1@ == offered(tasks)[k].ty@,
        decreases tasks.current@.len() - i,
    {
        let key = (0x31u8 + i as u8) as char;
        r.push((key, tasks.current[i].ty.clone()));
        i = i + 1;
    }
    let mut j: usize = 0;
    while j < tasks.past.len() && r.len() < MAX_KEYBINDS
        invariant
            j <= tasks.past@.len(),
            r@.len() <= MAX_KEYBINDS,
            r@.len() == i + j,
            i == tasks.current@.len() || r@.len() == MAX_KEYBINDS,
            i <= tasks.current@.len(),
            j > 0 ==> i == tasks.current@.len(),
            forall|k: int| 0 <= k < r@.len() ==> (#[trigger] r@[k]).0 == key_for(k) && r@[k].1@ == offered(tasks)[k].ty@,
        decreases tasks.past@.len() - j,
    {
        let n = r.len();
        let key = (0x31u8 + n as u8) as char;
        r.push((key, tasks.past[j].ty.clone()));
        j = j + 1;
    }
    r
}

/// Whether `before` holds a due with the type and instant of `d`.
pub open spec fn known(before: Seq<TaskDue>, d: TaskDue) -> bool {
    exists|i: int| 0 <= i < before.len() && before[i].ty@ == d.ty@ && before[i].when == d.when
}

/// The types of the dues of `after` that `before` does not hold, in order.
pub open spec fn arrivals(before: Seq<TaskDue>, after: Seq<TaskDue>) -> Seq<TaskKind> {
    after.filter(|d: TaskDue| !known(before, d)).map_values(|d: TaskDue| d.ty@)
}

fn is_known(before: &Vec<TaskDue>, d: &TaskDue) -> (r: bool)
    ensures
        r == known(before@, *d),
{
    let mut i: usize = 0;
    while i < before.len()
        invariant
            i <= before@.len(),
            forall|k: int| 0 <= k < i ==> !(before@[k].ty@ == d.ty@ && before@[k].when == d.when),
        decreases before@.len() - i,
    {
        if before[i].ty == d.ty && before[i].when == d.when {
            return true;
        }
        i = i + 1;
    }
    false
}

/// The types of the tasks of `after` that were not among `before`: the ones
/// to notify about.
pub fn newly_due(before: &Vec<TaskDue>, after: &Vec<TaskDue>) -> (r: Vec<TaskType>)
    ensures
        r@.map_values(|t: TaskType| t@) == arrivals(before@, after@),
{
    let mut r: Vec<TaskType> = Vec::new();
    let mut i: usize = 0;
    while i < after.len()
        invariant
            i <= after@.len(),
            r@.map_values(|t: TaskType| t@) == arrivals(before@, after@.subrange(0, i as int)),
        decreases after@.len() - i,
    {
        let ghost pre = after@.subrange(0, i as int);
        let ghost d = after@[i as int];
        assert(after@.subrange(0, i + 1) =~= pre.push(d));
        proof {
            pre.lemma_filter_push(d, |x: TaskDue| !known(before@, x));
        }
        if !is_known(before, &after[i]) {
            let ghost rv = r@;
            r.push(after[i].ty.clone());
            assert(r@.map_values(|t: TaskType| t@) =~= rv.map_values(|t: TaskType| t@).push(d.ty@));
            assert(arrivals(before@, after@.subrange(0, i + 1)) =~= arrivals(before@, pre).push(d.ty@));
        } else {
            assert(arrivals(before@, after@.subrange(0, i + 1)) =~= arrivals(before@, pre));
        }
        i = i + 1;
    }
    assert(after@.subrange(0, after@.len() as int) =~= after@);
    r
}

/// The animations of done tasks, played one at a time, each for a fixed
/// span. Times are nanoseconds on the monotonic clock.
#[derive(Debug)]
pub struct TaskAnimations {
    pub pending: Vec<TaskType>,
    pub current: Option<(TaskType, u64)>,
    pub duration: Span,
}

impl TaskAnimations {
    pub fn new(duration: Span) -> (r: TaskAnimations)
        ensures
            r.pending@.len() == 0,
            r.current is None,
            r.duration == duration,
    {
        TaskAnimations { pending: Vec::new(), current: None, duration }
    }

    /// Queues the animation of a done task.
    pub fn push(&mut self, t: TaskType)
        ensures
            final(self).pending@ == old(self).pending@.push(t),
            final(self).current == old(self).current,
            final(self).duration == old(self).duration,
    {
        self.pending.push(t);
    }

    /// At `now`: the playing animation ends once its end has passed, and
    /// the next queued one starts, to end `duration` later.
    pub fn advance(&mut self, now: u64)
        ensures
            final(self).duration == old(self).duration,
            ({
                let expired = old(self).current matches Some(c) && c.1 < now;
                let idle = old(self).current is None || expired;
                if idle && old(self).pending@.len() > 0 {
                    &&& final(self).current == Some((old(self).pending@[0], crate::lil_guy::plus_sat(now, old(self).duration.nanos)))
                    &&& final(self).pending@ == old(self).pending@.drop_first()
                } else {
                    &&& final(self).current == if expired { None } else { old(self).current }
                    &&& final(self).pending@ == old(self).pending@
                }
            }),
    {
        let expired = match &self.current {
            Some(c) => c.1 < now,
            None => false,
        };
        if expired {
            self.current = None;
        }
        if self.current.is_none() && self.pending.len() > 0 {
            let t = self.pending.remove(0);
            self.current = Some((t, now.saturating_add(self.duration.nanos)));
        }
    }

    /// The done task whose animation plays.
    pub fn ongoing(&self) -> (r: Option<&TaskType>)
        ensures
            match self.current {
                Some(c) => r == Some(&c.0),
                None => r is None,
            },
    {
        match &self.current {
            Some(c) => Some(&c.0),
            None => None,
        }
    }
}

/// The room on a screen `width` by `height`, with `keybinds` task lines under
/// it: across, from 0 to four short of the width; down, from 0 to the height
/// less the text area, of 12 lines or two more than the task lines.
pub fn room_for(width: u16, height: u16, keybinds: usize) -> (r: Room)
    requires
        keybinds <= MAX_KEYBINDS,
    ensures
        r.x_start == 0,
        r.x_end == width - 4,
        r.y_start == 0,
        r.y_end == height - if keybinds + 2 > 12 { keybinds + 2 } else { 12 },
{
    let text: i32 = if keybinds as i32 + 2 > 12 { keybinds as i32 + 2 } else { 12 };
    Room { x_start: 0, x_end: width as i32 - 4, y_start: 0, y_end: height as i32 - text }
}

} // verus!
