//! The companion's state machine: which animation it plays, which frame,
//! and where it stands.

use vstd::prelude::*;
use rand::Rng;
use crate::animation::{lookup, resolve, AnimKey, AnimationFrame, Animations, FrameView, LilGuyAnimation};
use crate::animation_text::ParseError;
use crate::clock::Span;
use crate::task::{TaskKind, TaskType};
use crate::task_manager::TaskDue;

verus! {

#[verifier::external_type_specification]
#[verifier::external_body]
pub struct ExInstant(std::time::Instant);

/// Relies on `std::time::Instant::now`: a reading of the monotonic clock.
#[verifier::external_body]
fn instant_now() -> (r: std::time::Instant) {
    std::time::Instant::now()
}

/// Relies on `std::time::Instant::elapsed`: the nanoseconds since `origin`
/// on the monotonic clock, held at `u64::MAX`.
#[verifier::external_body]
fn nanos_since(origin: &std::time::Instant) -> (r: u64) {
    u64::try_from(origin.elapsed().as_nanos()).unwrap_or(u64::MAX)
}

/// Relies on rand's `Rng::gen_range` on the thread's generator: a number
/// drawn uniformly from `lo..hi` (it panics on an empty range).
#[verifier::external_body]
fn random_below(lo: u64, hi: u64) -> (r: u64)
    requires
        lo < hi,
    ensures
        lo <= r < hi,
{
    rand::thread_rng().gen_range(lo..hi)
}

/// Relies on rand's `Rng::gen_ratio` on the thread's generator: true with
/// probability `numerator / denominator` (it panics where the denominator is
/// zero or below the numerator).
#[verifier::external_body]
fn random_ratio(numerator: u32, denominator: u32) -> (r: bool)
    requires
        0 < denominator,
        numerator <= denominator,
{
    rand::thread_rng().gen_ratio(numerator, denominator)
}

/// The horizontal and vertical extent of the room the companion walks in.
#[derive(Clone, Copy, Debug, PartialEq, Eq, Structural)]
pub struct Room {
    pub x_start: i32,
    pub x_end: i32,
    pub y_start: i32,
    pub y_end: i32,
}

/// The draws for an idle reroll: the delay to the next reroll, whether to
/// walk, to which side, and, where not walking, whether to stand idle.
#[derive(Clone, Copy, Debug, PartialEq, Eq, Structural)]
pub struct IdleRoll {
    pub delay: u64,
    pub walk: bool,
    pub left: bool,
    pub idle: bool,
}

/// Happiness below this, in millionths, makes the companion sad.
pub const SAD_BELOW: u32 = 600_000;

/// The sadness level for happiness `h` (in millionths, below `SAD_BELOW`):
/// `floor((1 - h / 0.6) * (max_sadness + 1))`, at most `max_sadness`.
pub open spec fn sad_level(h: u32, max_sadness: u32) -> u32 {
    let l = ((SAD_BELOW - h) * (max_sadness + 1)) / (SAD_BELOW as int);
    if l > max_sadness {
        max_sadness
    } else {
        l as u32
    }
}

/// The first task of `wants` whose `Want` animation the library has.
pub open spec fn first_wanted(es: Seq<(AnimKey, Seq<FrameView>)>, wants: Seq<TaskDue>) -> Option<TaskKind>
    decreases wants.len(),
{
    if wants.len() == 0 {
        None
    } else if lookup(es, AnimKey::Want(wants[0].ty@)) is Some {
        Some(wants[0].ty@)
    } else {
        first_wanted(es, wants.drop_first())
    }
}

pub open spec fn plus_sat(a: u64, b: u64) -> u64 {
    if a + b > u64::MAX {
        u64::MAX
    } else {
        (a + b) as u64
    }
}

/// The companion: its animations, what it plays, and where it stands.
/// Times are nanoseconds on the monotonic clock since `origin`.
#[derive(Debug)]
pub struct LilGuyState {
    pub animations: Animations,
    pub current_animation: LilGuyAnimation,
    pub animation_frame: usize,
    pub next_frame_time: u64,
    pub idle_animation_change: u64,
    pub idle_min: Span,
    pub idle_max: Span,
    pub pos: (i32, i32),
    pub origin: std::time::Instant,
}

impl LilGuyState {
    /// The frames of the current animation.
    pub open spec fn frames(&self) -> Seq<FrameView> {
        resolve(self.animations.entries(), self.current_animation@)->Some_0
    }

    pub open spec fn wf(&self) -> bool {
        &&& self.animations.wf()
        &&& self.idle_min.nanos < self.idle_max.nanos
        &&& resolve(self.animations.entries(), self.current_animation@) is Some
        &&& self.animation_frame < self.frames().len()
    }

    /// Whether the left edge is past the room's start.
    pub open spec fn too_far_left(&self, room: Room) -> bool {
        self.pos.0 < room.x_start
    }

    /// Whether the right edge is past the room's end.
    pub open spec fn too_far_right(&self, room: Room) -> bool {
        self.pos.0 + self.animations.max_bounds.0 > room.x_end
    }

    /// Whether the idle reroll is due at `now`: no rule above it applies.
    pub open spec fn rerolls(&self, now: u64, happiness: u32, ongoing: Option<TaskKind>, room: Room) -> bool {
        !self.too_far_left(room) && !self.too_far_right(room) && ongoing is None && happiness >= SAD_BELOW
            && now > self.idle_animation_change
    }

    /// The animation that the rules pick at `now`, by priority; `None` for no
    /// change.
    pub open spec fn pick(
        &self,
        now: u64,
        happiness: u32,
        ongoing: Option<TaskKind>,
        room: Room,
        wants: Seq<TaskDue>,
        roll: IdleRoll,
    ) -> Option<AnimKey> {
        if self.too_far_left(room) {
            Some(AnimKey::WalkRight)
        } else if self.too_far_right(room) {
            Some(AnimKey::WalkLeft)
        } else if ongoing is Some {
            Some(AnimKey::Task(ongoing->Some_0))
        } else if happiness < SAD_BELOW {
            match first_wanted(self.animations.entries(), wants) {
                Some(t) => Some(AnimKey::Want(t)),
                None => Some(AnimKey::Sad(sad_level(happiness, self.animations.max_sadness))),
            }
        } else if now > self.idle_animation_change {
            if roll.walk {
                Some(if roll.left { AnimKey::WalkLeft } else { AnimKey::WalkRight })
            } else if roll.idle {
                Some(AnimKey::Idle)
            } else {
                None
            }
        } else if self.current_animation@ is Task {
            Some(AnimKey::Idle)
        } else {
            None
        }
    }
}

/// The state after one tick, as a mathematical value.
pub struct Tick {
    pub key: AnimKey,
    pub frame: int,
    pub next_frame_time: u64,
    pub idle_animation_change: u64,
    pub pos: (i32, i32),
}

impl LilGuyState {
    /// The state after a tick at `now`: the picked animation, if it differs,
    /// starts over at frame 0 with its frame due now; then, once the frame is
    /// due, the next frame shows, with its own duration, and a walk moves one
    /// step.
    pub open spec fn tick(
        &self,
        now: u64,
        happiness: u32,
        ongoing: Option<TaskKind>,
        room: Room,
        wants: Seq<TaskDue>,
        roll: IdleRoll,
    ) -> Tick {
        let picked = self.pick(now, happiness, ongoing, room, wants, roll);
        let changed = picked matches Some(k) && k != self.current_animation@;
        let key = if changed { picked->Some_0 } else { self.current_animation@ };
        let frame0 = if changed { 0 } else { self.animation_frame as int };
        let due0 = if changed { now } else { self.next_frame_time };
        let idle = if self.rerolls(now, happiness, ongoing, room) {
            plus_sat(now, roll.delay)
        } else {
            self.idle_animation_change
        };
        let frames = resolve(self.animations.entries(), key)->Some_0;
        if now > due0 {
            let f = if frame0 + 1 >= frames.len() { 0 } else { frame0 + 1 };
            let x = match key {
                AnimKey::WalkLeft => if self.pos.0 > i32::MIN { self.pos.0 - 1 } else { self.pos.0 as int },
                AnimKey::WalkRight => if self.pos.0 < i32::MAX { self.pos.0 + 1 } else { self.pos.0 as int },
                _ => self.pos.0 as int,
            };
            Tick {
                key,
                frame: f,
                next_frame_time: plus_sat(now, frames[f].duration.nanos),
                idle_animation_change: idle,
                pos: (x as i32, self.pos.1),
            }
        } else {
            Tick { key, frame: frame0, next_frame_time: due0, idle_animation_change: idle, pos: self.pos }
        }
    }

    pub open spec fn is_tick_of(
        &self,
        old: &LilGuyState,
        now: u64,
        happiness: u32,
        ongoing: Option<TaskKind>,
        room: Room,
        wants: Seq<TaskDue>,
        roll: IdleRoll,
    ) -> bool {
        let t = old.tick(now, happiness, ongoing, room, wants, roll);
        &&& self.wf()
        &&& self.animations == old.animations
        &&& self.idle_min == old.idle_min
        &&& self.idle_max == old.idle_max
        &&& self.origin == old.origin
        &&& self.current_animation@ == t.key
        &&& self.animation_frame == t.frame
        &&& self.next_frame_time == t.next_frame_time
        &&& self.idle_animation_change == t.idle_animation_change
        &&& self.pos == t.pos
    }
}

} // verus!

verus! {

/// What an optional task is, as a mathematical value.
pub open spec fn kind_of(t: Option<&TaskType>) -> Option<TaskKind> {
    match t {
        Some(t) => Some(t@),
        None => None,
    }
}

impl LilGuyState {
    /// A companion that reads its animations from `animation_text`, stands
    /// idle at the origin, and rerolls its idle behaviour every
    /// `idle_min..idle_max`.
    pub fn new(animation_text: &str, idle_min: Span, idle_max: Span) -> (r: Result<LilGuyState, ParseError>)
        requires
            idle_min.nanos < idle_max.nanos,
        ensures
            match crate::animation_text::parsed(animation_text@) {
                Err(e) => r == Err::<LilGuyState, ParseError>(e),
                Ok(es) => r matches Ok(s) && s.wf() && s.animations.entries() == es && s.current_animation@
                    == AnimKey::Idle && s.animation_frame == 0 && s.pos == (0i32, 0i32) && s.next_frame_time
                    == s.idle_animation_change && s.idle_min == idle_min && s.idle_max == idle_max,
            },
    {
        let animations = match Animations::load(animation_text) {
            Ok(a) => a,
            Err(e) => {
                return Err(e);
            },
        };
        let idle_frames = animations.get(&LilGuyAnimation::Idle);
        let origin = instant_now();
        let now = nanos_since(&origin);
        proof {
            crate::animation::lemma_fallback_rank(AnimKey::Idle);
        }
        Ok(LilGuyState {
            animations,
            current_animation: LilGuyAnimation::Idle,
            animation_frame: 0,
            next_frame_time: now,
            idle_animation_change: now,
            idle_min,
            idle_max,
            pos: (0, 0),
            origin,
        })
    }

    /// The first task of `wants` whose `Want` animation the library has.
    fn wanted(&self, wants: &Vec<TaskDue>) -> (r: Option<TaskType>)
        ensures
            match r {
                Some(t) => first_wanted(self.animations.entries(), wants@) == Some(t@),
                None => first_wanted(self.animations.entries(), wants@) is None,
            },
    {
        let mut i: usize = 0;
        assert(wants@.subrange(0, wants@.len() as int) =~= wants@);
        while i < wants.len()
            invariant
                i <= wants@.len(),
                first_wanted(self.animations.entries(), wants@) == first_wanted(
                    self.animations.entries(),
                    wants@.subrange(i as int, wants@.len() as int),
                ),
            decreases wants@.len() - i,
        {
            let ghost rest = wants@.subrange(i as int, wants@.len() as int);
            assert(rest.drop_first() =~= wants@.subrange(i + 1, wants@.len() as int));
            assert(rest[0] == wants@[i as int]);
            let key = LilGuyAnimation::Want(wants[i].ty.clone());
            if self.animations.get_raw(&key).is_some() {
                return Some(wants[i].ty.clone());
            }
            i = i + 1;
        }
        assert(wants@.subrange(i as int, wants@.len() as int) =~= Seq::<TaskDue>::empty());
        None
    }

    /// The animation that the rules pick at `now` (see [`LilGuyState::pick`]).
    fn pick_animation(
        &self,
        now: u64,
        happiness: u32,
        ongoing_task: Option<&TaskType>,
        room: Room,
        wants: &Vec<TaskDue>,
        roll: IdleRoll,
    ) -> (r: Option<LilGuyAnimation>)
        ensures
            match r {
                Some(k) => self.pick(now, happiness, kind_of(ongoing_task), room, wants@, roll) == Some(k@),
                None => self.pick(now, happiness, kind_of(ongoing_task), room, wants@, roll) is None,
            },
    {
        if self.pos.0 < room.x_start {
            Some(LilGuyAnimation::WalkRight)
        } else if self.pos.0 as i128 + self.animations.max_bounds.0 as i128 > room.x_end as i128 {
            Some(LilGuyAnimation::WalkLeft)
        } else if let Some(task) = ongoing_task {
            Some(LilGuyAnimation::Task(task.clone()))
        } else if happiness < SAD_BELOW {
            match self.wanted(wants) {
                Some(t) => Some(LilGuyAnimation::Want(t)),
                None => {
                    let max = self.animations.max_sadness;
                    let d = (SAD_BELOW - happiness) as u64;
                    assert(d * (max + 1) <= 600_000 * 0x1_0000_0000) by (nonlinear_arith)
                        requires d <= 600_000, max <= 0xffff_ffff;
                    let l = (d * (max as u64 + 1)) / (SAD_BELOW as u64);
                    let level: u32 = if l > max as u64 { max } else { l as u32 };
                    Some(LilGuyAnimation::Sad(level))
                },
            }
        } else if now > self.idle_animation_change {
            if roll.walk {
                Some(if roll.left { LilGuyAnimation::WalkLeft } else { LilGuyAnimation::WalkRight })
            } else if roll.idle {
                Some(LilGuyAnimation::Idle)
            } else {
                None
            }
        } else if matches!(self.current_animation, LilGuyAnimation::Task(_)) {
            Some(LilGuyAnimation::Idle)
        } else {
            None
        }
    }

    /// One tick at `now`, with the idle reroll's draws in `roll`.
    pub fn step(
        &mut self,
        now: u64,
        happiness: u32,
        ongoing_task: Option<&TaskType>,
        room: Room,
        wants: &Vec<TaskDue>,
        roll: IdleRoll,
    )
        requires
            old(self).wf(),
        ensures
            final(self).is_tick_of(old(self), now, happiness, kind_of(ongoing_task), room, wants@, roll),
    {
        let picked = self.pick_animation(now, happiness, ongoing_task, room, wants, roll);
        if self.pos.0 >= room.x_start && !(self.pos.0 as i128 + self.animations.max_bounds.0 as i128
            > room.x_end as i128) && ongoing_task.is_none() && happiness >= SAD_BELOW && now
            > self.idle_animation_change {
            self.idle_animation_change = now.saturating_add(roll.delay);
        }
        if let Some(k) = picked {
            if self.current_animation != k {
                self.current_animation = k;
                self.animation_frame = 0;
                self.next_frame_time = now;
            }
        }
        proof {
            crate::animation::lemma_resolve_some(self.animations.entries(), self.current_animation@);
        }
        let frames = self.animations.get(&self.current_animation);
        if now > self.next_frame_time {
            let next = if self.animation_frame >= frames.len() - 1 { 0 } else { self.animation_frame + 1 };
            self.animation_frame = next;
            self.next_frame_time = now.saturating_add(frames[next].duration.nanos);
            match self.current_animation {
                LilGuyAnimation::WalkLeft => {
                    self.pos.0 = if self.pos.0 > i32::MIN { self.pos.0 - 1 } else { self.pos.0 };
                },
                LilGuyAnimation::WalkRight => {
                    self.pos.0 = if self.pos.0 < i32::MAX { self.pos.0 + 1 } else { self.pos.0 };
                },
                _ => {},
            }
        }
    }

    /// One tick now: reads the monotonic clock and draws the idle reroll.
    pub fn update(&mut self, happiness: u32, ongoing_task: Option<&TaskType>, room: Room, wants: &Vec<TaskDue>)
        requires
            old(self).wf(),
        ensures
            exists|now: u64, roll: IdleRoll|
                old(self).idle_min.nanos <= roll.delay < old(self).idle_max.nanos && #[trigger] final(self).is_tick_of(
                    old(self),
                    now,
                    happiness,
                    kind_of(ongoing_task),
                    room,
                    wants@,
                    roll,
                ),
    {
        let now = nanos_since(&self.origin);
        let delay = random_below(self.idle_min.nanos, self.idle_max.nanos);
        let walk = random_ratio(1, 3);
        let left = random_ratio(1, 2);
        let idle = random_ratio(1, 2);
        let roll = IdleRoll { delay, walk, left, idle };
        self.step(now, happiness, ongoing_task, room, wants, roll);
    }

    /// The frame on show.
    pub fn current_frame(&self) -> (r: &AnimationFrame)
        requires
            self.wf(),
        ensures
            r@ == self.frames()[self.animation_frame as int],
    {
        let frames = self.animations.get(&self.current_animation);
        &frames[self.animation_frame]
    }
}

} // verus!
