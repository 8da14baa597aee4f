use tuigotchi_health::clock::{LocalDateTime, Span, TimeOfDay};
use tuigotchi_health::animation::LilGuyAnimation;
use tuigotchi_health::animation_text::ParseError;
use tuigotchi_health::lil_guy::{IdleRoll, LilGuyState, Room};
use tuigotchi_health::task::TaskType;
use tuigotchi_health::task_manager::TaskDue;

const LIBRARY: &str = "animation idle\nframe 100ms\nidle0\nframe 100ms\nidle1\nanimation walk\nframe 10ms\nwalk0\nframe 10ms\nwalk1\nanimation sad/0\nframe 100ms\nsad0\nanimation sad/1\nframe 100ms\nsad1\nanimation want/eat\nframe 100ms\nhungry\nanimation task/general\nframe 100ms\nyay\n";

const MS: u64 = 1_000_000;

fn companion(text: &str) -> LilGuyState {
    LilGuyState::new(text, Span::from_secs(1).unwrap(), Span::from_secs(5).unwrap()).unwrap()
}

fn room() -> Room {
    Room { x_start: -20, x_end: 20, y_start: 0, y_end: 10 }
}

fn stay() -> IdleRoll {
    IdleRoll { delay: 2_000 * MS, walk: false, left: false, idle: false }
}

fn past(ty: TaskType) -> TaskDue {
    TaskDue { ty, when: LocalDateTime { day: 1, time: TimeOfDay { secs: 0, nanos: 0 } } }
}

fn settle(s: &mut LilGuyState) -> u64 {
    // Put the reroll far in the future, so that only the rules under test act.
    s.idle_animation_change = u64::MAX;
    s.next_frame_time
}

#[test]
fn new_starts_idle_at_the_origin() {
    let s = companion(LIBRARY);
    assert_eq!(s.current_animation, LilGuyAnimation::Idle);
    assert_eq!(s.animation_frame, 0);
    assert_eq!(s.pos, (0, 0));
    assert_eq!(s.current_frame().lines, vec!["idle0".to_string()]);
}

#[test]
fn new_reports_parse_errors() {
    let r = LilGuyState::new("animation walk\nframe 1ms\nx\n", Span { nanos: 1 }, Span { nanos: 2 });
    assert!(matches!(r, Err(ParseError::NoIdle)));
}

#[test]
fn only_sad_frames_and_no_want_gives_sad() {
    let mut s = companion("animation idle\nframe 100ms\nI\nanimation sad/0\nframe 100ms\nS\n");
    let t = settle(&mut s);
    let wants = vec![past(TaskType::Eat)];
    s.step(t + MS, 300_000, None, room(), &wants, stay());
    assert_eq!(s.current_animation, LilGuyAnimation::Sad(0));
}

#[test]
fn a_wanted_task_with_frames_is_preferred() {
    let mut s = companion(LIBRARY);
    let t = settle(&mut s);
    let wants = vec![past(TaskType::Drink), past(TaskType::Eat)];
    s.step(t + MS, 300_000, None, room(), &wants, stay());
    assert_eq!(s.current_animation, LilGuyAnimation::Want(TaskType::Eat));
}

#[test]
fn sadness_level_scales_with_unhappiness() {
    let mut s = companion(LIBRARY);
    let t = settle(&mut s);
    // floor((1 - 0.45 / 0.6) * 2) = 0
    s.step(t + MS, 450_000, None, room(), &vec![], stay());
    assert_eq!(s.current_animation, LilGuyAnimation::Sad(0));
    // floor((1 - 0.2 / 0.6) * 2) = 1
    s.step(t + 2 * MS, 200_000, None, room(), &vec![], stay());
    assert_eq!(s.current_animation, LilGuyAnimation::Sad(1));
    // floor((1 - 0 / 0.6) * 2) = 2, held at the highest level
    s.step(t + 3 * MS, 0, None, room(), &vec![], stay());
    assert_eq!(s.current_animation, LilGuyAnimation::Sad(1));
}

#[test]
fn an_ongoing_task_plays_its_animation_then_reverts() {
    let mut s = companion(LIBRARY);
    let t = settle(&mut s);
    let eat = TaskType::Eat;
    s.step(t + MS, 1_000_000, Some(&eat), room(), &vec![], stay());
    assert_eq!(s.current_animation, LilGuyAnimation::Task(TaskType::Eat));
    // task/eat is missing: task/general plays.
    assert_eq!(s.current_frame().lines, vec!["yay".to_string()]);
    s.step(t + 2 * MS, 1_000_000, None, room(), &vec![], stay());
    assert_eq!(s.current_animation, LilGuyAnimation::Idle);
}

#[test]
fn walls_turn_the_companion_around() {
    let mut s = companion(LIBRARY);
    let t = settle(&mut s);
    s.pos = (-21, 0);
    s.step(t + MS, 1_000_000, None, room(), &vec![], stay());
    assert_eq!(s.current_animation, LilGuyAnimation::WalkRight);
    s.pos = (15, 0);
    // 15 + 6 > 20: the right edge is past the wall.
    s.step(t + 2 * MS, 1_000_000, None, room(), &vec![], stay());
    assert_eq!(s.current_animation, LilGuyAnimation::WalkLeft);
    // The walls win over a task in progress.
    let eat = TaskType::Eat;
    s.step(t + 3 * MS, 1_000_000, Some(&eat), room(), &vec![], stay());
    assert_eq!(s.current_animation, LilGuyAnimation::WalkLeft);
}

#[test]
fn frames_advance_wrap_and_walks_move() {
    let mut s = companion(LIBRARY);
    let t = settle(&mut s);
    s.pos = (0, 0);
    s.current_animation = LilGuyAnimation::WalkRight;
    s.animation_frame = 0;
    s.next_frame_time = t;
    s.step(t + MS, 1_000_000, None, room(), &vec![], stay());
    assert_eq!(s.animation_frame, 1);
    assert_eq!(s.pos, (1, 0));
    assert_eq!(s.next_frame_time, t + MS + 10 * MS);
    // Not yet due: nothing moves.
    s.step(t + 5 * MS, 1_000_000, None, room(), &vec![], stay());
    assert_eq!(s.animation_frame, 1);
    assert_eq!(s.pos, (1, 0));
    // Due: wraps to the first frame and moves again.
    s.step(t + 20 * MS, 1_000_000, None, room(), &vec![], stay());
    assert_eq!(s.animation_frame, 0);
    assert_eq!(s.pos, (2, 0));
}

#[test]
fn a_new_animation_starts_at_its_first_frame() {
    let mut s = companion(LIBRARY);
    let t = settle(&mut s);
    s.animation_frame = 1;
    s.step(t + MS, 300_000, None, room(), &vec![], stay());
    assert_eq!(s.current_animation, LilGuyAnimation::Sad(1));
    assert_eq!(s.animation_frame, 0);
    assert_eq!(s.next_frame_time, t + MS);
}

#[test]
fn idle_reroll_walks_stands_or_stays() {
    let mut s = companion(LIBRARY);
    let t = s.next_frame_time;
    s.idle_animation_change = t;
    let walk_left = IdleRoll { delay: 3_000 * MS, walk: true, left: true, idle: false };
    s.step(t + MS, 1_000_000, None, room(), &vec![], walk_left);
    assert_eq!(s.current_animation, LilGuyAnimation::WalkLeft);
    assert_eq!(s.idle_animation_change, t + MS + 3_000 * MS);
    // Before the next reroll is due nothing changes.
    s.step(t + 2 * MS, 1_000_000, None, room(), &vec![], IdleRoll { walk: true, left: false, ..walk_left });
    assert_eq!(s.current_animation, LilGuyAnimation::WalkLeft);
    let when = s.idle_animation_change;
    s.step(when + 1, 1_000_000, None, room(), &vec![], IdleRoll { delay: 1_000 * MS, walk: false, left: false, idle: true });
    assert_eq!(s.current_animation, LilGuyAnimation::Idle);
    let when = s.idle_animation_change;
    s.step(when + 1, 1_000_000, None, room(), &vec![], stay());
    assert_eq!(s.current_animation, LilGuyAnimation::Idle);
    assert_eq!(s.idle_animation_change, when + 1 + 2_000 * MS);
}

#[test]
fn update_keeps_the_state_valid() {
    let mut s = companion(LIBRARY);
    for _ in 0..50 {
        s.update(1_000_000, None, room(), &vec![]);
        assert!(s.animation_frame < 2);
    }
}
