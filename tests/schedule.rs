use chrono::{Datelike, NaiveDate};
use tuigotchi_health::clock::{LocalDateTime, Span, TimeOfDay};
use tuigotchi_health::task::{Schedule, ScheduleError, Task, TaskType};

fn day(y: i32, m: u32, d: u32) -> i32 {
    NaiveDate::from_ymd_opt(y, m, d).unwrap().num_days_from_ce()
}

fn at(y: i32, m: u32, d: u32, h: u32, min: u32) -> LocalDateTime {
    LocalDateTime { day: day(y, m, d), time: TimeOfDay::from_hms(h, min, 0).unwrap() }
}

fn morning_and_evening() -> Schedule {
    Schedule::Times(vec![TimeOfDay::from_hms(8, 0, 0).unwrap(), TimeOfDay::from_hms(20, 0, 0).unwrap()])
}

#[test]
fn times_pick_the_next_time_today() {
    let s = morning_and_evening();
    let r = s.next_instance(&at(2024, 1, 1, 9, 0)).unwrap();
    assert_eq!(r, at(2024, 1, 1, 20, 0));
}

#[test]
fn times_wrap_to_tomorrows_first() {
    let s = morning_and_evening();
    let r = s.next_instance(&at(2024, 1, 1, 21, 0)).unwrap();
    assert_eq!(r, at(2024, 1, 2, 8, 0));
}

#[test]
fn times_skip_an_equal_time_of_day() {
    let s = morning_and_evening();
    let r = s.next_instance(&at(2024, 1, 1, 8, 0)).unwrap();
    assert_eq!(r, at(2024, 1, 1, 20, 0));
    let r = s.next_instance(&at(2024, 1, 1, 20, 0)).unwrap();
    assert_eq!(r, at(2024, 1, 2, 8, 0));
}

#[test]
fn times_cross_the_year() {
    let s = morning_and_evening();
    let r = s.next_instance(&at(2023, 12, 31, 23, 59)).unwrap();
    assert_eq!(r, at(2024, 1, 1, 8, 0));
}

#[test]
fn times_never_go_back_within_the_day() {
    let s = morning_and_evening();
    for h in 0..24 {
        let reference = at(2024, 3, 5, h, 30);
        let r = s.next_instance(&reference).unwrap();
        assert!(r.day > reference.day || (r.day == reference.day && r.time.secs > reference.time.secs));
    }
}

#[test]
fn empty_times_are_an_error() {
    let s = Schedule::Times(vec![]);
    assert_eq!(s.next_instance(&at(2024, 1, 1, 9, 0)), Err(ScheduleError::NoTimes));
}

#[test]
fn a_skipped_wall_clock_time_falls_back_to_midnight() {
    let s = morning_and_evening();
    let r = s.due_given(&at(2024, 1, 1, 9, 0), false).unwrap();
    assert_eq!(r, at(2024, 1, 2, 0, 0));
    let r = s.due_given(&at(2024, 1, 1, 9, 0), true).unwrap();
    assert_eq!(r, at(2024, 1, 1, 20, 0));
}

#[test]
fn times_on_the_last_day_run_out_of_range() {
    let s = morning_and_evening();
    let last = LocalDateTime { day: i32::MAX, time: TimeOfDay::from_hms(21, 0, 0).unwrap() };
    assert_eq!(s.next_instance(&last), Err(ScheduleError::OutOfRange));
}

#[test]
fn interval_adds_exactly() {
    let s = Schedule::Interval(Span::from_secs(2 * 3600).unwrap());
    let reference = at(2024, 1, 1, 9, 0);
    let r = s.next_instance(&reference).unwrap();
    assert_eq!(r, at(2024, 1, 1, 11, 0));
    assert_eq!(r.nanos_since(&reference), 2 * 3600 * 1_000_000_000);
}

#[test]
fn interval_crosses_midnight() {
    let s = Schedule::Interval(Span::from_secs(30 * 60).unwrap());
    let r = s.next_instance(&at(2024, 2, 28, 23, 45)).unwrap();
    assert_eq!(r, at(2024, 2, 29, 0, 15));
}

#[test]
fn interval_keeps_nanoseconds() {
    let s = Schedule::Interval(Span { nanos: 1_500 });
    let reference = LocalDateTime::from_parts(day(2024, 1, 1), 59, 999_999_000).unwrap();
    let r = s.next_instance(&reference).unwrap();
    assert_eq!(r, LocalDateTime::from_parts(day(2024, 1, 1), 60, 500).unwrap());
}

#[test]
fn interval_past_the_last_day_is_out_of_range() {
    let s = Schedule::Interval(Span::from_secs(86_400).unwrap());
    let last = LocalDateTime { day: i32::MAX, time: TimeOfDay::from_hms(1, 0, 0).unwrap() };
    assert_eq!(s.next_instance(&last), Err(ScheduleError::OutOfRange));
}

#[test]
fn leap_second_is_held_in_its_second() {
    let t = LocalDateTime::from_parts(5, 59, 1_500_000_000).unwrap();
    assert_eq!(t.time.nanos, 999_999_999);
    assert!(LocalDateTime::from_parts(5, 86_400, 0).is_none());
}

#[test]
fn from_hms_rejects_out_of_range_fields() {
    assert!(TimeOfDay::from_hms(24, 0, 0).is_none());
    assert!(TimeOfDay::from_hms(0, 60, 0).is_none());
    assert!(TimeOfDay::from_hms(0, 0, 60).is_none());
    assert_eq!(TimeOfDay::from_hms(1, 2, 3).unwrap().secs, 3723);
}

#[test]
fn completing_a_task_sets_last_done() {
    let mut t = Task::new(TaskType::Eat, morning_and_evening());
    let now = at(2024, 1, 1, 9, 0);
    t.complete(now);
    assert_eq!(t.last_done, now);
    assert_eq!(t.ty(), &TaskType::Eat);
}

#[test]
fn task_messages() {
    assert_eq!(TaskType::Eat.message(), "I'm hungry!");
    assert_eq!(TaskType::TakeMeds.message(), "I don't feel good >.<");
    assert_eq!(TaskType::Other("stretch".to_string()).message(), "I need to stretch");
}
