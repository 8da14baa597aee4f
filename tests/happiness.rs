use tuigotchi_health::clock::{LocalDateTime, Span, TimeOfDay};
use tuigotchi_health::happiness::{happiness, isqrt, mood, task_penalty, Mood, FULL};
use tuigotchi_health::task::TaskType;
use tuigotchi_health::task_manager::TaskDue;

fn secs(s: u64) -> Span {
    Span::from_secs(s).unwrap()
}

fn due(secs_of_day: u32) -> TaskDue {
    TaskDue { ty: TaskType::Eat, when: LocalDateTime { day: 100, time: TimeOfDay { secs: secs_of_day, nanos: 0 } } }
}

fn now() -> LocalDateTime {
    LocalDateTime { day: 100, time: TimeOfDay { secs: 10_000, nanos: 0 } }
}

#[test]
fn no_past_tasks_is_full_happiness() {
    assert_eq!(happiness(&vec![], &now(), secs(60), secs(3600)), FULL);
}

#[test]
fn penalty_is_a_square_root_of_the_overdue_share() {
    // Overdue by 125 s with a 100 s timeout: 25 s over, of a 100 s maximum.
    let past = vec![due(10_000 - 125)];
    assert_eq!(happiness(&past, &now(), secs(100), secs(100)), 500_000);
}

#[test]
fn penalties_add_up_and_clamp() {
    let past = vec![due(10_000 - 125), due(10_000 - 109)];
    // sqrt(0.25) + sqrt(0.09) = 0.8
    assert_eq!(happiness(&past, &now(), secs(100), secs(100)), 200_000);
    let past = vec![due(10_000 - 125), due(10_000 - 125), due(10_000 - 125)];
    assert_eq!(happiness(&past, &now(), secs(100), secs(100)), 0);
}

#[test]
fn within_the_timeout_there_is_no_penalty() {
    let past = vec![due(10_000 - 50)];
    assert_eq!(happiness(&past, &now(), secs(100), secs(100)), FULL);
}

#[test]
fn whole_seconds_count() {
    // 1.9 s overdue counts as 1 s.
    assert_eq!(task_penalty(1_900_000_000, Span { nanos: 0 }, secs(4)), 500_000);
    assert_eq!(task_penalty(-5, Span { nanos: 0 }, secs(4)), 0);
}

#[test]
fn a_zero_maximum_takes_all_happiness() {
    assert_eq!(task_penalty(10_000_000_000, secs(1), Span { nanos: 0 }), FULL);
    assert_eq!(task_penalty(1_000_000_000, secs(1), Span { nanos: 0 }), 0);
}

#[test]
fn square_roots_round_down() {
    assert_eq!(isqrt(0), 0);
    assert_eq!(isqrt(1), 1);
    assert_eq!(isqrt(15), 3);
    assert_eq!(isqrt(16), 4);
    assert_eq!(isqrt(999_999_999_999), 999_999);
}

#[test]
fn moods_by_happiness() {
    assert_eq!(mood(0), Mood::VerySad);
    assert_eq!(mood(100_000), Mood::VerySad);
    assert_eq!(mood(100_001), Mood::Sad);
    assert_eq!(mood(400_000), Mood::Sad);
    assert_eq!(mood(500_000), Mood::Neutral);
    assert_eq!(mood(600_001), Mood::Happy);
    assert_eq!(mood(900_000), Mood::Happy);
    assert_eq!(mood(FULL), Mood::VeryHappy);
    assert_eq!(Mood::VeryHappy.label(), "Very Happy");
    assert_eq!(Mood::VerySad.label(), "Very Sad");
}
