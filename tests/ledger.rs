use chrono::{Datelike, NaiveDate};
use tuigotchi_health::clock::{LocalDateTime, Span, TimeOfDay};
use tuigotchi_health::config::{CharacterChoice, Config};
use tuigotchi_health::task::{Schedule, ScheduleError, Task, TaskType};
use tuigotchi_health::task_manager::{TaskDue, TaskManager};

fn at(d: u32, h: u32, min: u32) -> LocalDateTime {
    LocalDateTime {
        day: NaiveDate::from_ymd_opt(2024, 1, d).unwrap().num_days_from_ce(),
        time: TimeOfDay::from_hms(h, min, 0).unwrap(),
    }
}

fn hours(h: u64) -> Span {
    Span::from_secs(h * 3600).unwrap()
}

fn task(ty: TaskType, every: Span, last_done: LocalDateTime) -> Task {
    Task { ty, schedule: Schedule::Interval(every), last_done }
}

fn config(tasks: Vec<Task>) -> Config {
    Config {
        character: CharacterChoice::Kitty,
        task_timeout: hours(1),
        task_timeout_max: hours(4),
        idle_animation_time_min: Span::from_secs(1).unwrap(),
        idle_animation_time_max: Span::from_secs(5).unwrap(),
        task_animation_duration: Span::from_secs(3).unwrap(),
        colour: crossterm::style::Color::Grey,
        tasks,
    }
}

fn ledger() -> TaskManager {
    let mut c = config(vec![
        // due 11:30, overdue by 30 min: current
        task(TaskType::Eat, hours(2), at(1, 9, 30)),
        // due 10:00, overdue by 2 h: past
        task(TaskType::Drink, hours(1), at(1, 9, 0)),
        // due 14:00: upcoming
        task(TaskType::Sleep, hours(4), at(1, 10, 0)),
        // due exactly now: current
        task(TaskType::Shower, hours(3), at(1, 9, 0)),
    ]);
    TaskManager::new(&mut c)
}

#[test]
fn new_takes_the_tasks_out_of_the_config() {
    let mut c = config(vec![task(TaskType::Eat, hours(2), at(1, 9, 0))]);
    let m = TaskManager::new(&mut c);
    assert_eq!(m.tasks.len(), 1);
    assert!(c.tasks.is_empty());
    assert_eq!(m.task_threshold, hours(1));
}

#[test]
fn classification_sorts_each_task() {
    let m = ledger();
    let t = m.tasks(&at(1, 12, 0)).unwrap();
    let tys = |v: &Vec<TaskDue>| v.iter().map(|d| d.ty.clone()).collect::<Vec<_>>();
    assert_eq!(tys(&t.current), vec![TaskType::Eat, TaskType::Shower]);
    assert_eq!(tys(&t.past), vec![TaskType::Drink]);
    assert_eq!(tys(&t.upcoming), vec![TaskType::Sleep]);
    assert_eq!(t.current[0].when, at(1, 11, 30));
    assert_eq!(t.past[0].when, at(1, 10, 0));
    assert_eq!(t.upcoming[0].when, at(1, 14, 0));
}

#[test]
fn classification_is_a_partition() {
    let m = ledger();
    for h in 8..20 {
        let t = m.tasks(&at(1, h, 15)).unwrap();
        assert_eq!(t.past.len() + t.current.len() + t.upcoming.len(), m.tasks.len());
    }
}

#[test]
fn overdue_by_exactly_the_threshold_is_past() {
    let m = ledger();
    // Eat is due 11:30; at 12:30 it is overdue by the whole hour.
    let t = m.tasks(&at(1, 12, 30)).unwrap();
    assert!(t.past.iter().any(|d| d.ty == TaskType::Eat));
}

#[test]
fn a_schedule_error_aborts_classification() {
    let mut c = config(vec![
        task(TaskType::Eat, hours(2), at(1, 9, 0)),
        Task { ty: TaskType::Drink, schedule: Schedule::Times(vec![]), last_done: at(1, 9, 0) },
    ]);
    let m = TaskManager::new(&mut c);
    assert!(matches!(m.tasks(&at(1, 12, 0)), Err(ScheduleError::NoTimes)));
}

#[test]
fn completing_moves_a_task_to_upcoming() {
    let mut m = ledger();
    let now = at(1, 12, 0);
    m.complete_tasks(&TaskType::Drink, now);
    let t = m.tasks(&now).unwrap();
    assert!(!t.past.iter().any(|d| d.ty == TaskType::Drink));
    assert!(!t.current.iter().any(|d| d.ty == TaskType::Drink));
    let d = t.upcoming.iter().find(|d| d.ty == TaskType::Drink).unwrap();
    assert_eq!(d.when, at(1, 13, 0));
    // It is due again once its new due instant arrives.
    let later = m.tasks(&at(1, 13, 0)).unwrap();
    assert!(later.current.iter().any(|d| d.ty == TaskType::Drink));
}

#[test]
fn completing_resets_every_task_of_the_type() {
    let mut c = config(vec![
        task(TaskType::Eat, hours(2), at(1, 6, 0)),
        task(TaskType::Eat, hours(3), at(1, 7, 0)),
        task(TaskType::Drink, hours(1), at(1, 7, 0)),
    ]);
    let mut m = TaskManager::new(&mut c);
    let now = at(1, 12, 0);
    m.complete_tasks(&TaskType::Eat, now);
    assert_eq!(m.tasks[0].last_done, now);
    assert_eq!(m.tasks[1].last_done, now);
    assert_eq!(m.tasks[2].last_done, at(1, 7, 0));
}

#[test]
fn other_tasks_compare_by_description() {
    assert_eq!(TaskType::Other("walk".to_string()), TaskType::Other("walk".to_string()));
    assert_ne!(TaskType::Other("walk".to_string()), TaskType::Other("run".to_string()));
    assert_ne!(TaskType::Eat, TaskType::Drink);
}
