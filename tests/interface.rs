use tuigotchi_health::clock::{LocalDateTime, Span, TimeOfDay};
use tuigotchi_health::config::CharacterChoice;
use tuigotchi_health::interface::{assign_keybinds, newly_due, room_for, TaskAnimations};
use tuigotchi_health::task::TaskType;
use tuigotchi_health::task_manager::{TaskDue, Tasks};

fn due(ty: TaskType, secs: u32) -> TaskDue {
    TaskDue { ty, when: LocalDateTime { day: 10, time: TimeOfDay { secs, nanos: 0 } } }
}

#[test]
fn keybinds_number_current_then_past() {
    let t = Tasks {
        past: vec![due(TaskType::Sleep, 1)],
        current: vec![due(TaskType::Eat, 2), due(TaskType::Drink, 3)],
        upcoming: vec![due(TaskType::Shower, 4)],
    };
    let k = assign_keybinds(&t);
    assert_eq!(k, vec![('1', TaskType::Eat), ('2', TaskType::Drink), ('3', TaskType::Sleep)]);
    assert!(assign_keybinds(&Tasks::empty()).is_empty());
}

#[test]
fn newly_due_lists_what_was_not_there() {
    let before = vec![due(TaskType::Eat, 2)];
    let after = vec![due(TaskType::Eat, 2), due(TaskType::Drink, 3), due(TaskType::Eat, 9)];
    assert_eq!(newly_due(&before, &after), vec![TaskType::Drink, TaskType::Eat]);
    assert!(newly_due(&after, &before).is_empty());
}

#[test]
fn task_animations_play_one_at_a_time() {
    let mut q = TaskAnimations::new(Span { nanos: 100 });
    q.push(TaskType::Eat);
    q.push(TaskType::Drink);
    assert_eq!(q.ongoing(), None);
    q.advance(1_000);
    assert_eq!(q.ongoing(), Some(&TaskType::Eat));
    q.advance(1_100);
    assert_eq!(q.ongoing(), Some(&TaskType::Eat));
    q.advance(1_101);
    assert_eq!(q.ongoing(), Some(&TaskType::Drink));
    q.advance(1_300);
    assert_eq!(q.ongoing(), None);
}

#[test]
fn room_leaves_space_for_the_text() {
    let r = room_for(80, 40, 3);
    assert_eq!((r.x_start, r.x_end, r.y_start, r.y_end), (0, 76, 0, 28));
    let r = room_for(80, 40, 20);
    assert_eq!(r.y_end, 18);
}

#[test]
fn characters_have_names_and_files() {
    assert_eq!(CharacterChoice::Kitty.character_name(), "Kitted Catte");
    assert_eq!(CharacterChoice::DebugGuy.character_name(), "Debug Guy (very cool)");
    assert_eq!(CharacterChoice::Kitty.animation_file(), "kitty.txt");
    assert_eq!(CharacterChoice::DebugGuy.animation_file(), "debug_guy.txt");
}
