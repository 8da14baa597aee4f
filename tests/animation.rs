use tuigotchi_health::animation::{Animations, LilGuyAnimation};
use tuigotchi_health::animation_text::ParseError;
use tuigotchi_health::task::TaskType;

const LIBRARY: &str = "animation idle\nframe 100ms\n (o.o)\n  | |\nframe 200ms\n (-.-)\n  | |\nanimation walk\nframe 50ms\n  o/\nanimation sad/0\nframe 300ms\n (T.T)\nanimation SAD/1\nframe 300ms\n(;_;)\nanimation want/eat\nframe 100ms\n nom?\nanimation task/general\nframe 100ms\n :)\n";

fn general() -> TaskType {
    TaskType::Other(String::new())
}

#[test]
fn load_reads_blocks_frames_and_rows() {
    let a = Animations::load(LIBRARY).unwrap();
    let idle = a.get_raw(&LilGuyAnimation::Idle).unwrap();
    assert_eq!(idle.len(), 2);
    assert_eq!(idle[0].duration.nanos, 100_000_000);
    assert_eq!(idle[0].lines, vec![" (o.o)".to_string(), "  | |".to_string()]);
    assert_eq!(idle[1].duration.nanos, 200_000_000);
    assert_eq!(a.max_sadness, 1);
    assert_eq!(a.max_bounds, (6, 2));
}

#[test]
fn keys_match_without_regard_to_case() {
    let a = Animations::load(LIBRARY).unwrap();
    assert!(a.get_raw(&LilGuyAnimation::Sad(1)).is_some());
    assert_eq!(LilGuyAnimation::parse_key("Walk/Left").unwrap(), LilGuyAnimation::WalkLeft);
    assert_eq!(LilGuyAnimation::parse_key("TASK/GENERAL").unwrap(), LilGuyAnimation::Task(general()));
    assert_eq!(LilGuyAnimation::from_lowercase("Walk"), None);
    assert_eq!(LilGuyAnimation::from_lowercase("want/take_meds"), Some(LilGuyAnimation::Want(TaskType::TakeMeds)));
}

#[test]
fn windows_line_endings_are_stripped() {
    let a = Animations::load("animation idle\r\nframe 10ms\r\nab\r\n").unwrap();
    let idle = a.get_raw(&LilGuyAnimation::Idle).unwrap();
    assert_eq!(idle[0].lines, vec!["ab".to_string()]);
}

#[test]
fn rows_keep_their_whitespace_and_blank_rows() {
    let a = Animations::load("animation idle\nframe 10ms\n   \n\n x \n").unwrap();
    let idle = a.get_raw(&LilGuyAnimation::Idle).unwrap();
    assert_eq!(idle[0].lines, vec!["   ".to_string(), String::new(), " x ".to_string()]);
    assert_eq!(a.max_bounds, (3, 3));
}

#[test]
fn a_later_block_replaces_an_earlier_one() {
    let a = Animations::load("animation idle\nframe 10ms\na\nanimation idle\nframe 20ms\nb\n").unwrap();
    let idle = a.get(&LilGuyAnimation::Idle);
    assert_eq!(idle[0].duration.nanos, 20_000_000);
}

#[test]
fn unknown_keys_are_refused() {
    assert_eq!(Animations::load("animation dance\nframe 10ms\nx\n").unwrap_err(), ParseError::UnknownKey);
    assert_eq!(Animations::load("animation sad/2\nframe 10ms\nx\n").unwrap_err(), ParseError::UnknownKey);
}

#[test]
fn bad_durations_are_refused() {
    assert_eq!(Animations::load("animation idle\nframe tenms\nx\n").unwrap_err(), ParseError::BadDuration);
    assert_eq!(Animations::load("animation idle\nframe 10\nx\n").unwrap_err(), ParseError::BadDuration);
    assert_eq!(Animations::load("animation idle\nframe ms\nx\n").unwrap_err(), ParseError::BadDuration);
    assert_eq!(
        Animations::load("animation idle\nframe 99999999999999999999ms\nx\n").unwrap_err(),
        ParseError::BadDuration
    );
}

#[test]
fn misplaced_lines_are_refused() {
    assert_eq!(Animations::load("hello\nanimation idle\nframe 10ms\nx\n").unwrap_err(), ParseError::Misplaced);
    assert_eq!(Animations::load("frame 10ms\nx\n").unwrap_err(), ParseError::Misplaced);
    assert_eq!(Animations::load("animation idle\nx\n").unwrap_err(), ParseError::Misplaced);
}

#[test]
fn blocks_without_frames_are_refused() {
    assert_eq!(Animations::load("animation idle\nanimation walk\nframe 1ms\nx\n").unwrap_err(), ParseError::EmptyAnimation);
    assert_eq!(Animations::load("animation idle\nframe 1ms\nx\nanimation walk\n").unwrap_err(), ParseError::EmptyAnimation);
}

#[test]
fn a_library_without_idle_is_refused() {
    assert_eq!(Animations::load("animation walk\nframe 1ms\nx\n").unwrap_err(), ParseError::NoIdle);
    assert_eq!(Animations::load("").unwrap_err(), ParseError::NoIdle);
}

#[test]
fn fallback_steps() {
    assert_eq!(LilGuyAnimation::WalkLeft.fallback(), Some(LilGuyAnimation::Walk));
    assert_eq!(LilGuyAnimation::WalkRight.fallback(), Some(LilGuyAnimation::Walk));
    assert_eq!(LilGuyAnimation::Sad(3).fallback(), Some(LilGuyAnimation::Sad(2)));
    assert_eq!(LilGuyAnimation::Sad(0).fallback(), Some(LilGuyAnimation::Idle));
    assert_eq!(LilGuyAnimation::Want(TaskType::Eat).fallback(), Some(LilGuyAnimation::Sad(0)));
    assert_eq!(LilGuyAnimation::Want(general()).fallback(), Some(LilGuyAnimation::Idle));
    assert_eq!(LilGuyAnimation::Task(TaskType::Sleep).fallback(), Some(LilGuyAnimation::Task(general())));
    assert_eq!(LilGuyAnimation::Task(general()).fallback(), Some(LilGuyAnimation::Idle));
    assert_eq!(LilGuyAnimation::Walk.fallback(), Some(LilGuyAnimation::Idle));
    assert_eq!(LilGuyAnimation::Idle.fallback(), None);
    assert_eq!(LilGuyAnimation::Idle.get_fallback(), LilGuyAnimation::Idle);
}

#[test]
fn every_vocabulary_key_reaches_idle_within_three_steps() {
    let keys = vec![
        LilGuyAnimation::Idle,
        LilGuyAnimation::Walk,
        LilGuyAnimation::WalkLeft,
        LilGuyAnimation::WalkRight,
        LilGuyAnimation::Sad(0),
        LilGuyAnimation::Sad(1),
        LilGuyAnimation::Want(TaskType::Bathroom),
        LilGuyAnimation::Task(general()),
        LilGuyAnimation::Task(TaskType::EyesRest),
    ];
    for k in keys {
        let mut cur = k;
        let mut hops = 0;
        while let Some(next) = cur.fallback() {
            cur = next;
            hops += 1;
        }
        assert_eq!(cur, LilGuyAnimation::Idle);
        assert!(hops <= 3);
    }
}

#[test]
fn resolution_follows_the_fallback_chain() {
    let a = Animations::load(LIBRARY).unwrap();
    // walk/left is missing: walk stands in.
    assert_eq!(a.get(&LilGuyAnimation::WalkLeft)[0].lines, vec!["  o/".to_string()]);
    // want/drink is missing: sad/0 stands in.
    assert_eq!(a.get(&LilGuyAnimation::Want(TaskType::Drink))[0].lines, vec![" (T.T)".to_string()]);
    // task/eat is missing: task/general stands in.
    assert_eq!(a.get(&LilGuyAnimation::Task(TaskType::Eat))[0].lines, vec![" :)".to_string()]);
    // sad/4 falls to sad/1.
    assert_eq!(a.get(&LilGuyAnimation::Sad(4))[0].lines, vec!["(;_;)".to_string()]);
    let bare = Animations::load("animation idle\nframe 10ms\nz\n").unwrap();
    assert_eq!(bare.get(&LilGuyAnimation::Want(TaskType::Eat))[0].lines, vec!["z".to_string()]);
}
