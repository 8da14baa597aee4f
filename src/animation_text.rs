//! The text format of an animation library.
//!
//! A library is a run of blocks. Each starts with a line `animation <key>`
//! and holds one or more frames; a frame starts with a line `frame <N>ms`
//! and its rows are the lines up to the next frame or block, verbatim.

use vstd::prelude::*;
use vstd::string::StringExecFns;
use vstd::string::StrSliceExecFns;
use crate::animation::{
    general, lookup, or_one, saddest, tallest_in_entries, tallest_in_frames, widest_in_entries,
    widest_in_frames, widest_row, AnimKey, AnimationFrame, Animations, EntryView, FrameView, LilGuyAnimation,
    frames_view, entries_view,
};
use crate::clock::Span;
use crate::task::{TaskKind, TaskType};
use crate::text::{chars_of, has_prefix, line_bounds, lines_of, line_ranges, same_text};

verus! {

/// What `str::to_lowercase` makes of a text.
pub uninterp spec fn lower_of(s: Seq<char>) -> Seq<char>;

/// Relies on `str::to_lowercase`: the lowercase form of a text depends on
/// its characters alone.
#[verifier::external_body]
fn lowercase(s: &str) -> (r: String)
    ensures
        r@ == lower_of(s@),
{
    s.to_lowercase()
}

/// Why a text is no animation library.
#[derive(Clone, Copy, Debug, PartialEq, Eq, Structural)]
pub enum ParseError {
    /// A frame or a row stands before the block or frame it would belong to.
    Misplaced,
    /// A block names a key outside the vocabulary.
    UnknownKey,
    /// A frame's duration is not `<N>ms` with `N` in decimal digits, or is
    /// too long.
    BadDuration,
    /// A block has no frame.
    EmptyAnimation,
    /// No block is for `idle`.
    NoIdle,
}

/// The key that a lowercase key text names.
pub open spec fn key_of(s: Seq<char>) -> Option<AnimKey> {
    if s == "idle"@ {
        Some(AnimKey::Idle)
    } else if s == "walk"@ {
        Some(AnimKey::Walk)
    } else if s == "walk/left"@ {
        Some(AnimKey::WalkLeft)
    } else if s == "walk/right"@ {
        Some(AnimKey::WalkRight)
    } else if s == "sad/0"@ {
        Some(AnimKey::Sad(0))
    } else if s == "sad/1"@ {
        Some(AnimKey::Sad(1))
    } else if s == "want/eat"@ {
        Some(AnimKey::Want(TaskKind::Eat))
    } else if s == "want/drink"@ {
        Some(AnimKey::Want(TaskKind::Drink))
    } else if s == "want/brush_teeth"@ {
        Some(AnimKey::Want(TaskKind::BrushTeeth))
    } else if s == "want/shower"@ {
        Some(AnimKey::Want(TaskKind::Shower))
    } else if s == "want/eyes_rest"@ {
        Some(AnimKey::Want(TaskKind::EyesRest))
    } else if s == "want/take_meds"@ {
        Some(AnimKey::Want(TaskKind::TakeMeds))
    } else if s == "want/sleep"@ {
        Some(AnimKey::Want(TaskKind::Sleep))
    } else if s == "want/bathroom"@ {
        Some(AnimKey::Want(TaskKind::Bathroom))
    } else if s == "task/general"@ {
        Some(AnimKey::Task(general()))
    } else if s == "task/eat"@ {
        Some(AnimKey::Task(TaskKind::Eat))
    } else if s == "task/drink"@ {
        Some(AnimKey::Task(TaskKind::Drink))
    } else if s == "task/brush_teeth"@ {
        Some(AnimKey::Task(TaskKind::BrushTeeth))
    } else if s == "task/shower"@ {
        Some(AnimKey::Task(TaskKind::Shower))
    } else if s == "task/eyes_rest"@ {
        Some(AnimKey::Task(TaskKind::EyesRest))
    } else if s == "task/take_meds"@ {
        Some(AnimKey::Task(TaskKind::TakeMeds))
    } else if s == "task/sleep"@ {
        Some(AnimKey::Task(TaskKind::Sleep))
    } else if s == "task/bathroom"@ {
        Some(AnimKey::Task(TaskKind::Bathroom))
    } else {
        None
    }
}

impl LilGuyAnimation {
    /// The key that a lowercase key text names (`walk/left`).
    pub fn from_lowercase(s: &str) -> (r: Option<LilGuyAnimation>)
        ensures
            r matches Some(k) ==> key_of(s@) == Some(k@),
            r is None ==> key_of(s@) is None,
    {
        if same_text(s, "idle") {
            Some(LilGuyAnimation::Idle)
        } else if same_text(s, "walk") {
            Some(LilGuyAnimation::Walk)
        } else if same_text(s, "walk/left") {
            Some(LilGuyAnimation::WalkLeft)
        } else if same_text(s, "walk/right") {
            Some(LilGuyAnimation::WalkRight)
        } else if same_text(s, "sad/0") {
            Some(LilGuyAnimation::Sad(0))
        } else if same_text(s, "sad/1") {
            Some(LilGuyAnimation::Sad(1))
        } else if same_text(s, "want/eat") {
            Some(LilGuyAnimation::Want(TaskType::Eat))
        } else if same_text(s, "want/drink") {
            Some(LilGuyAnimation::Want(TaskType::Drink))
        } else if same_text(s, "want/brush_teeth") {
            Some(LilGuyAnimation::Want(TaskType::BrushTeeth))
        } else if same_text(s, "want/shower") {
            Some(LilGuyAnimation::Want(TaskType::Shower))
        } else if same_text(s, "want/eyes_rest") {
            Some(LilGuyAnimation::Want(TaskType::EyesRest))
        } else if same_text(s, "want/take_meds") {
            Some(LilGuyAnimation::Want(TaskType::TakeMeds))
        } else if same_text(s, "want/sleep") {
            Some(LilGuyAnimation::Want(TaskType::Sleep))
        } else if same_text(s, "want/bathroom") {
            Some(LilGuyAnimation::Want(TaskType::Bathroom))
        } else if same_text(s, "task/general") {
            let g = String::new();
            assert(g@ =~= Seq::<char>::empty());
            Some(LilGuyAnimation::Task(TaskType::Other(g)))
        } else if same_text(s, "task/eat") {
            Some(LilGuyAnimation::Task(TaskType::Eat))
        } else if same_text(s, "task/drink") {
            Some(LilGuyAnimation::Task(TaskType::Drink))
        } else if same_text(s, "task/brush_teeth") {
            Some(LilGuyAnimation::Task(TaskType::BrushTeeth))
        } else if same_text(s, "task/shower") {
            Some(LilGuyAnimation::Task(TaskType::Shower))
        } else if same_text(s, "task/eyes_rest") {
            Some(LilGuyAnimation::Task(TaskType::EyesRest))
        } else if same_text(s, "task/take_meds") {
            Some(LilGuyAnimation::Task(TaskType::TakeMeds))
        } else if same_text(s, "task/sleep") {
            Some(LilGuyAnimation::Task(TaskType::Sleep))
        } else if same_text(s, "task/bathroom") {
            Some(LilGuyAnimation::Task(TaskType::Bathroom))
        } else {
            None
        }
    }

    /// The key that a key text names, matched without regard to case.
    pub fn parse_key(s: &str) -> (r: Result<LilGuyAnimation, ParseError>)
        ensures
            r matches Ok(k) ==> key_of(lower_of(s@)) == Some(k@),
            r is Err ==> key_of(lower_of(s@)) is None && r == Err::<LilGuyAnimation, ParseError>(ParseError::UnknownKey),
    {
        let lower = lowercase(s);
        match LilGuyAnimation::from_lowercase(lower.as_str()) {
            Some(k) => Ok(k),
            None => Err(ParseError::UnknownKey),
        }
    }
}

/// Whether every character of `s` is a decimal digit.
pub open spec fn all_digits(s: Seq<char>) -> bool {
    forall|i: int| 0 <= i < s.len() ==> '0' <= #[trigger] s[i] <= '9'
}

/// The number that the decimal digits `s` write.
pub open spec fn digits_value(s: Seq<char>) -> nat
    decreases s.len(),
{
    if s.len() == 0 {
        0
    } else {
        digits_value(s.drop_last()) * 10 + (s.last() as nat - '0' as nat) as nat
    }
}

/// The duration that the text after `frame ` gives: `<N>ms`, with `N` one
/// or more decimal digits, as long as it fits in nanoseconds.
pub open spec fn frame_duration(s: Seq<char>) -> Option<Span> {
    let n = s.len() - 2;
    if s.len() >= 3 && s.subrange(n, s.len() as int) == "ms"@ && all_digits(s.subrange(0, n))
        && digits_value(s.subrange(0, n)) * 1_000_000 <= u64::MAX {
        Some(Span { nanos: (digits_value(s.subrange(0, n)) * 1_000_000) as u64 })
    } else {
        None
    }
}

/// The duration that `cs[a..b]` gives as the text after `frame `.
fn parse_frame_duration(cs: &Vec<char>, a: usize, b: usize) -> (r: Option<Span>)
    requires
        a <= b <= cs@.len(),
    ensures
        r == frame_duration(cs@.subrange(a as int, b as int)),
{
    let ghost s = cs@.subrange(a as int, b as int);
    if b - a < 3 || !has_prefix(cs, b - 2, b, "ms") {
        proof {
            if s.len() >= 3 {
                assert(s.subrange(s.len() - 2, s.len() as int) =~= cs@.subrange(b - 2, b as int));
            }
        }
        return None;
    }
    proof {
        reveal_strlit("ms");
        assert(s.subrange(s.len() - 2, s.len() as int) =~= cs@.subrange(b - 2, b as int));
    }
    let end = b - 2;
    let mut v: u64 = 0;
    let mut i: usize = a;
    while i < end
        invariant
            a <= i <= end,
            end + 2 == b,
            s == cs@.subrange(a as int, b as int),
            b <= cs@.len(),
            all_digits(cs@.subrange(a as int, i as int)),
            v == digits_value(cs@.subrange(a as int, i as int)),
            v * 1_000_000 <= u64::MAX,
        decreases end - i,
    {
        let c = cs[i];
        let ghost pre = cs@.subrange(a as int, i as int);
        let ghost next = cs@.subrange(a as int, i + 1);
        assert(next.drop_last() =~= pre);
        if c < '0' || c > '9' {
            proof {
                assert(!all_digits(s.subrange(0, s.len() - 2))) by {
                    assert(s.subrange(0, s.len() - 2)[i - a] == c);
                }
            }
            return None;
        }
        let d = (c as u32 - '0' as u32) as u64;
        if v > (u64::MAX / 1_000_000 - d) / 10 {
            proof {
                let w = s.subrange(0, s.len() - 2);
                lemma_digits_grow(w, (i + 1 - a) as int);
                assert(w.subrange(0, i + 1 - a) =~= next);
                assert(digits_value(next) * 1_000_000 > u64::MAX) by (nonlinear_arith)
                    requires digits_value(next) == v * 10 + d, v > (u64::MAX / 1_000_000 - d) / 10, d <= 9;
            }
            return None;
        }
        v = v * 10 + d;
        i = i + 1;
    }
    proof {
        assert(s.subrange(0, s.len() - 2) =~= cs@.subrange(a as int, end as int));
    }
    if end == a {
        return None;
    }
    Some(Span { nanos: v * 1_000_000 })
}

/// Digits only add to a number: a prefix writes no more than the whole.
pub proof fn lemma_digits_grow(s: Seq<char>, k: int)
    requires
        0 <= k <= s.len(),
    ensures
        digits_value(s.subrange(0, k)) <= digits_value(s) || !all_digits(s),
    decreases s.len() - k,
{
    if k < s.len() {
        lemma_digits_grow(s, k + 1);
        assert(s.subrange(0, k + 1).drop_last() =~= s.subrange(0, k));
    } else {
        assert(s.subrange(0, k) =~= s);
    }
}


/// A library read up to some line: the blocks already closed, the key of
/// the open block, its closed frames, and its open frame.
pub struct Draft {
    pub done: Seq<EntryView>,
    pub key: Option<AnimKey>,
    pub frames: Seq<FrameView>,
    pub frame: Option<FrameView>,
}

pub open spec fn starts_with(line: Seq<char>, p: Seq<char>) -> bool {
    p.len() <= line.len() && line.subrange(0, p.len() as int) == p
}

/// The open block's frames, the open frame included.
pub open spec fn all_frames(st: Draft) -> Seq<FrameView> {
    match st.frame {
        Some(f) => st.frames.push(f),
        None => st.frames,
    }
}

/// The closed blocks, the open block included.
pub open spec fn all_blocks(st: Draft) -> Seq<EntryView> {
    match st.key {
        Some(k) => st.done.push((k, all_frames(st))),
        None => st.done,
    }
}

/// Reads one more line.
pub open spec fn step(st: Draft, line: Seq<char>) -> Result<Draft, ParseError> {
    if starts_with(line, "animation "@) {
        if st.key is Some && all_frames(st).len() == 0 {
            Err(ParseError::EmptyAnimation)
        } else {
            match key_of(lower_of(line.subrange(10, line.len() as int))) {
                None => Err(ParseError::UnknownKey),
                Some(k) => Ok(Draft { done: all_blocks(st), key: Some(k), frames: Seq::empty(), frame: None }),
            }
        }
    } else if starts_with(line, "frame "@) {
        if st.key is None {
            Err(ParseError::Misplaced)
        } else {
            match frame_duration(line.subrange(6, line.len() as int)) {
                None => Err(ParseError::BadDuration),
                Some(d) => Ok(Draft {
                    frames: all_frames(st),
                    frame: Some(FrameView { duration: d, lines: Seq::empty() }),
                    ..st
                }),
            }
        }
    } else {
        match st.frame {
            None => Err(ParseError::Misplaced),
            Some(f) => Ok(Draft { frame: Some(FrameView { lines: f.lines.push(line), ..f }), ..st }),
        }
    }
}

/// Reads `lines` in order; the first error stops the reading.
pub open spec fn draft_of(lines: Seq<Seq<char>>) -> Result<Draft, ParseError>
    decreases lines.len(),
{
    if lines.len() == 0 {
        Ok(Draft { done: Seq::empty(), key: None, frames: Seq::empty(), frame: None })
    } else {
        match draft_of(lines.drop_last()) {
            Err(e) => Err(e),
            Ok(st) => step(st, lines.last()),
        }
    }
}

/// The library's entries once every line is read.
pub open spec fn finish(st: Draft) -> Result<Seq<EntryView>, ParseError> {
    if st.key is Some && all_frames(st).len() == 0 {
        Err(ParseError::EmptyAnimation)
    } else if lookup(all_blocks(st), AnimKey::Idle) is None {
        Err(ParseError::NoIdle)
    } else {
        Ok(all_blocks(st))
    }
}

/// The entries of the library that `text` writes, in order.
pub open spec fn parsed(text: Seq<char>) -> Result<Seq<EntryView>, ParseError> {
    match draft_of(lines_of(text)) {
        Err(e) => Err(e),
        Ok(st) => finish(st),
    }
}

/// The blocks of `text`, in order, with every check but the one for `idle`.
pub fn read_blocks(text: &str) -> (r: Result<Vec<(LilGuyAnimation, Vec<AnimationFrame>)>, ParseError>)
    ensures
        match draft_of(lines_of(text@)) {
            Err(e) => r == Err::<Vec<(LilGuyAnimation, Vec<AnimationFrame>)>, ParseError>(e),
            Ok(st) => if st.key is Some && all_frames(st).len() == 0 {
                r == Err::<Vec<(LilGuyAnimation, Vec<AnimationFrame>)>, ParseError>(ParseError::EmptyAnimation)
            } else {
                r matches Ok(es) && entries_view(es@) == all_blocks(st)
            },
        },
        r matches Ok(es) ==> forall|i: int| 0 <= i < es@.len() ==> (#[trigger] es@[i]).1@.len() > 0,
{
    let cs = chars_of(text);
    let bounds = line_bounds(&cs);
    let ghost lines = lines_of(text@);
    let mut done: Vec<(LilGuyAnimation, Vec<AnimationFrame>)> = Vec::new();
    let mut key: Option<LilGuyAnimation> = None;
    let mut frames: Vec<AnimationFrame> = Vec::new();
    let mut frame: Option<AnimationFrame> = None;
    let n = bounds.len();
    let mut i: usize = 0;
    proof {
        assert(lines.subrange(0, 0) =~= Seq::<Seq<char>>::empty());
        assert(entries_view(done@) =~= Seq::<EntryView>::empty());
        assert(frames_view(frames@) =~= Seq::<FrameView>::empty());
        assert(lines.len() == line_ranges(text@).len());
    }
    while i < n
        invariant
            cs@ == text@,
            n == bounds@.len(),
            lines == lines_of(text@),
            lines.len() == n,
            forall|k: int| 0 <= k < n ==> (#[trigger] bounds@[k]).0 <= bounds@[k].1 <= cs@.len(),
            forall|k: int| 0 <= k < n ==> #[trigger] lines[k] == cs@.subrange(bounds@[k].0 as int, bounds@[k].1 as int),
            i <= n,
            draft_of(lines.subrange(0, i as int)) matches Ok(st) && st == (Draft {
                done: entries_view(done@),
                key: match key { Some(k) => Some(k@), None => None },
                frames: frames_view(frames@),
                frame: match frame { Some(f) => Some(f@), None => None },
            }),
            key is None ==> frame is None && frames@.len() == 0,
            forall|k: int| 0 <= k < done@.len() ==> (#[trigger] done@[k]).1@.len() > 0,
        decreases n - i,
    {
        let ghost st = draft_of(lines.subrange(0, i as int))->Ok_0;
        assert(lines.subrange(0, i + 1).drop_last() =~= lines.subrange(0, i as int));
        assert(lines.subrange(0, i + 1).last() == lines[i as int]);
        let (a, b) = bounds[i];
        let ghost line = cs@.subrange(a as int, b as int);
        proof {
            reveal_strlit("animation ");
            reveal_strlit("frame ");
            assert(lines[i as int] == line);
        }
        if has_prefix(&cs, a, b, "animation ") {
            assert(starts_with(line, "animation "@)) by {
                assert(line.subrange(0, 10) =~= cs@.subrange(a as int, a + 10));
            }
            let closed_frames = if frame.is_some() || frames.len() > 0 { true } else { false };
            if key.is_some() && !closed_frames {
                proof {
                    lemma_draft_error_persists(lines, i + 1);
                }
                return Err(ParseError::EmptyAnimation);
            }
            let header = String::from_str(text.substring_char(a + 10, b));
            assert(header@ =~= line.subrange(10, line.len() as int));
            let k = match LilGuyAnimation::parse_key(header.as_str()) {
                Ok(k) => k,
                Err(e) => {
                    proof {
                        lemma_draft_error_persists(lines, i + 1);
                    }
                    return Err(e);
                },
            };
            match frame {
                Some(f) => {
                    frames.push(f);
                },
                None => {},
            }
            assert(frames_view(frames@) =~= all_frames(st));
            let ghost done_before = done@;
            match key {
                Some(old_key) => {
                    let ghost fv = frames_view(frames@);
                    done.push((old_key, frames));
                    assert(entries_view(done@) =~= entries_view(done_before).push((old_key@, fv)));
                },
                None => {},
            }
            key = Some(k);
            frames = Vec::new();
            frame = None;
            proof {
                assert(entries_view(done@) =~= all_blocks(st));
                assert(frames_view(frames@) =~= Seq::<FrameView>::empty());
                assert(step(st, line) is Ok);
            }
        } else if has_prefix(&cs, a, b, "frame ") {
            assert(starts_with(line, "frame "@)) by {
                assert(line.subrange(0, 6) =~= cs@.subrange(a as int, a + 6));
            }
            assert(!starts_with(line, "animation "@)) by {
                if line.len() >= 10 {
                    assert(line.subrange(0, 10) =~= cs@.subrange(a as int, a + 10));
                }
            }
            if key.is_none() {
                proof {
                    lemma_draft_error_persists(lines, i + 1);
                }
                return Err(ParseError::Misplaced);
            }
            let d = parse_frame_duration(&cs, a + 6, b);
            assert(cs@.subrange(a + 6, b as int) =~= line.subrange(6, line.len() as int));
            match d {
                None => {
                    proof {
                        lemma_draft_error_persists(lines, i + 1);
                    }
                    return Err(ParseError::BadDuration);
                },
                Some(d) => {
                    match frame {
                        Some(f) => {
                            frames.push(f);
                        },
                        None => {},
                    }
                    proof {
                        assert(frames_view(frames@) =~= all_frames(st));
                    }
                    let empty: Vec<String> = Vec::new();
                    frame = Some(AnimationFrame { duration: d, lines: empty });
                    proof {
                        assert(frame->Some_0@.lines =~= Seq::<Seq<char>>::empty());
                        assert(step(st, line) is Ok);
                    }
                },
            }
        } else {
            assert(!starts_with(line, "animation "@)) by {
                if line.len() >= 10 {
                    assert(line.subrange(0, 10) =~= cs@.subrange(a as int, a + 10));
                }
            }
            assert(!starts_with(line, "frame "@)) by {
                if line.len() >= 6 {
                    assert(line.subrange(0, 6) =~= cs@.subrange(a as int, a + 6));
                }
            }
            match frame {
                None => {
                    proof {
                        lemma_draft_error_persists(lines, i + 1);
                    }
                    return Err(ParseError::Misplaced);
                },
                Some(f) => {
                    let row = String::from_str(text.substring_char(a, b));
                    let mut f = f;
                    let ghost before = f@;
                    f.lines.push(row);
                    proof {
                        assert(f@.lines =~= before.lines.push(line));
                    }
                    frame = Some(f);
                    assert(step(st, line) is Ok);
                },
            }
        }
        i = i + 1;
    }
    assert(lines.subrange(0, n as int) =~= lines);
    let ghost st = draft_of(lines)->Ok_0;
    if key.is_some() && frame.is_none() && frames.len() == 0 {
        return Err(ParseError::EmptyAnimation);
    }
    match frame {
        Some(f) => {
            frames.push(f);
        },
        None => {},
    }
    assert(frames_view(frames@) =~= all_frames(st));
    let ghost done_before = done@;
    match key {
        Some(k) => {
            let ghost fv = frames_view(frames@);
            done.push((k, frames));
            assert(entries_view(done@) =~= entries_view(done_before).push((k@, fv)));
        },
        None => {},
    }
    proof {
        assert(entries_view(done@) =~= all_blocks(st));
    }
    Ok(done)
}

/// Once the first `k` lines give an error, so do all of them.
pub proof fn lemma_draft_error_persists(lines: Seq<Seq<char>>, k: int)
    requires
        0 <= k <= lines.len(),
        draft_of(lines.subrange(0, k)) is Err,
    ensures
        draft_of(lines) == draft_of(lines.subrange(0, k)),
    decreases lines.len() - k,
{
    if k < lines.len() {
        assert(lines.subrange(0, k + 1).drop_last() =~= lines.subrange(0, k));
        lemma_draft_error_persists(lines, k + 1);
    } else {
        assert(lines.subrange(0, k) =~= lines);
    }
}


/// The length of the longest of `rows`, or -1 where there is none.
fn widest_of_rows(rows: &Vec<String>) -> (r: i128)
    ensures
        r == widest_row(rows@.map_values(|l: String| l@)),
        -1 <= r <= usize::MAX,
{
    let mut m: i128 = -1;
    let mut i: usize = 0;
    while i < rows.len()
        invariant
            i <= rows@.len(),
            m == widest_row(rows@.subrange(0, i as int).map_values(|l: String| l@)),
            -1 <= m <= usize::MAX,
        decreases rows@.len() - i,
    {
        assert(rows@.subrange(0, i + 1).map_values(|l: String| l@).drop_last()
            =~= rows@.subrange(0, i as int).map_values(|l: String| l@));
        let w = rows[i].as_str().unicode_len() as i128;
        if w > m {
            m = w;
        }
        i = i + 1;
    }
    assert(rows@.subrange(0, rows@.len() as int) =~= rows@);
    m
}

/// The longest row of `fs`, and the most rows of a frame of `fs`; -1 for
/// none.
fn frames_size(fs: &Vec<AnimationFrame>) -> (r: (i128, i128))
    ensures
        r.0 == widest_in_frames(frames_view(fs@)),
        r.1 == tallest_in_frames(frames_view(fs@)),
        -1 <= r.0 <= usize::MAX,
        -1 <= r.1 <= usize::MAX,
{
    let mut w: i128 = -1;
    let mut h: i128 = -1;
    let mut i: usize = 0;
    while i < fs.len()
        invariant
            i <= fs@.len(),
            w == widest_in_frames(frames_view(fs@.subrange(0, i as int))),
            h == tallest_in_frames(frames_view(fs@.subrange(0, i as int))),
            -1 <= w <= usize::MAX,
            -1 <= h <= usize::MAX,
        decreases fs@.len() - i,
    {
        assert(frames_view(fs@.subrange(0, i + 1)).drop_last() =~= frames_view(fs@.subrange(0, i as int)));
        let rw = widest_of_rows(&fs[i].lines);
        if rw > w {
            w = rw;
        }
        let rh = fs[i].lines.len() as i128;
        if rh > h {
            h = rh;
        }
        i = i + 1;
    }
    assert(fs@.subrange(0, fs@.len() as int) =~= fs@);
    (w, h)
}

/// The metadata of a library's entries: the highest sadness level, and the
/// size of the largest frame.
fn measure(es: &Vec<(LilGuyAnimation, Vec<AnimationFrame>)>) -> (r: (u32, usize, usize))
    ensures
        r.0 == saddest(entries_view(es@)),
        r.1 == or_one(widest_in_entries(entries_view(es@))),
        r.2 == or_one(tallest_in_entries(entries_view(es@))),
{
    let mut sad: u32 = 0;
    let mut w: i128 = -1;
    let mut h: i128 = -1;
    let mut i: usize = 0;
    while i < es.len()
        invariant
            i <= es@.len(),
            sad == saddest(entries_view(es@.subrange(0, i as int))),
            w == widest_in_entries(entries_view(es@.subrange(0, i as int))),
            h == tallest_in_entries(entries_view(es@.subrange(0, i as int))),
            -1 <= w <= usize::MAX,
            -1 <= h <= usize::MAX,
        decreases es@.len() - i,
    {
        assert(entries_view(es@.subrange(0, i + 1)).drop_last() =~= entries_view(es@.subrange(0, i as int)));
        let (fw, fh) = frames_size(&es[i].1);
        if fw > w {
            w = fw;
        }
        if fh > h {
            h = fh;
        }
        match es[i].0 {
            LilGuyAnimation::Sad(n) => {
                if n > sad {
                    sad = n;
                }
            },
            _ => {},
        }
        i = i + 1;
    }
    assert(es@.subrange(0, es@.len() as int) =~= es@);
    let bw: usize = if w < 0 { 1 } else { w as usize };
    let bh: usize = if h < 0 { 1 } else { h as usize };
    (sad, bw, bh)
}

impl Animations {
    /// Reads an animation library from its text.
    pub fn load(text: &str) -> (r: Result<Animations, ParseError>)
        ensures
            match parsed(text@) {
                Err(e) => r == Err::<Animations, ParseError>(e),
                Ok(es) => r matches Ok(a) && a.entries() == es && a.wf(),
            },
    {
        let anims = match read_blocks(text) {
            Ok(anims) => anims,
            Err(e) => {
                return Err(e);
            },
        };
        let mut idle_found = false;
        let mut i: usize = anims.len();
        assert(anims@.subrange(0, i as int) =~= anims@);
        while i > 0 && !idle_found
            invariant
                i <= anims@.len(),
                idle_found ==> lookup(entries_view(anims@), AnimKey::Idle) is Some,
                !idle_found ==> lookup(entries_view(anims@), AnimKey::Idle) == lookup(
                    entries_view(anims@.subrange(0, i as int)),
                    AnimKey::Idle,
                ),
            decreases i,
        {
            assert(entries_view(anims@.subrange(0, i as int)).drop_last() =~= entries_view(
                anims@.subrange(0, i - 1),
            ));
            if matches!(anims[i - 1].0, LilGuyAnimation::Idle) {
                idle_found = true;
            }
            i = i - 1;
        }
        proof {
            if !idle_found {
                assert(entries_view(anims@.subrange(0, 0)) =~= Seq::<EntryView>::empty());
            }
        }
        if !idle_found {
            return Err(ParseError::NoIdle);
        }
        let (max_sadness, width, height) = measure(&anims);
        Ok(Animations { anims, max_sadness, max_bounds: (width, height) })
    }
}

} // verus!
