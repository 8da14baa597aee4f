//! Animation keys, their fallback chain, and the library of frames.

use vstd::prelude::*;
use vstd::string::StringExecFns;
use crate::clock::Span;
use crate::task::{TaskKind, TaskType};

verus! {

/// An animation key, as a mathematical value.
pub enum AnimKey {
    Idle,
    Walk,
    WalkLeft,
    WalkRight,
    Sad(u32),
    Want(TaskKind),
    Task(TaskKind),
}

/// The task kind that stands for tasks in general.
pub open spec fn general() -> TaskKind {
    TaskKind::Other(Seq::empty())
}

/// Which animation the companion plays.
#[derive(Debug)]
pub enum LilGuyAnimation {
    Idle,
    Walk,
    WalkLeft,
    WalkRight,
    Sad(u32),
    Want(TaskType),
    Task(TaskType),
}

impl View for LilGuyAnimation {
    type V = AnimKey;

    open spec fn view(&self) -> AnimKey {
        match self {
            LilGuyAnimation::Idle => AnimKey::Idle,
            LilGuyAnimation::Walk => AnimKey::Walk,
            LilGuyAnimation::WalkLeft => AnimKey::WalkLeft,
            LilGuyAnimation::WalkRight => AnimKey::WalkRight,
            LilGuyAnimation::Sad(n) => AnimKey::Sad(*n),
            LilGuyAnimation::Want(t) => AnimKey::Want(t@),
            LilGuyAnimation::Task(t) => AnimKey::Task(t@),
        }
    }
}

impl Clone for LilGuyAnimation {
    fn clone(&self) -> (r: LilGuyAnimation)
        ensures
            r == *self,
    {
        match self {
            LilGuyAnimation::Idle => LilGuyAnimation::Idle,
            LilGuyAnimation::Walk => LilGuyAnimation::Walk,
            LilGuyAnimation::WalkLeft => LilGuyAnimation::WalkLeft,
            LilGuyAnimation::WalkRight => LilGuyAnimation::WalkRight,
            LilGuyAnimation::Sad(n) => LilGuyAnimation::Sad(*n),
            LilGuyAnimation::Want(t) => LilGuyAnimation::Want(t.clone()),
            LilGuyAnimation::Task(t) => LilGuyAnimation::Task(t.clone()),
        }
    }
}

impl PartialEq for LilGuyAnimation {
    fn eq(&self, other: &LilGuyAnimation) -> (r: bool)
        ensures
            r == (self@ == other@),
    {
        match self {
            LilGuyAnimation::Idle => match other {
                LilGuyAnimation::Idle => true,
                _ => false,
            },
            LilGuyAnimation::Walk => match other {
                LilGuyAnimation::Walk => true,
                _ => false,
            },
            LilGuyAnimation::WalkLeft => match other {
                LilGuyAnimation::WalkLeft => true,
                _ => false,
            },
            LilGuyAnimation::WalkRight => match other {
                LilGuyAnimation::WalkRight => true,
                _ => false,
            },
            LilGuyAnimation::Sad(a) => match other {
                LilGuyAnimation::Sad(b) => *a == *b,
                _ => false,
            },
            LilGuyAnimation::Want(a) => match other {
                LilGuyAnimation::Want(b) => a.eq(b),
                _ => false,
            },
            LilGuyAnimation::Task(a) => match other {
                LilGuyAnimation::Task(b) => a.eq(b),
                _ => false,
            },
        }
    }
}

impl vstd::std_specs::cmp::PartialEqSpecImpl for LilGuyAnimation {
    open spec fn obeys_eq_spec() -> bool {
        true
    }

    open spec fn eq_spec(&self, other: &LilGuyAnimation) -> bool {
        self@ == other@
    }
}

impl Eq for LilGuyAnimation {
}

/// One step down the fallback chain; `Idle` has none.
pub open spec fn fallback_of(k: AnimKey) -> Option<AnimKey> {
    match k {
        AnimKey::Idle => None,
        AnimKey::WalkLeft | AnimKey::WalkRight => Some(AnimKey::Walk),
        AnimKey::Sad(n) => if n > 0 {
            Some(AnimKey::Sad((n - 1) as u32))
        } else {
            Some(AnimKey::Idle)
        },
        AnimKey::Want(t) => if t != general() {
            Some(AnimKey::Sad(0))
        } else {
            Some(AnimKey::Idle)
        },
        AnimKey::Task(t) => if t != general() {
            Some(AnimKey::Task(general()))
        } else {
            Some(AnimKey::Idle)
        },
        AnimKey::Walk => Some(AnimKey::Idle),
    }
}

/// How many fallback steps lead from `k` to `Idle`.
pub open spec fn rank(k: AnimKey) -> nat {
    match k {
        AnimKey::Idle => 0,
        AnimKey::Walk => 1,
        AnimKey::WalkLeft | AnimKey::WalkRight => 2,
        AnimKey::Sad(n) => n as nat + 1,
        AnimKey::Want(t) => if t != general() { 2 } else { 1 },
        AnimKey::Task(t) => if t != general() { 2 } else { 1 },
    }
}

/// The fallback chain of `k`, down to the key with no fallback.
pub open spec fn chain(k: AnimKey) -> Seq<AnimKey>
    decreases rank(k),
{
    match fallback_of(k) {
        None => seq![k],
        Some(j) => if rank(j) < rank(k) {
            seq![k] + chain(j)
        } else {
            seq![k]
        },
    }
}

/// Each fallback step brings the key one step closer to `Idle`.
pub proof fn lemma_fallback_rank(k: AnimKey)
    ensures
        fallback_of(k) is None <==> k == AnimKey::Idle,
        fallback_of(k) matches Some(j) ==> rank(j) + 1 == rank(k),
{
}

/// The fallback chain of every key ends at `Idle` after exactly `rank(k)`
/// steps; `Idle` itself has no fallback. For every key but a sadness level
/// of three or more, that is three steps at most.
pub proof fn lemma_fallback_terminates(k: AnimKey)
    ensures
        chain(k).len() == rank(k) + 1,
        chain(k).last() == AnimKey::Idle,
        chain(k)[0] == k,
        forall|i: int| 0 <= i < chain(k).len() - 1 ==> fallback_of(#[trigger] chain(k)[i]) == Some(chain(k)[i + 1]),
        !(k matches AnimKey::Sad(n) && n >= 3) ==> rank(k) <= 3,
        fallback_of(AnimKey::Idle) is None,
    decreases rank(k),
{
    lemma_fallback_rank(k);
    match fallback_of(k) {
        None => {},
        Some(j) => {
            lemma_fallback_terminates(j);
            assert forall|i: int| 0 <= i < chain(k).len() - 1 implies fallback_of(#[trigger] chain(k)[i])
                == Some(chain(k)[i + 1]) by {
                if i > 0 {
                    assert(chain(k)[i] == chain(j)[i - 1]);
                }
            }
        },
    }
}

impl LilGuyAnimation {
    /// The key one step down the fallback chain, or `None` for `Idle`.
    pub fn fallback(&self) -> (r: Option<LilGuyAnimation>)
        ensures
            r matches Some(k) ==> fallback_of(self@) == Some(k@),
            r is None ==> fallback_of(self@) is None,
    {
        match self {
            LilGuyAnimation::Idle => None,
            LilGuyAnimation::WalkLeft | LilGuyAnimation::WalkRight => Some(LilGuyAnimation::Walk),
            LilGuyAnimation::Sad(n) => if *n > 0 {
                Some(LilGuyAnimation::Sad(*n - 1))
            } else {
                Some(LilGuyAnimation::Idle)
            },
            LilGuyAnimation::Want(t) => if !is_general(t) {
                Some(LilGuyAnimation::Sad(0))
            } else {
                Some(LilGuyAnimation::Idle)
            },
            LilGuyAnimation::Task(t) => if !is_general(t) {
                Some(LilGuyAnimation::Task(TaskType::Other(String::new())))
            } else {
                Some(LilGuyAnimation::Idle)
            },
            LilGuyAnimation::Walk => Some(LilGuyAnimation::Idle),
        }
    }

    /// The key one step down the fallback chain; `Idle` for `Idle`.
    pub fn get_fallback(&self) -> (r: LilGuyAnimation)
        ensures
            fallback_of(self@) matches Some(k) ==> r@ == k,
            fallback_of(self@) is None ==> r@ == AnimKey::Idle,
    {
        match self.fallback() {
            Some(k) => k,
            None => LilGuyAnimation::Idle,
        }
    }
}

/// Whether `t` is the general task kind.
fn is_general(t: &TaskType) -> (r: bool)
    ensures
        r == (t@ == general()),
{
    match t {
        TaskType::Other(s) => {
            let r = s.as_str().is_empty();
            proof {
                if r {
                    assert(s@ =~= Seq::<char>::empty());
                }
            }
            r
        },
        _ => false,
    }
}

/// One frame: how long it shows, and its rows of text.
#[derive(Debug)]
pub struct AnimationFrame {
    pub duration: Span,
    pub lines: Vec<String>,
}

/// A frame, as a mathematical value.
pub struct FrameView {
    pub duration: Span,
    pub lines: Seq<Seq<char>>,
}

impl View for AnimationFrame {
    type V = FrameView;

    open spec fn view(&self) -> FrameView {
        FrameView { duration: self.duration, lines: self.lines@.map_values(|l: String| l@) }
    }
}

} // verus!

verus! {

/// A library entry, as a mathematical value.
pub type EntryView = (AnimKey, Seq<FrameView>);

pub open spec fn frames_view(fs: Seq<AnimationFrame>) -> Seq<FrameView> {
    fs.map_values(|f: AnimationFrame| f@)
}

pub open spec fn entries_view(es: Seq<(LilGuyAnimation, Vec<AnimationFrame>)>) -> Seq<EntryView> {
    es.map_values(|e: (LilGuyAnimation, Vec<AnimationFrame>)| (e.0@, frames_view(e.1@)))
}

/// The frames of the last entry for `k`.
pub open spec fn lookup(es: Seq<EntryView>, k: AnimKey) -> Option<Seq<FrameView>>
    decreases es.len(),
{
    if es.len() == 0 {
        None
    } else if es.last().0 == k {
        Some(es.last().1)
    } else {
        lookup(es.drop_last(), k)
    }
}

/// The frames for `k`, following the fallback chain past keys that have
/// none.
pub open spec fn resolve(es: Seq<EntryView>, k: AnimKey) -> Option<Seq<FrameView>>
    decreases rank(k),
{
    match lookup(es, k) {
        Some(fs) => Some(fs),
        None => match fallback_of(k) {
            None => None,
            Some(j) => if rank(j) < rank(k) {
                resolve(es, j)
            } else {
                None
            },
        },
    }
}

pub open spec fn max(a: int, b: int) -> int {
    if a < b {
        b
    } else {
        a
    }
}

/// The longest row, or -1 where there is none.
pub open spec fn widest_row(rows: Seq<Seq<char>>) -> int
    decreases rows.len(),
{
    if rows.len() == 0 {
        -1
    } else {
        max(widest_row(rows.drop_last()), rows.last().len() as int)
    }
}

pub open spec fn widest_in_frames(fs: Seq<FrameView>) -> int
    decreases fs.len(),
{
    if fs.len() == 0 {
        -1
    } else {
        max(widest_in_frames(fs.drop_last()), widest_row(fs.last().lines))
    }
}

pub open spec fn widest_in_entries(es: Seq<EntryView>) -> int
    decreases es.len(),
{
    if es.len() == 0 {
        -1
    } else {
        max(widest_in_entries(es.drop_last()), widest_in_frames(es.last().1))
    }
}

/// The most rows of a frame, or -1 where there is no frame.
pub open spec fn tallest_in_frames(fs: Seq<FrameView>) -> int
    decreases fs.len(),
{
    if fs.len() == 0 {
        -1
    } else {
        max(tallest_in_frames(fs.drop_last()), fs.last().lines.len() as int)
    }
}

pub open spec fn tallest_in_entries(es: Seq<EntryView>) -> int
    decreases es.len(),
{
    if es.len() == 0 {
        -1
    } else {
        max(tallest_in_entries(es.drop_last()), tallest_in_frames(es.last().1))
    }
}

/// The highest sadness level with an entry, or 0.
pub open spec fn saddest(es: Seq<EntryView>) -> int
    decreases es.len(),
{
    if es.len() == 0 {
        0
    } else {
        max(
            saddest(es.drop_last()),
            match es.last().0 {
                AnimKey::Sad(n) => n as int,
                _ => 0,
            },
        )
    }
}

/// `m`, or 1 where it is -1 (nothing to measure).
pub open spec fn or_one(m: int) -> int {
    if m < 0 {
        1
    } else {
        m
    }
}

/// The animation library: frames by key, with the highest sadness level and
/// the largest frame size.
#[derive(Debug)]
pub struct Animations {
    pub anims: Vec<(LilGuyAnimation, Vec<AnimationFrame>)>,
    pub max_sadness: u32,
    pub max_bounds: (usize, usize),
}

impl Animations {
    pub open spec fn entries(&self) -> Seq<EntryView> {
        entries_view(self.anims@)
    }

    /// Every entry has a frame, `Idle` has an entry, and the metadata is
    /// that of the entries.
    pub open spec fn wf(&self) -> bool {
        &&& forall|i: int| 0 <= i < self.anims@.len() ==> (#[trigger] self.anims@[i]).1@.len() > 0
        &&& lookup(self.entries(), AnimKey::Idle) is Some
        &&& self.max_sadness == saddest(self.entries())
        &&& self.max_bounds.0 == or_one(widest_in_entries(self.entries()))
        &&& self.max_bounds.1 == or_one(tallest_in_entries(self.entries()))
    }

    /// The frames of `anim` itself, without fallback.
    pub fn get_raw(&self, anim: &LilGuyAnimation) -> (r: Option<&Vec<AnimationFrame>>)
        ensures
            match r {
                Some(fs) => lookup(self.entries(), anim@) == Some(frames_view(fs@)),
                None => lookup(self.entries(), anim@) is None,
            },
            r matches Some(fs) ==> exists|i: int| 0 <= i < self.anims@.len() && self.anims@[i].1 == *fs,
    {
        let mut i: usize = self.anims.len();
        assert(self.anims@.subrange(0, i as int) =~= self.anims@);
        while i > 0
            invariant
                i <= self.anims@.len(),
                lookup(self.entries(), anim@) == lookup(entries_view(self.anims@.subrange(0, i as int)), anim@),
            decreases i,
        {
            let ghost pre = self.anims@.subrange(0, i as int);
            assert(entries_view(pre).drop_last() =~= entries_view(self.anims@.subrange(0, i - 1)));
            if self.anims[i - 1].0 == *anim {
                return Some(&self.anims[i - 1].1);
            }
            i = i - 1;
        }
        assert(entries_view(self.anims@.subrange(0, 0)) =~= Seq::<EntryView>::empty());
        None
    }

    /// The frames of `anim`, following the fallback chain to a key that has
    /// frames; `Idle` always has them.
    pub fn get(&self, anim: &LilGuyAnimation) -> (r: &Vec<AnimationFrame>)
        requires
            self.wf(),
        ensures
            resolve(self.entries(), anim@) == Some(frames_view(r@)),
            r@.len() > 0,
    {
        let mut cur = anim.clone();
        loop
            invariant
                self.wf(),
                resolve(self.entries(), cur@) == resolve(self.entries(), anim@),
            decreases rank(cur@),
        {
            match self.get_raw(&cur) {
                Some(fs) => {
                    return fs;
                },
                None => {
                    proof {
                        lemma_fallback_rank(cur@);
                    }
                    match cur.fallback() {
                        Some(next) => {
                            cur = next;
                        },
                        None => {
                            // Only `Idle` has no fallback, and it has frames.
                            assert(false);
                            return self.get_raw(&cur).unwrap();
                        },
                    }
                },
            }
        }
    }
}

} // verus!

verus! {

/// In a library with `Idle`, every key resolves to frames.
pub proof fn lemma_resolve_some(es: Seq<EntryView>, k: AnimKey)
    requires
        lookup(es, AnimKey::Idle) is Some,
    ensures
        resolve(es, k) is Some,
    decreases rank(k),
{
    lemma_fallback_rank(k);
    if lookup(es, k) is None {
        match fallback_of(k) {
            Some(j) => lemma_resolve_some(es, j),
            None => {},
        }
    }
}

} // verus!
