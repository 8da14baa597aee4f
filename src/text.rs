//! Characters and lines of text.

use vstd::prelude::*;
use vstd::std_specs::iter::IteratorSpec;
use vstd::string::StrSliceExecFns;

verus! {

broadcast use vstd::string::group_string_axioms;

/// The characters of `s`.
pub fn chars_of(s: &str) -> (r: Vec<char>)
    ensures
        r@ == s@,
{
    let mut it = s.chars();
    let mut r: Vec<char> = Vec::new();
    loop
        invariant
            it.obeys_prophetic_iter_laws(),
            r@ + it.remaining() == s@,
        decreases s@.len() - r@.len(),
    {
        let ghost before = it;
        match it.next() {
            Some(c) => {
                proof {
                    vstd::string::next_postcondition(&before, &it, Some(c));
                }
                r.push(c);
                assert(r@ + it.remaining() =~= s@);
            },
            None => {
                proof {
                    vstd::string::next_postcondition(&before, &it, None);
                }
                assert(r@ =~= s@);
                return r;
            },
        }
    }
}


/// The lines ended so far in `s`, as ranges of positions that leave out
/// the line ending (`\n`, or `\r\n`), and where the line in progress starts.
pub open spec fn scan_lines(s: Seq<char>) -> (Seq<(int, int)>, int)
    decreases s.len(),
{
    if s.len() == 0 {
        (Seq::empty(), 0)
    } else {
        let (done, start) = scan_lines(s.drop_last());
        let n = s.len() - 1;
        if s[n] == '\n' {
            let end = if n > start && s[n - 1] == '\r' { n - 1 } else { n };
            (done.push((start, end)), n + 1)
        } else {
            (done, start)
        }
    }
}

/// The ranges of the lines of `s`; a last line without an ending counts
/// where it is not empty.
pub open spec fn line_ranges(s: Seq<char>) -> Seq<(int, int)> {
    let (done, start) = scan_lines(s);
    if start < s.len() {
        done.push((start, s.len() as int))
    } else {
        done
    }
}

/// The lines of `s`.
pub open spec fn lines_of(s: Seq<char>) -> Seq<Seq<char>> {
    line_ranges(s).map_values(|r: (int, int)| s.subrange(r.0, r.1))
}

pub proof fn lemma_scan_bounds(s: Seq<char>)
    ensures
        0 <= scan_lines(s).1 <= s.len(),
        forall|i: int| 0 <= i < scan_lines(s).0.len() ==> 0 <= (#[trigger] scan_lines(s).0[i]).0 <= scan_lines(s).0[i].1 <= s.len(),
    decreases s.len(),
{
    if s.len() > 0 {
        lemma_scan_bounds(s.drop_last());
    }
}

/// The ranges of the lines of `cs`.
pub fn line_bounds(cs: &Vec<char>) -> (r: Vec<(usize, usize)>)
    ensures
        r@.len() == line_ranges(cs@).len(),
        forall|i: int| 0 <= i < r@.len() ==> (#[trigger] r@[i]).0 == line_ranges(cs@)[i].0 && r@[i].1 == line_ranges(cs@)[i].1,
        forall|i: int| 0 <= i < r@.len() ==> (#[trigger] r@[i]).0 <= r@[i].1 <= cs@.len(),
{
    let mut r: Vec<(usize, usize)> = Vec::new();
    let mut start: usize = 0;
    let mut i: usize = 0;
    let n = cs.len();
    while i < n
        invariant
            n == cs@.len(),
            i <= n,
            start <= i,
            scan_lines(cs@.subrange(0, i as int)).1 == start,
            r@.len() == scan_lines(cs@.subrange(0, i as int)).0.len(),
            forall|k: int| 0 <= k < r@.len() ==> (#[trigger] r@[k]).0 == scan_lines(cs@.subrange(0, i as int)).0[k].0
                && r@[k].1 == scan_lines(cs@.subrange(0, i as int)).0[k].1,
            forall|k: int| 0 <= k < r@.len() ==> (#[trigger] r@[k]).0 <= r@[k].1 <= i,
        decreases n - i,
    {
        let ghost pre = cs@.subrange(0, i as int);
        let ghost next = cs@.subrange(0, i + 1);
        assert(next.drop_last() =~= pre);
        assert(next[i as int] == cs@[i as int]);
        if cs[i] == '\n' {
            let end = if i > start && cs[i - 1] == '\r' { i - 1 } else { i };
            assert(i > start ==> next[i - 1] == cs@[i - 1]);
            r.push((start, end));
            start = i + 1;
        }
        i = i + 1;
    }
    assert(cs@.subrange(0, n as int) =~= cs@);
    if start < n {
        r.push((start, n));
    }
    r
}

/// Whether `cs[a..b]` starts with `p`.
pub fn has_prefix(cs: &Vec<char>, a: usize, b: usize, p: &str) -> (r: bool)
    requires
        a <= b <= cs@.len(),
    ensures
        r == (p@.len() <= b - a && cs@.subrange(a as int, a + p@.len()) == p@),
{
    let pc = chars_of(p);
    if pc.len() > b - a {
        return false;
    }
    let mut i: usize = 0;
    while i < pc.len()
        invariant
            pc@ == p@,
            a <= b <= cs@.len(),
            pc@.len() <= b - a,
            i <= pc@.len(),
            forall|k: int| 0 <= k < i ==> cs@[a + k] == pc@[k],
        decreases pc@.len() - i,
    {
        if cs[a + i] != pc[i] {
            assert(cs@.subrange(a as int, a + p@.len())[i as int] != p@[i as int]);
            return false;
        }
        i = i + 1;
    }
    assert(cs@.subrange(a as int, a + p@.len()) =~= p@);
    true
}

/// Whether `a` and `b` hold the same characters.
pub fn same_text(a: &str, b: &str) -> (r: bool)
    ensures
        r == (a@ == b@),
{
    let ac = chars_of(a);
    let n = ac.len();
    let r = has_prefix(&ac, 0, n, b) && b.unicode_len() == n;
    proof {
        if r {
            assert(ac@.subrange(0, n as int) =~= ac@);
        }
        if a@ == b@ {
            assert(ac@.subrange(0, n as int) =~= ac@);
        }
    }
    r
}

} // verus!
