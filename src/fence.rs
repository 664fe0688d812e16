//! Recognising the lines that open and close fenced code blocks.
use crate::text::{all_ws, is_whitespace, is_ws};
use vstd::prelude::*;

verus! {

/// A code fence: its character (a backtick or a tilde) and how many of them it has.
#[derive(Debug, Clone, Copy, PartialEq, Eq, Structural)]
pub struct CodeFence {
    pub fence_char: char,
    pub width: usize,
}

impl CodeFence {
    pub fn new(fence_char: char, width: usize) -> (r: CodeFence)
        ensures
            r.fence_char == fence_char,
            r.width == width,
    {
        CodeFence { fence_char, width }
    }
}

pub open spec fn is_fence_char(c: char) -> bool {
    c == '`' || c == '~'
}

/// Length of the run of `c` that starts at `i` in `s`.
pub open spec fn run_len(s: Seq<char>, i: int, c: char) -> nat
    decreases s.len() - i,
{
    if 0 <= i < s.len() && s[i] == c {
        1 + run_len(s, i + 1, c)
    } else {
        0
    }
}

/// Length of the run of whitespace that starts at `i` in `s`.
pub open spec fn ws_run(s: Seq<char>, i: int) -> nat
    decreases s.len() - i,
{
    if 0 <= i < s.len() && is_ws(s[i]) {
        1 + ws_run(s, i + 1)
    } else {
        0
    }
}

/// The fence a line starts with: at most three spaces, then three or more of one fence
/// character. The fence is as wide as that run.
pub open spec fn raw_fence(l: Seq<char>) -> Option<CodeFence> {
    let k = run_len(l, 0, ' ') as int;
    if k <= 3 && k < l.len() && is_fence_char(l[k]) && run_len(l, k, l[k]) >= 3 {
        Some(CodeFence { fence_char: l[k], width: run_len(l, k, l[k]) as usize })
    } else {
        None
    }
}

/// Among the maximal runs of `c` in `s[i..]`, scanned from `i` on, one is exactly `w`
/// long.
pub open spec fn has_run_of(s: Seq<char>, i: int, c: char, w: nat) -> bool
    decreases s.len() - i,
{
    if i < 0 || i >= s.len() {
        false
    } else if s[i] != c {
        has_run_of(s, i + 1, c, w)
    } else {
        let r = run_len(s, i, c);
        if r == w {
            true
        } else if r == 0 || i + r > s.len() {
            false
        } else {
            has_run_of(s, i + r, c, w)
        }
    }
}

/// The line opens with `f` and closes it again on the same line: after the opening run,
/// the fence character comes back in a run exactly as wide. Tilde fences are never
/// one-liners: their info strings may hold fence characters.
pub open spec fn is_oneliner(l: Seq<char>, f: CodeFence) -> bool {
    f.fence_char != '~' && has_run_of(
        l,
        ws_run(l, 0) + f.width,
        f.fence_char,
        f.width as nat,
    )
}

/// What the line is, seen from the segmenter: with `to_match == None`, the opening fence
/// it holds; with `Some(o)`, the fence that closes `o` (same character, at least as wide,
/// followed by whitespace only).
pub open spec fn detect_fence(l: Seq<char>, to_match: Option<CodeFence>) -> Option<CodeFence> {
    match raw_fence(l) {
        None => None,
        Some(f) => match to_match {
            Some(o) => {
                if o.fence_char == f.fence_char && o.width <= f.width && all_ws(
                    l.skip(run_len(l, 0, ' ') + f.width),
                ) {
                    Some(f)
                } else {
                    None
                }
            },
            None => {
                if is_oneliner(l, f) {
                    None
                } else {
                    Some(f)
                }
            },
        },
    }
}

pub fn run_length(v: &Vec<char>, i: usize, c: char) -> (r: usize)
    requires
        i <= v.len(),
    ensures
        r == run_len(v@, i as int, c),
        i + r <= v.len(),
{
    let mut j = i;
    while j < v.len() && v[j] == c
        invariant
            i <= j <= v.len(),
            run_len(v@, i as int, c) == (j - i) + run_len(v@, j as int, c),
        decreases v.len() - j,
    {
        j = j + 1;
    }
    j - i
}

pub fn ws_length(v: &Vec<char>, i: usize) -> (r: usize)
    requires
        i <= v.len(),
    ensures
        r == ws_run(v@, i as int),
        i + r <= v.len(),
{
    let mut j = i;
    while j < v.len() && is_whitespace(v[j])
        invariant
            i <= j <= v.len(),
            ws_run(v@, i as int) == (j - i) + ws_run(v@, j as int),
        decreases v.len() - j,
    {
        j = j + 1;
    }
    j - i
}

proof fn lemma_spaces_are_ws(s: Seq<char>, i: int, k: int)
    requires
        0 <= i <= k < s.len(),
        forall|j: int| i <= j < k ==> #[trigger] s[j] == ' ',
        !is_ws(s[k]),
    ensures
        ws_run(s, i) == k - i,
    decreases k - i,
{
    if i < k {
        lemma_spaces_are_ws(s, i + 1, k);
    }
}

pub proof fn lemma_run_prefix(s: Seq<char>, i: int, c: char)
    requires
        0 <= i,
    ensures
        forall|j: int| i <= j < i + run_len(s, i, c) ==> #[trigger] s[j] == c,
        i + run_len(s, i, c) <= s.len() || run_len(s, i, c) == 0,
        i + run_len(s, i, c) < s.len() ==> s[i + run_len(s, i, c)] != c,
    decreases s.len() - i,
{
    if 0 <= i < s.len() && s[i] == c {
        lemma_run_prefix(s, i + 1, c);
    }
}

/// Whether one of the maximal runs of `c` in `v[i..]` is exactly `w` long.
fn run_of_width(v: &Vec<char>, i: usize, c: char, w: usize) -> (r: bool)
    ensures
        r == has_run_of(v@, i as int, c, w as nat),
{
    let mut p = i;
    loop
        invariant
            i <= p,
            has_run_of(v@, i as int, c, w as nat) == has_run_of(v@, p as int, c, w as nat),
        decreases v.len() - p,
    {
        if p >= v.len() {
            return false;
        }
        if v[p] != c {
            p = p + 1;
        } else {
            let r = run_length(v, p, c);
            proof {
                lemma_run_prefix(v@, p as int, c);
            }
            if r == w {
                return true;
            }
            p = p + r;
        }
    }
}

/// Whether the line is a one-liner for the opening fence `f`: after the opening run, the
/// same fence character comes back in a run exactly as wide as `f`.
pub fn oneliner(l: &Vec<char>, f: CodeFence) -> (r: bool)
    ensures
        r == is_oneliner(l@, f),
{
    if f.fence_char == '~' {
        return false;
    }
    let k = ws_length(l, 0);
    if f.width > l.len() - k {
        return false;
    }
    run_of_width(l, k + f.width, f.fence_char, f.width)
}

/// The fence that `l` holds, as `detect_fence` states it.
pub fn fence_of_line(l: &Vec<char>, to_match: Option<CodeFence>) -> (r: Option<CodeFence>)
    ensures
        r == detect_fence(l@, to_match),
{
    let k = run_length(l, 0, ' ');
    if k > 3 || k >= l.len() {
        return None;
    }
    let c = l[k];
    if c != '`' && c != '~' {
        return None;
    }
    let w = run_length(l, k, c);
    if w < 3 {
        return None;
    }
    let f = CodeFence { fence_char: c, width: w };
    proof {
        lemma_run_prefix(l@, 0, ' ');
        lemma_run_prefix(l@, k as int, c);
    }
    assert(raw_fence(l@) == Some(f));
    match to_match {
        Some(o) => {
            if o.fence_char != c || o.width > w {
                return None;
            }
            let mut j = k + w;
            while j < l.len()
                invariant
                    k + w <= j <= l.len(),
                    forall|x: int| k + w <= x < j ==> is_ws(#[trigger] l@[x]),
                    raw_fence(l@) == Some(f),
                    to_match == Some(o),
                    o.fence_char == f.fence_char,
                    o.width <= f.width,
                    k == run_len(l@, 0, ' '),
                    w == f.width,
                decreases l.len() - j,
            {
                if !is_whitespace(l[j]) {
                    assert(l@.skip(k + w)[j - (k + w)] == l@[j as int]);
                    assert(!all_ws(l@.skip(k + w)));
                    return None;
                }
                j = j + 1;
            }
            assert forall|x: int| 0 <= x < l@.skip(k + w).len() implies is_ws(
                #[trigger] l@.skip(k + w)[x],
            ) by {
                assert(l@.skip(k + w)[x] == l@[k + w + x]);
            }
            Some(f)
        },
        None => {
            proof {
                lemma_spaces_are_ws(l@, 0, k as int);
            }
            if oneliner(l, f) {
                None
            } else {
                Some(f)
            }
        },
    }
}

} // verus!
