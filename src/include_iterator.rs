//! Finds the files that PlantUML source pulls in with `!include` and its variants.
use crate::markdown_iterator::{lemma_line, line_at, next_line};
use crate::text::{
    char_end, char_end_from, chars_of, contains, find, find_seq, is_whitespace, is_ws,
    lemma_trim_start_skip, matches_at, slice_vec, starts_with, trim, trim_bounds, trim_start,
};
use vstd::prelude::*;

verus! {

pub open spec fn include_keyword() -> Seq<char> {
    seq!['!', 'i', 'n', 'c', 'l', 'u', 'd', 'e']
}

pub open spec fn sub_suffix() -> Seq<char> {
    seq!['s', 'u', 'b']
}

pub open spec fn many_suffix() -> Seq<char> {
    seq!['_', 'm', 'a', 'n', 'y']
}

pub open spec fn once_suffix() -> Seq<char> {
    seq!['_', 'o', 'n', 'c', 'e']
}

pub open spec fn block_comment() -> Seq<char> {
    seq!['/', '\'']
}

/// The line without its comment: everything from the first `/'` on, or else from the
/// first `'` on, is dropped.
pub open spec fn cut_comment(l: Seq<char>) -> Seq<char> {
    if contains(l, block_comment()) {
        l.take(find(l, block_comment())->0)
    } else {
        l.take(char_end(l, 0, '\''))
    }
}

/// For a (trimmed) line that starts with `!include`, `!includesub`, `!include_many` or
/// `!include_once`: what follows the directive, without leading whitespace.
pub open spec fn directive_rest(tl: Seq<char>) -> Option<Seq<char>> {
    if !starts_with(tl, include_keyword()) {
        None
    } else {
        let v = tl.skip(8);
        let n = if starts_with(v, sub_suffix()) {
            3int
        } else if starts_with(v, many_suffix()) || starts_with(v, once_suffix()) {
            5int
        } else {
            0int
        };
        Some(trim_start(v.skip(n)))
    }
}

/// The file part of an include directive: none when it is missing, or when it is a
/// standard library reference in angle brackets.
pub open spec fn file_part(tl: Seq<char>) -> Option<Seq<char>> {
    match directive_rest(tl) {
        Some(fp) => if fp.len() == 0 || fp[0] == '<' {
            None
        } else {
            Some(fp)
        },
        None => None,
    }
}

/// A file part without its `!block` reference.
pub open spec fn strip_block(fp: Seq<char>) -> Seq<char> {
    if char_end(fp, 0, '!') < fp.len() {
        trim(fp.take(char_end(fp, 0, '!')))
    } else {
        fp
    }
}

/// The file that a line of PlantUML source includes, if any.
pub open spec fn include_of_line(l: Seq<char>) -> Option<Seq<char>> {
    match file_part(trim(cut_comment(l))) {
        Some(fp) => if strip_block(fp).len() == 0 {
            None
        } else {
            Some(strip_block(fp))
        },
        None => None,
    }
}

/// The files included by the lines of `t` from position `s` on, in order.
pub open spec fn includes_from(t: Seq<char>, s: int) -> Seq<Seq<char>>
    decreases t.len() - s,
{
    if s < 0 || s >= t.len() {
        Seq::empty()
    } else if next_line(t, s) <= s || next_line(t, s) > t.len() {
        Seq::empty()
    } else {
        match include_of_line(line_at(t, s)) {
            Some(n) => seq![n] + includes_from(t, next_line(t, s)),
            None => includes_from(t, next_line(t, s)),
        }
    }
}

/// The files included by PlantUML source `t`, in order.
pub open spec fn includes(t: Seq<char>) -> Seq<Seq<char>> {
    includes_from(t, 0)
}

/// Iterator to parse PlantUML content and yield included file names.
/// Block references are stripped from the filenames. So !include include.puml!block1 will
/// yield include.puml.
pub struct IncludeIterator<'a> {
    content: &'a str,
    chars: Vec<char>,
    pos: usize,
}

proof fn lemma_cut_comment(l: Seq<char>, found: Option<usize>, cut: int)
    requires
        found matches Some(i) ==> find(l, block_comment()) == Some(i as int) && cut == i,
        found is None ==> find(l, block_comment()) is None && cut == char_end(l, 0, '\''),
        found is Some <==> contains(l, block_comment()),
        0 <= cut <= l.len(),
    ensures
        l.subrange(0, cut) == cut_comment(l),
{
    assert(l.subrange(0, cut) =~= l.take(cut));
}

/// Bounds, within `l`, of the line without comment and surrounding whitespace.
fn comment_free_bounds(l: &Vec<char>) -> (r: (usize, usize))
    ensures
        r.0 <= r.1 <= l.len(),
        l@.subrange(r.0 as int, r.1 as int) == trim(cut_comment(l@)),
{
    let bc = vec!['/', '\''];
    assert(bc@ =~= block_comment());
    let found = find_seq(l, &bc);
    let cut = match found {
        Some(i) => i,
        None => char_end_from(l, 0, '\''),
    };
    proof {
        lemma_cut_comment(l@, found, cut as int);
    }
    trim_bounds(l, 0, cut)
}

/// Where the file part starts in the trimmed line `tl`, when it has one.
fn file_part_start(tl: &Vec<char>) -> (r: Option<usize>)
    ensures
        match r {
            Some(j) => j < tl.len() && file_part(tl@) == Some(tl@.skip(j as int)),
            None => file_part(tl@) is None,
        },
{
    let kw = vec!['!', 'i', 'n', 'c', 'l', 'u', 'd', 'e'];
    assert(kw@ =~= include_keyword());
    if !matches_at(tl, &kw, 0) {
        return None;
    }
    let v = slice_vec(tl, 8, tl.len());
    assert(v@ =~= tl@.skip(8));
    let sub = vec!['s', 'u', 'b'];
    let many = vec!['_', 'm', 'a', 'n', 'y'];
    let once = vec!['_', 'o', 'n', 'c', 'e'];
    assert(sub@ =~= sub_suffix());
    assert(many@ =~= many_suffix());
    assert(once@ =~= once_suffix());
    let n: usize = if matches_at(&v, &sub, 0) {
        3
    } else if matches_at(&v, &many, 0) || matches_at(&v, &once, 0) {
        5
    } else {
        0
    };
    let mut j: usize = 8 + n;
    while j < tl.len() && is_whitespace(tl[j])
        invariant
            8 + n <= j <= tl.len(),
            forall|i: int| 8 + n <= i < j ==> is_ws(#[trigger] tl@[i]),
        decreases tl.len() - j,
    {
        j = j + 1;
    }
    proof {
        let w = v@.skip(n as int);
        assert(w =~= tl@.skip(8 + n));
        assert forall|i: int| 0 <= i < j - (8 + n) implies is_ws(#[trigger] w[i]) by {
            assert(w[i] == tl@[8 + n + i]);
        }
        if j < tl.len() {
            assert(w[j - (8 + n)] == tl@[j as int]);
        }
        lemma_trim_start_skip(w, j - (8 + n));
        assert(w.skip(j - (8 + n)) =~= tl@.skip(j as int));
    }
    if j == tl.len() || tl[j] == '<' {
        return None;
    }
    Some(j)
}

/// Bounds, within `fp`, of the file part without its block reference.
fn block_free_bounds(fp: &Vec<char>) -> (r: (usize, usize))
    ensures
        r.0 <= r.1 <= fp.len(),
        fp@.subrange(r.0 as int, r.1 as int) == strip_block(fp@),
{
    let e = char_end_from(fp, 0, '!');
    if e < fp.len() {
        assert(fp@.subrange(0, e as int) =~= fp@.take(e as int));
        trim_bounds(fp, 0, e)
    } else {
        assert(fp@.subrange(0, fp.len() as int) =~= fp@);
        (0, fp.len())
    }
}

/// Bounds, within `l`, of the file that line `l` includes.
fn include_bounds(l: &Vec<char>) -> (r: Option<(usize, usize)>)
    ensures
        match r {
            Some((x, y)) => x <= y <= l.len() && include_of_line(l@) == Some(
                l@.subrange(x as int, y as int),
            ),
            None => include_of_line(l@) is None,
        },
{
    let (a, b) = comment_free_bounds(l);
    let tl = slice_vec(l, a, b);
    match file_part_start(&tl) {
        None => None,
        Some(j) => {
            let fp = slice_vec(&tl, j, tl.len());
            assert(fp@ =~= tl@.skip(j as int));
            let (na, nb) = block_free_bounds(&fp);
            if na == nb {
                return None;
            }
            let off = a + j;
            assert(l@.subrange(off + na, off + nb) =~= fp@.subrange(na as int, nb as int));
            Some((off + na, off + nb))
        },
    }
}

impl<'a> IncludeIterator<'a> {
    /// The source being scanned.
    pub closed spec fn text(&self) -> Seq<char> {
        self.content@
    }

    /// The files still to come.
    pub closed spec fn rest(&self) -> Seq<Seq<char>> {
        includes_from(self.content@, self.pos as int)
    }

    pub closed spec fn wf(&self) -> bool {
        &&& self.chars@ == self.content@
        &&& self.pos <= self.chars.len()
    }

    /// Creates a new `IncludeIterator` over the lines of `content`.
    pub fn new(content: &'a str) -> (r: IncludeIterator<'a>)
        ensures
            r.wf(),
            r.text() == content@,
            r.rest() == includes(content@),
    {
        IncludeIterator { content, chars: chars_of(content), pos: 0 }
    }

    /// Trims comments and surrounding whitespace from a line (e.g.
    /// `  !include file.puml   ' comment` -> `!include file.puml`).
    pub fn trim_comments_and_spaces(line: &str) -> (r: &str)
        ensures
            r@ == trim(cut_comment(line@)),
    {
        let l = chars_of(line);
        let (a, b) = comment_free_bounds(&l);
        line.substring_char(a, b)
    }

    /// The file part of an include directive on a trimmed line: `None` when the line is no
    /// include directive, when the file name is missing, or for a `<...>` library include.
    pub fn get_include_file_part(trimmed_line: &str) -> (r: Option<&str>)
        ensures
            match r {
                Some(p) => file_part(trimmed_line@) == Some(p@),
                None => file_part(trimmed_line@) is None,
            },
    {
        let tl = chars_of(trimmed_line);
        match file_part_start(&tl) {
            Some(j) => {
                let p = trimmed_line.substring_char(j, tl.len());
                assert(p@ =~= tl@.skip(j as int));
                Some(p)
            },
            None => None,
        }
    }

    /// Trims any block specifier from an include name (e.g. `file.puml!block` ->
    /// `file.puml`).
    pub fn trim_block(include_name: &str) -> (r: &str)
        ensures
            r@ == strip_block(include_name@),
    {
        let v = chars_of(include_name);
        let (a, b) = block_free_bounds(&v);
        include_name.substring_char(a, b)
    }

    /// The next included file, or `None` when no line is left that includes one.
    pub fn next(&mut self) -> (r: Option<&'a str>)
        requires
            old(self).wf(),
        ensures
            final(self).wf(),
            final(self).text() == old(self).text(),
            match r {
                Some(n) => old(self).rest() == seq![n@] + final(self).rest(),
                None => old(self).rest().len() == 0,
            },
    {
        let ghost t = self.chars@;
        loop
            invariant
                self.wf(),
                t == self.chars@,
                t == self.content@,
                t == old(self).content@,
                includes_from(t, self.pos as int) == old(self).rest(),
            decreases t.len() - self.pos,
        {
            let s = self.pos;
            if s >= self.chars.len() {
                return None;
            }
            let ghost t = self.chars@;
            proof {
                lemma_line(t, s as int);
            }
            let mut e = s;
            while e < self.chars.len() && self.chars[e] != '\n'
                invariant
                    s <= e <= self.chars.len(),
                    t == self.chars@,
                    crate::markdown_iterator::line_end(t, s as int)
                        == crate::markdown_iterator::line_end(t, e as int),
                decreases self.chars.len() - e,
            {
                e = e + 1;
            }
            let ce = if e < self.chars.len() && e > s && self.chars[e - 1] == '\r' {
                e - 1
            } else {
                e
            };
            let nl = if e < self.chars.len() {
                e + 1
            } else {
                e
            };
            let l = slice_vec(&self.chars, s, ce);
            assert(l@ == line_at(t, s as int));
            self.pos = nl;
            match include_bounds(&l) {
                Some((x, y)) => {
                    let name = self.content.substring_char(s + x, s + y);
                    assert(name@ =~= l@.subrange(x as int, y as int));
                    return Some(name);
                },
                None => {},
            }
        }
    }
}

/// All files included by PlantUML source `code`, in order.
pub fn include_files<'a>(code: &'a str) -> (r: Vec<&'a str>)
    ensures
        r@.len() == includes(code@).len(),
        forall|i: int| 0 <= i < r@.len() ==> (#[trigger] r@[i])@ == includes(code@)[i],
{
    let mut it = IncludeIterator::new(code);
    let mut r: Vec<&'a str> = Vec::new();
    let ghost mut done: Seq<Seq<char>> = Seq::empty();
    loop
        invariant_except_break
            it.wf(),
            it.text() == code@,
            includes(code@) == done + it.rest(),
            r@.len() == done.len(),
            forall|i: int| 0 <= i < r@.len() ==> (#[trigger] r@[i])@ == done[i],
        ensures
            r@.len() == includes(code@).len(),
            forall|i: int| 0 <= i < r@.len() ==> (#[trigger] r@[i])@ == includes(code@)[i],
        decreases it.rest().len(),
    {
        let ghost before = it.rest();
        match it.next() {
            Some(n) => {
                proof {
                    assert(done + (seq![n@] + it.rest()) =~= (done + seq![n@]) + it.rest());
                    done = done + seq![n@];
                }
                r.push(n);
            },
            None => {
                assert(done + before =~= done);
                break ;
            },
        }
    }
    r
}

} // verus!
