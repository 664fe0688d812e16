//! Splits a Markdown document into text blocks and fenced code blocks.
use crate::fence::{
    detect_fence, fence_of_line, is_oneliner, lemma_run_prefix, oneliner, raw_fence, run_len,
    run_length, CodeFence,
};
use crate::info::{image_format, parse_info, select_image_format, InfoString};
use crate::text::{chars_of, slice_vec, trim};
use vstd::prelude::*;

verus! {

/// Index of the line feed that ends the line starting at `s`, or the length of `t`.
pub open spec fn line_end(t: Seq<char>, s: int) -> int
    decreases t.len() - s,
{
    if s < 0 || s >= t.len() {
        t.len() as int
    } else if t[s] == '\n' {
        s
    } else {
        line_end(t, s + 1)
    }
}

/// Start of the line after the one starting at `s` (the length of `t` after the last).
pub open spec fn next_line(t: Seq<char>, s: int) -> int {
    if line_end(t, s) < t.len() {
        line_end(t, s) + 1
    } else {
        t.len() as int
    }
}

/// End of the content of the line starting at `s`: a `\r` before its `\n` is not content.
pub open spec fn content_end(t: Seq<char>, s: int) -> int {
    let e = line_end(t, s);
    if e < t.len() && e > s && t[e - 1] == '\r' {
        e - 1
    } else {
        e
    }
}

/// The content of the line starting at `s`.
pub open spec fn line_at(t: Seq<char>, s: int) -> Seq<char> {
    t.subrange(s, content_end(t, s))
}

/// Start of the first line at or after `p` that closes fence `f`, or the length of `t`.
pub open spec fn close_line(t: Seq<char>, p: int, f: CodeFence) -> int
    decreases t.len() - p,
{
    if p < 0 || p >= t.len() {
        t.len() as int
    } else if detect_fence(line_at(t, p), Some(f)) is Some {
        p
    } else if next_line(t, p) <= p || next_line(t, p) > t.len() {
        t.len() as int
    } else {
        close_line(t, next_line(t, p), f)
    }
}

/// Start of the first line at or after `q` that opens a fence, or the length of `t`.
pub open spec fn text_end(t: Seq<char>, q: int) -> int
    decreases t.len() - q,
{
    if q < 0 || q >= t.len() {
        t.len() as int
    } else if detect_fence(line_at(t, q), None) is Some {
        q
    } else if next_line(t, q) <= q || next_line(t, q) > t.len() {
        t.len() as int
    } else {
        text_end(t, next_line(t, q))
    }
}

/// A block of the document, by positions in it.
pub enum Seg {
    Text { start: int, end: int },
    Code {
        start: int,
        info_start: int,
        info_end: int,
        code_start: int,
        code_end: int,
        end: int,
    },
}

pub open spec fn seg_start(g: Seg) -> int {
    match g {
        Seg::Text { start, .. } => start,
        Seg::Code { start, .. } => start,
    }
}

pub open spec fn seg_end(g: Seg) -> int {
    match g {
        Seg::Text { end, .. } => end,
        Seg::Code { end, .. } => end,
    }
}

/// The block that starts at line `s`. A line that opens a fence starts a code block: its
/// info string is the rest of that line, its code runs from the next line to the closing
/// line (excluded), and the block ends after the closing line, or at the end of the
/// document when no line closes it. Any other line starts a text block that runs up to
/// the next line that opens a fence, or to the end of the document.
pub open spec fn seg_at(t: Seq<char>, s: int) -> Seg {
    match detect_fence(line_at(t, s), None) {
        Some(f) => {
            let c = close_line(t, next_line(t, s), f);
            Seg::Code {
                start: s,
                info_start: s + run_len(line_at(t, s), 0, ' ') + f.width,
                info_end: content_end(t, s),
                code_start: next_line(t, s),
                code_end: c,
                end: next_line(t, c),
            }
        },
        None => Seg::Text { start: s, end: text_end(t, next_line(t, s)) },
    }
}

/// The blocks of `t` from position `s` on.
pub open spec fn segs_from(t: Seq<char>, s: int) -> Seq<Seg>
    decreases t.len() - s,
{
    if s < 0 || s >= t.len() {
        Seq::empty()
    } else if seg_end(seg_at(t, s)) <= s || seg_end(seg_at(t, s)) > t.len() {
        Seq::empty()
    } else {
        seq![seg_at(t, s)] + segs_from(t, seg_end(seg_at(t, s)))
    }
}

/// The blocks of the document `t`, in order.
pub open spec fn segments(t: Seq<char>) -> Seq<Seg> {
    segs_from(t, 0)
}

/// The text of the given blocks, one after the other.
pub open spec fn concat_raw(t: Seq<char>, gs: Seq<Seg>) -> Seq<char>
    decreases gs.len(),
{
    if gs.len() == 0 {
        Seq::empty()
    } else {
        t.subrange(seg_start(gs[0]), seg_end(gs[0])) + concat_raw(t, gs.drop_first())
    }
}

proof fn lemma_line_end(t: Seq<char>, s: int)
    requires
        0 <= s <= t.len(),
    ensures
        s <= line_end(t, s) <= t.len(),
        line_end(t, s) < t.len() ==> t[line_end(t, s)] == '\n',
        forall|j: int| s <= j < line_end(t, s) ==> t[j] != '\n',
    decreases t.len() - s,
{
    if s < t.len() && t[s] != '\n' {
        lemma_line_end(t, s + 1);
    }
}

pub proof fn lemma_line(t: Seq<char>, s: int)
    requires
        0 <= s < t.len(),
    ensures
        s <= content_end(t, s) <= line_end(t, s) <= t.len(),
        s < next_line(t, s) <= t.len(),
        content_end(t, s) <= next_line(t, s),
{
    lemma_line_end(t, s);
}

proof fn lemma_close_line(t: Seq<char>, p: int, f: CodeFence)
    requires
        0 <= p <= t.len(),
    ensures
        p <= close_line(t, p, f) <= t.len(),
    decreases t.len() - p,
{
    if p < t.len() {
        lemma_line(t, p);
        if detect_fence(line_at(t, p), Some(f)) is None {
            lemma_close_line(t, next_line(t, p), f);
        }
    }
}

proof fn lemma_text_end(t: Seq<char>, q: int)
    requires
        0 <= q <= t.len(),
    ensures
        q <= text_end(t, q) <= t.len(),
    decreases t.len() - q,
{
    if q < t.len() {
        lemma_line(t, q);
        if detect_fence(line_at(t, q), None) is None {
            lemma_text_end(t, next_line(t, q));
        }
    }
}

/// The positions of a block are in order and within the document, and the block starts
/// where it was asked for and is not empty.
pub proof fn lemma_seg_bounds(t: Seq<char>, s: int)
    requires
        0 <= s < t.len(),
    ensures
        seg_start(seg_at(t, s)) == s,
        s < seg_end(seg_at(t, s)) <= t.len(),
        seg_at(t, s) matches Seg::Code { start, info_start, info_end, code_start, code_end, end }
            ==> start <= info_start <= info_end <= code_start <= code_end <= end,
{
    lemma_line(t, s);
    let l = line_at(t, s);
    match detect_fence(l, None) {
        Some(f) => {
            let k = run_len(l, 0, ' ') as int;
            lemma_run_prefix(l, k, l[k]);
            assert(raw_fence(l) is Some);
            let n = next_line(t, s);
            lemma_close_line(t, n, f);
            let c = close_line(t, n, f);
            if c < t.len() {
                lemma_line(t, c);
            }
        },
        None => {
            lemma_text_end(t, next_line(t, s));
        },
    }
}

proof fn lemma_segs_from(t: Seq<char>, s: int)
    requires
        0 <= s <= t.len(),
    ensures
        concat_raw(t, segs_from(t, s)) == t.subrange(s, t.len() as int),
    decreases t.len() - s,
{
    if s == t.len() {
        assert(t.subrange(s, s) =~= Seq::<char>::empty());
    } else {
        lemma_seg_bounds(t, s);
        let g = seg_at(t, s);
        let e = seg_end(g);
        lemma_segs_from(t, e);
        let gs = segs_from(t, s);
        assert(gs.drop_first() =~= segs_from(t, e));
        assert(t.subrange(s, e) + t.subrange(e, t.len() as int) =~= t.subrange(
            s,
            t.len() as int,
        ));
    }
}

/// The blocks of a document, one after the other, give the document back.
pub proof fn lemma_segments_rebuild(t: Seq<char>)
    ensures
        concat_raw(t, segments(t)) == t,
{
    lemma_segs_from(t, 0);
    assert(t.subrange(0, t.len() as int) =~= t);
}

/// Text block representation
pub struct TextBlock<'a> {
    /// The raw text in the text block
    pub text: &'a str,
}

/// Code block representation
pub struct CodeBlock<'a> {
    /// Full block, including opening and closing fences
    pub full_block: &'a str,
    /// The code block's info string
    pub info_string: InfoString<'a>,
    /// The code block's code, stripped from opening and closing fences
    pub code: &'a str,
}

impl<'a> CodeBlock<'a> {
    /// Returns the image format (file extension) PlantUML needs to generate for this code
    /// block.
    pub fn get_image_format(&self) -> (r: &'a str)
        ensures
            r@ == image_format(self.code@, self.info_string.model()),
    {
        select_image_format(self.code, &self.info_string)
    }
}

/// The markdown block type
pub enum Block<'a> {
    /// A markdown code block
    Code(CodeBlock<'a>),
    /// A markdown 'text' block (i.e. everything but code blocks)
    Text(TextBlock<'a>),
}

/// The text a block was cut from.
pub open spec fn block_raw(b: Block) -> Seq<char> {
    match b {
        Block::Text(tb) => tb.text@,
        Block::Code(cb) => cb.full_block@,
    }
}

/// Block `b` is block `g` of document `t`.
pub open spec fn block_matches(b: Block, t: Seq<char>, g: Seg) -> bool {
    match g {
        Seg::Text { start, end } => b matches Block::Text(tb) && tb.text@ == t.subrange(start, end),
        Seg::Code { start, info_start, info_end, code_start, code_end, end } => {
            &&& b matches Block::Code(cb)
            &&& cb.full_block@ == t.subrange(start, end)
            &&& cb.code@ == t.subrange(code_start, code_end)
            &&& cb.info_string.info_string@ == trim(t.subrange(info_start, info_end))
            &&& cb.info_string.model() == parse_info(t.subrange(info_start, info_end))
        },
    }
}

/// The raw texts of the given blocks, one after the other.
pub open spec fn joined_blocks(bs: Seq<Block>) -> Seq<char>
    decreases bs.len(),
{
    if bs.len() == 0 {
        Seq::empty()
    } else {
        block_raw(bs[0]) + joined_blocks(bs.drop_first())
    }
}

/// Blocks `bs` are the blocks of document `t`.
pub open spec fn are_blocks_of(bs: Seq<Block>, t: Seq<char>) -> bool {
    &&& bs.len() == segments(t).len()
    &&& forall|i: int| 0 <= i < bs.len() ==> block_matches(#[trigger] bs[i], t, segments(t)[i])
}

proof fn lemma_joined(bs: Seq<Block>, t: Seq<char>, gs: Seq<Seg>)
    requires
        bs.len() == gs.len(),
        forall|i: int| 0 <= i < bs.len() ==> block_matches(#[trigger] bs[i], t, gs[i]),
    ensures
        joined_blocks(bs) == concat_raw(t, gs),
    decreases bs.len(),
{
    if bs.len() > 0 {
        assert(block_matches(bs[0], t, gs[0]));
        let bs2 = bs.drop_first();
        let gs2 = gs.drop_first();
        assert forall|i: int| 0 <= i < bs2.len() implies block_matches(
            #[trigger] bs2[i],
            t,
            gs2[i],
        ) by {
            assert(bs2[i] == bs[i + 1]);
            assert(block_matches(bs[i + 1], t, gs[i + 1]));
        }
        lemma_joined(bs2, t, gs2);
    }
}

/// Concatenating the raw text of all blocks of a document, in order, gives back the
/// document exactly.
pub proof fn lemma_blocks_rebuild_document(bs: Seq<Block>, t: Seq<char>)
    requires
        are_blocks_of(bs, t),
    ensures
        joined_blocks(bs) == t,
{
    lemma_joined(bs, t, segments(t));
    lemma_segments_rebuild(t);
}

/// Content end and start of the next line, for the line starting at `s`.
fn line_bounds(t: &Vec<char>, s: usize) -> (r: (usize, usize))
    requires
        s < t.len(),
    ensures
        r.0 == content_end(t@, s as int),
        r.1 == next_line(t@, s as int),
{
    let mut e = s;
    while e < t.len() && t[e] != '\n'
        invariant
            s <= e <= t.len(),
            line_end(t@, s as int) == line_end(t@, e as int),
        decreases t.len() - e,
    {
        e = e + 1;
    }
    let ce = if e < t.len() && e > s && t[e - 1] == '\r' {
        e - 1
    } else {
        e
    };
    let nl = if e < t.len() {
        e + 1
    } else {
        e
    };
    (ce, nl)
}

/// Implements an iterator over a markdown document.
/// The markdown document is split into `Block::Text` and `Block::Code` elements.
pub struct MarkdownIterator<'a> {
    markdown: &'a str,
    chars: Vec<char>,
    pos: usize,
}

impl<'a> MarkdownIterator<'a> {
    /// The document.
    pub closed spec fn text(&self) -> Seq<char> {
        self.markdown@
    }

    /// Where the next block starts.
    pub closed spec fn position(&self) -> int {
        self.pos as int
    }

    pub closed spec fn wf(&self) -> bool {
        &&& self.chars@ == self.markdown@
        &&& self.pos <= self.chars.len()
    }

    /// Construct a new markdown iterator from the given markdown source
    pub fn new(markdown: &'a str) -> (r: MarkdownIterator<'a>)
        ensures
            r.wf(),
            r.text() == markdown@,
            r.position() == 0,
    {
        MarkdownIterator { markdown, chars: chars_of(markdown), pos: 0 }
    }

    /// Returns a `CodeFence` when the line starts with a valid opening fence (when
    /// `fence_to_match` is `None`) or with a fence that closes `fence_to_match`.
    pub fn get_code_fence(line: &str, fence_to_match: Option<&CodeFence>) -> (r: Option<
        CodeFence,
    >)
        ensures
            r == detect_fence(
                line@,
                match fence_to_match {
                    Some(f) => Some(*f),
                    None => None,
                },
            ),
    {
        let m = match fence_to_match {
            Some(f) => Some(*f),
            None => None,
        };
        fence_of_line(&chars_of(line), m)
    }

    /// Is the given fence an opening fence for a oneliner (e.g. "```oneline``` foo the bar")
    pub fn is_oneline_fence(line: &str, opening_fence: &CodeFence) -> (r: bool)
        ensures
            r == is_oneliner(line@, *opening_fence),
    {
        oneliner(&chars_of(line), *opening_fence)
    }

    /// The next block of the document, or `None` at its end.
    pub fn next(&mut self) -> (r: Option<Block<'a>>)
        requires
            old(self).wf(),
        ensures
            final(self).wf(),
            final(self).text() == old(self).text(),
            old(self).position() >= old(self).text().len() ==> r is None && final(self).position()
                == old(self).position(),
            old(self).position() < old(self).text().len() ==> {
                &&& r matches Some(b) && block_matches(
                    b,
                    old(self).text(),
                    seg_at(old(self).text(), old(self).position()),
                )
                &&& final(self).position() == seg_end(
                    seg_at(old(self).text(), old(self).position()),
                )
            },
    {
        let s = self.pos;
        let len = self.chars.len();
        if s >= len {
            return None;
        }
        let ghost t = self.chars@;
        proof {
            lemma_seg_bounds(t, s as int);
            lemma_line(t, s as int);
        }
        let (ce, nl) = line_bounds(&self.chars, s);
        let line = slice_vec(&self.chars, s, ce);
        assert(line@ == line_at(t, s as int));
        match fence_of_line(&line, None) {
            Some(f) => {
                let mut p = nl;
                loop
                    invariant
                        nl <= p <= len,
                        len == self.chars.len(),
                        t == self.chars@,
                        close_line(t, nl as int, f) == close_line(t, p as int, f),
                    ensures
                        nl <= p <= len,
                        close_line(t, nl as int, f) == p,
                    decreases len - p,
                {
                    if p >= len {
                        break ;
                    }
                    let (pce, pnl) = line_bounds(&self.chars, p);
                    proof {
                        lemma_line(t, p as int);
                    }
                    let pl = slice_vec(&self.chars, p, pce);
                    if fence_of_line(&pl, Some(f)).is_some() {
                        break ;
                    }
                    p = pnl;
                }
                let end = if p >= len {
                    len
                } else {
                    proof {
                        lemma_line(t, p as int);
                    }
                    let (_, pnl) = line_bounds(&self.chars, p);
                    pnl
                };
                let k = run_length(&line, 0, ' ');
                let info_raw = self.markdown.substring_char(s + k + f.width, ce);
                let block = Block::Code(
                    CodeBlock {
                        full_block: self.markdown.substring_char(s, end),
                        info_string: InfoString::from(info_raw),
                        code: self.markdown.substring_char(nl, p),
                    },
                );
                self.pos = end;
                Some(block)
            },
            None => {
                let mut q = nl;
                loop
                    invariant
                        nl <= q <= len,
                        len == self.chars.len(),
                        t == self.chars@,
                        text_end(t, nl as int) == text_end(t, q as int),
                    ensures
                        nl <= q <= len,
                        text_end(t, nl as int) == q,
                    decreases len - q,
                {
                    if q >= len {
                        break ;
                    }
                    let (qce, qnl) = line_bounds(&self.chars, q);
                    proof {
                        lemma_line(t, q as int);
                    }
                    let ql = slice_vec(&self.chars, q, qce);
                    if fence_of_line(&ql, None).is_some() {
                        break ;
                    }
                    q = qnl;
                }
                let block = Block::Text(TextBlock { text: self.markdown.substring_char(s, q) });
                self.pos = q;
                Some(block)
            },
        }
    }
}

/// All blocks of the document, in order.
pub fn blocks<'a>(markdown: &'a str) -> (r: Vec<Block<'a>>)
    ensures
        are_blocks_of(r@, markdown@),
{
    let mut it = MarkdownIterator::new(markdown);
    let mut r: Vec<Block<'a>> = Vec::new();
    let ghost t = markdown@;
    let ghost mut done: Seq<Seg> = Seq::empty();
    loop
        invariant
            it.wf(),
            it.text() == t,
            0 <= it.position() <= t.len(),
            segments(t) == done + segs_from(t, it.position()),
            r.len() == done.len(),
            forall|i: int| 0 <= i < r.len() ==> block_matches(#[trigger] r@[i], t, done[i]),
        ensures
            are_blocks_of(r@, t),
        decreases t.len() - it.position(),
    {
        let ghost p = it.position();
        match it.next() {
            None => {
                assert(segs_from(t, p) =~= Seq::<Seg>::empty());
                assert(done + Seq::<Seg>::empty() =~= done);
                break ;
            },
            Some(b) => {
                proof {
                    lemma_seg_bounds(t, p);
                    let g = seg_at(t, p);
                    assert(segs_from(t, p) == seq![g] + segs_from(t, seg_end(g)));
                    assert(done + segs_from(t, p) =~= (done + seq![g]) + segs_from(
                        t,
                        seg_end(g),
                    ));
                    done = done + seq![g];
                }
                r.push(b);
            },
        }
    }
    r
}

} // verus!
