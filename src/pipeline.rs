//! Replaces the PlantUML code blocks of a document by what a renderer makes of them.
use crate::info::{image_format, is_diagram, parse_info, select_image_format};
use crate::markdown_iterator::{
    blocks, block_matches, concat_raw, lemma_segments_rebuild, segments, Block, Seg,
};
use vstd::prelude::*;

verus! {

/// A rendering failure, with the text it displays.
#[derive(Debug)]
pub struct RenderError {
    pub message: String,
}

impl RenderError {
    pub fn new(message: &str) -> (r: RenderError)
        ensures
            r.message@ == message@,
    {
        RenderError { message: String::from_str(message) }
    }

    /// The text of the error.
    pub fn to_string(&self) -> (r: String)
        ensures
            r@ == self.message@,
    {
        self.message.clone()
    }
}

/// Renders the code of one diagram to the Markdown that replaces the block.
pub trait RendererTrait {
    /// `out` is what rendering diagram code `code`, with image URL `rel` and image format
    /// `format`, gave. An implementation states here what it renders; one that states
    /// nothing keeps this default, which says nothing.
    open spec fn renders(
        &self,
        code: Seq<char>,
        rel: Seq<char>,
        format: Seq<char>,
        out: Result<Seq<char>, Seq<char>>,
    ) -> bool {
        true
    }

    fn render(&self, plantuml_code: &str, rel_image_url: &str, image_format: String) -> (r:
        Result<String, RenderError>)
        ensures
            self.renders(plantuml_code@, rel_image_url@, image_format@, outcome_view(r)),
    ;
}

/// A result as values: the text, or the error's text.
pub open spec fn outcome_view(o: Result<String, RenderError>) -> Result<Seq<char>, Seq<char>> {
    match o {
        Ok(s) => Ok(s@),
        Err(e) => Err(e.message@),
    }
}

/// Block `g` of `t` is a PlantUML code block.
pub open spec fn is_diagram_seg(t: Seq<char>, g: Seg) -> bool {
    match g {
        Seg::Code { info_start, info_end, .. } => is_diagram(
            parse_info(t.subrange(info_start, info_end)),
        ),
        Seg::Text { .. } => false,
    }
}

/// The code and the image format of each PlantUML code block among `gs[i..]`, in order.
pub open spec fn requests_from(t: Seq<char>, gs: Seq<Seg>, i: int) -> Seq<(Seq<char>, Seq<char>)>
    decreases gs.len() - i,
{
    if i < 0 || i >= gs.len() {
        Seq::empty()
    } else {
        match gs[i] {
            Seg::Code { info_start, info_end, code_start, code_end, .. } => {
                let info = parse_info(t.subrange(info_start, info_end));
                let code = t.subrange(code_start, code_end);
                if is_diagram(info) {
                    seq![(code, image_format(code, info))] + requests_from(t, gs, i + 1)
                } else {
                    requests_from(t, gs, i + 1)
                }
            },
            Seg::Text { .. } => requests_from(t, gs, i + 1),
        }
    }
}

/// The code of the `j`-th PlantUML code block of document `t`.
pub open spec fn diagram_code(t: Seq<char>, j: int) -> Seq<char> {
    requests_from(t, segments(t), 0)[j].0
}

/// The image format of the `j`-th PlantUML code block of document `t`.
pub open spec fn diagram_format(t: Seq<char>, j: int) -> Seq<char> {
    requests_from(t, segments(t), 0)[j].1
}

proof fn lemma_requests_from_len(t: Seq<char>, gs: Seq<Seg>, i: int)
    requires
        0 <= i <= gs.len(),
    ensures
        requests_from(t, gs, i).len() == diagrams_from(t, gs, i),
    decreases gs.len() - i,
{
    if i < gs.len() {
        lemma_requests_from_len(t, gs, i + 1);
    }
}

/// There is one code and one image format for each PlantUML code block of `t`, so
/// `diagram_code(t, j)` and `diagram_format(t, j)` are those of the `j`-th diagram for
/// every `j < diagram_count(t)`.
pub proof fn lemma_one_request_per_diagram(t: Seq<char>)
    ensures
        requests_from(t, segments(t), 0).len() == diagram_count(t),
{
    lemma_requests_from_len(t, segments(t), 0);
}

/// `outs[j]` is what `renderer` gave for the `j`-th diagram of `t`, for every diagram that
/// is rendered: all of them, or with `fail_on_error` those up to the first failure.
pub open spec fn rendered_by<R: RendererTrait>(
    renderer: &R,
    t: Seq<char>,
    rel: Seq<char>,
    outs: Seq<Result<Seq<char>, Seq<char>>>,
    fail_on_error: bool,
) -> bool {
    forall|j: int|
        0 <= j < outs.len() && (!fail_on_error || forall|i: int| 0 <= i < j ==> outs[i] is Ok)
            ==> renderer.renders(diagram_code(t, j), rel, diagram_format(t, j), #[trigger] outs[j])
}

/// The number of PlantUML code blocks among `gs[i..]`.
pub open spec fn diagrams_from(t: Seq<char>, gs: Seq<Seg>, i: int) -> nat
    decreases gs.len() - i,
{
    if i < 0 || i >= gs.len() {
        0
    } else {
        (if is_diagram_seg(t, gs[i]) {
            1nat
        } else {
            0nat
        }) + diagrams_from(t, gs, i + 1)
    }
}

/// The number of PlantUML code blocks of document `t`.
pub open spec fn diagram_count(t: Seq<char>) -> nat {
    diagrams_from(t, segments(t), 0)
}

/// The output for blocks `gs[i..]`, after `acc` for the blocks before, where the diagrams
/// from the `j`-th on were rendered to `outs[j..]`. Text blocks and other code blocks are
/// copied as they are; a diagram is replaced by its rendering. A failed rendering ends
/// everything with its error when `fail_on_error` holds, and is otherwise replaced by the
/// error's text.
pub open spec fn assemble_from(
    t: Seq<char>,
    gs: Seq<Seg>,
    i: int,
    outs: Seq<Result<Seq<char>, Seq<char>>>,
    j: int,
    fail_on_error: bool,
    acc: Seq<char>,
) -> Result<Seq<char>, Seq<char>>
    decreases gs.len() - i,
{
    if i < 0 || i >= gs.len() {
        Ok(acc)
    } else if is_diagram_seg(t, gs[i]) {
        let o = if 0 <= j < outs.len() {
            outs[j]
        } else {
            Ok(Seq::empty())
        };
        match o {
            Ok(s) => assemble_from(t, gs, i + 1, outs, j + 1, fail_on_error, acc + s),
            Err(e) => if fail_on_error {
                Err(e)
            } else {
                assemble_from(t, gs, i + 1, outs, j + 1, fail_on_error, acc + e)
            },
        }
    } else {
        let raw = t.subrange(
            match gs[i] {
                Seg::Text { start, .. } => start,
                Seg::Code { start, .. } => start,
            },
            match gs[i] {
                Seg::Text { end, .. } => end,
                Seg::Code { end, .. } => end,
            },
        );
        assemble_from(t, gs, i + 1, outs, j, fail_on_error, acc + raw)
    }
}

/// The processed document `t`, its diagrams rendered to `outs` in document order.
pub open spec fn assemble(
    t: Seq<char>,
    outs: Seq<Result<Seq<char>, Seq<char>>>,
    fail_on_error: bool,
) -> Result<Seq<char>, Seq<char>> {
    assemble_from(t, segments(t), 0, outs, 0, fail_on_error, Seq::empty())
}

/// With `fail_on_error` off, processing never fails.
pub proof fn lemma_lenient_never_fails(
    t: Seq<char>,
    gs: Seq<Seg>,
    i: int,
    outs: Seq<Result<Seq<char>, Seq<char>>>,
    j: int,
    acc: Seq<char>,
)
    ensures
        assemble_from(t, gs, i, outs, j, false, acc) is Ok,
    decreases gs.len() - i,
{
    if 0 <= i < gs.len() {
        if is_diagram_seg(t, gs[i]) {
            let o = if 0 <= j < outs.len() {
                outs[j]
            } else {
                Ok(Seq::empty())
            };
            match o {
                Ok(s) => lemma_lenient_never_fails(t, gs, i + 1, outs, j + 1, acc + s),
                Err(e) => lemma_lenient_never_fails(t, gs, i + 1, outs, j + 1, acc + e),
            }
        } else {
            let raw = t.subrange(
                match gs[i] {
                    Seg::Text { start, .. } => start,
                    Seg::Code { start, .. } => start,
                },
                match gs[i] {
                    Seg::Text { end, .. } => end,
                    Seg::Code { end, .. } => end,
                },
            );
            lemma_lenient_never_fails(t, gs, i + 1, outs, j, acc + raw);
        }
    }
}

proof fn lemma_no_diagrams_from(
    t: Seq<char>,
    gs: Seq<Seg>,
    i: int,
    outs: Seq<Result<Seq<char>, Seq<char>>>,
    j: int,
    fail_on_error: bool,
    acc: Seq<char>,
)
    requires
        0 <= i <= gs.len(),
        diagrams_from(t, gs, i) == 0,
    ensures
        assemble_from(t, gs, i, outs, j, fail_on_error, acc) == Ok::<Seq<char>, Seq<char>>(
            acc + concat_raw(t, gs.skip(i)),
        ),
    decreases gs.len() - i,
{
    if i == gs.len() {
        assert(gs.skip(i) =~= Seq::<Seg>::empty());
        assert(acc + Seq::<char>::empty() =~= acc);
    } else {
        let raw = t.subrange(
            match gs[i] {
                Seg::Text { start, .. } => start,
                Seg::Code { start, .. } => start,
            },
            match gs[i] {
                Seg::Text { end, .. } => end,
                Seg::Code { end, .. } => end,
            },
        );
        lemma_no_diagrams_from(t, gs, i + 1, outs, j, fail_on_error, acc + raw);
        assert(gs.skip(i).drop_first() =~= gs.skip(i + 1));
        assert(gs.skip(i)[0] == gs[i]);
        assert((acc + raw) + concat_raw(t, gs.skip(i + 1)) =~= acc + (raw + concat_raw(
            t,
            gs.skip(i + 1),
        )));
    }
}

/// A document without PlantUML code blocks comes out unchanged, whatever the policy.
pub proof fn lemma_no_diagrams_unchanged(
    t: Seq<char>,
    outs: Seq<Result<Seq<char>, Seq<char>>>,
    fail_on_error: bool,
)
    requires
        diagram_count(t) == 0,
    ensures
        assemble(t, outs, fail_on_error) == Ok::<Seq<char>, Seq<char>>(t),
{
    lemma_no_diagrams_from(t, segments(t), 0, outs, 0, fail_on_error, Seq::empty());
    lemma_segments_rebuild(t);
    assert(segments(t).skip(0) =~= segments(t));
    assert(Seq::<char>::empty() + t =~= t);
}

/// The processed document, given what rendering gave for each diagram, in document order
/// (`rendered` has one entry per PlantUML code block).
pub fn splice_rendered(
    markdown: &str,
    rendered: &Vec<Result<String, RenderError>>,
    fail_on_error: bool,
) -> (r: Result<String, RenderError>)
    requires
        rendered@.len() == diagram_count(markdown@),
    ensures
        outcome_view(r) == assemble(
            markdown@,
            rendered@.map_values(|o: Result<String, RenderError>| outcome_view(o)),
            fail_on_error,
        ),
{
    let ghost t = markdown@;
    let ghost gs = segments(t);
    let ghost outs = rendered@.map_values(|o: Result<String, RenderError>| outcome_view(o));
    let bs = blocks(markdown);
    let mut processed = String::new();
    let mut i: usize = 0;
    let mut j: usize = 0;
    while i < bs.len()
        invariant
            bs@.len() == gs.len(),
            gs == segments(t),
            t == markdown@,
            outs == rendered@.map_values(|o: Result<String, RenderError>| outcome_view(o)),
            forall|k: int| 0 <= k < bs@.len() ==> block_matches(#[trigger] bs@[k], t, gs[k]),
            i <= bs.len(),
            j + diagrams_from(t, gs, i as int) == rendered@.len(),
            assemble(t, outs, fail_on_error) == assemble_from(
                t,
                gs,
                i as int,
                outs,
                j as int,
                fail_on_error,
                processed@,
            ),
        decreases bs.len() - i,
    {
        assert(block_matches(bs@[i as int], t, gs[i as int]));
        match &bs[i] {
            Block::Text(tb) => {
                processed.append(tb.text);
            },
            Block::Code(cb) => {
                if cb.info_string.is_plantuml() {
                    assert(j < rendered.len());
                    match &rendered[j] {
                        Ok(s) => {
                            processed.append(s.as_str());
                        },
                        Err(e) => {
                            if fail_on_error {
                                return Err(RenderError { message: e.message.clone() });
                            }
                            processed.append(e.message.as_str());
                        },
                    }
                    j = j + 1;
                } else {
                    processed.append(cb.full_block);
                }
            },
        }
        i = i + 1;
    }
    Ok(processed)
}

/// Counts the PlantUML code blocks.
fn count_diagrams(markdown: &str, bs: &Vec<Block>) -> (r: usize)
    requires
        bs@.len() == segments(markdown@).len(),
        forall|k: int|
            0 <= k < bs@.len() ==> block_matches(#[trigger] bs@[k], markdown@, segments(markdown@)[k]),
    ensures
        r == diagram_count(markdown@),
{
    let ghost t = markdown@;
    let mut n: usize = 0;
    let mut i = bs.len();
    while i > 0
        invariant
            i <= bs.len(),
            bs@.len() == segments(t).len(),
            forall|k: int| 0 <= k < bs@.len() ==> block_matches(#[trigger] bs@[k], t, segments(t)[k]),
            n == diagrams_from(t, segments(t), i as int),
            n <= bs.len() - i,
        decreases i,
    {
        assert(block_matches(bs@[i - 1], t, segments(t)[i - 1]));
        match &bs[i - 1] {
            Block::Code(cb) => {
                if cb.info_string.is_plantuml() {
                    n = n + 1;
                }
            },
            Block::Text(_) => {},
        }
        i = i - 1;
    }
    n
}

/// Renders the PlantUML code blocks of `markdown` with `renderer` and puts the result in
/// their place; every other byte is copied. Each diagram's code is handed to the renderer
/// with `rel_image_url` and the block's image format, in document order, and what the
/// renderer gives for it replaces the block. When a rendering fails, `fail_on_error`
/// decides: the whole document fails with that error (later diagrams are not rendered),
/// or the error's text takes the diagram's place.
pub fn render_plantuml_code_blocks<R: RendererTrait>(
    markdown: &str,
    renderer: &R,
    rel_image_url: &str,
    fail_on_error: bool,
) -> (r: Result<String, RenderError>)
    ensures
        exists|outs: Seq<Result<Seq<char>, Seq<char>>>|
            {
                &&& outs.len() == diagram_count(markdown@)
                &&& outcome_view(r) == assemble(markdown@, outs, fail_on_error)
                &&& rendered_by(renderer, markdown@, rel_image_url@, outs, fail_on_error)
            },
        !fail_on_error ==> r is Ok,
        diagram_count(markdown@) == 0 ==> (r matches Ok(s) && s@ == markdown@),
{
    let ghost t = markdown@;
    let ghost gs = segments(t);
    let ghost reqs = requests_from(t, gs, 0);
    let bs = blocks(markdown);
    let total = count_diagrams(markdown, &bs);
    let mut rendered: Vec<Result<String, RenderError>> = Vec::new();
    let ghost mut done: Seq<(Seq<char>, Seq<char>)> = Seq::empty();
    let mut i: usize = 0;
    while i < bs.len()
        invariant_except_break
            i <= bs.len(),
            t == markdown@,
            gs == segments(t),
            reqs == requests_from(t, gs, 0),
            rendered@.len() <= total,
            total == diagram_count(markdown@),
            bs@.len() == gs.len(),
            forall|k: int| 0 <= k < bs@.len() ==> block_matches(#[trigger] bs@[k], t, gs[k]),
            rendered@.len() + diagrams_from(t, gs, i as int) == total,
            reqs == done + requests_from(t, gs, i as int),
            done.len() == rendered@.len(),
            rendered_by(
                renderer,
                t,
                rel_image_url@,
                rendered@.map_values(|o: Result<String, RenderError>| outcome_view(o)),
                fail_on_error,
            ),
        ensures
            t == markdown@,
            total == diagram_count(markdown@),
            rendered@.len() <= total,
            rendered@.len() == total || (fail_on_error && rendered@.len() >= 1
                && rendered@.last() is Err),
            rendered_by(
                renderer,
                t,
                rel_image_url@,
                rendered@.map_values(|o: Result<String, RenderError>| outcome_view(o)),
                fail_on_error,
            ),
        decreases bs.len() - i,
    {
        assert(block_matches(bs@[i as int], t, gs[i as int]));
        match &bs[i] {
            Block::Code(cb) => {
                if cb.info_string.is_plantuml() {
                    let format = select_image_format(cb.code, &cb.info_string);
                    let out = renderer.render(cb.code, rel_image_url, String::from_str(format));
                    let failed = out.is_err();
                    let ghost before = rendered@.map_values(
                        |o: Result<String, RenderError>| outcome_view(o),
                    );
                    proof {
                        assert(requests_from(t, gs, i as int) == seq![(cb.code@, format@)]
                            + requests_from(t, gs, i + 1));
                        assert(reqs[done.len() as int] == (cb.code@, format@));
                    }
                    rendered.push(out);
                    proof {
                        let after = rendered@.map_values(
                            |o: Result<String, RenderError>| outcome_view(o),
                        );
                        assert(after =~= before.push(outcome_view(out)));
                        lemma_rendered_by_push(
                            renderer,
                            t,
                            rel_image_url@,
                            before,
                            outcome_view(out),
                            fail_on_error,
                        );
                        assert(reqs =~= (done + seq![(cb.code@, format@)]) + requests_from(
                            t,
                            gs,
                            i + 1,
                        ));
                        done = done + seq![(cb.code@, format@)];
                    }
                    if failed && fail_on_error {
                        break ;
                    }
                }
            },
            Block::Text(_) => {},
        }
        i = i + 1;
    }
    // Rendering stopped at a failure: what the later diagrams would give does not matter.
    let ghost stopped = rendered@.map_values(|o: Result<String, RenderError>| outcome_view(o));
    while rendered.len() < total
        invariant
            rendered@.len() <= total,
            stopped.len() <= rendered@.len(),
            rendered@.map_values(|o: Result<String, RenderError>| outcome_view(o)).take(
                stopped.len() as int,
            ) == stopped,
            stopped.len() < total ==> (fail_on_error && stopped.len() >= 1 && stopped.last() is Err),
        decreases total - rendered.len(),
    {
        let ghost before = rendered@.map_values(|o: Result<String, RenderError>| outcome_view(o));
        rendered.push(Ok(String::new()));
        proof {
            let after = rendered@.map_values(|o: Result<String, RenderError>| outcome_view(o));
            assert(after.take(stopped.len() as int) =~= before.take(stopped.len() as int));
        }
    }
    let r = splice_rendered(markdown, &rendered, fail_on_error);
    proof {
        let outs = rendered@.map_values(|o: Result<String, RenderError>| outcome_view(o));
        lemma_rendered_by_padding(renderer, t, rel_image_url@, stopped, outs, fail_on_error);
        if !fail_on_error {
            lemma_lenient_never_fails(markdown@, segments(markdown@), 0, outs, 0, Seq::empty());
        }
        assert(outs.len() == diagram_count(markdown@));
        if diagram_count(markdown@) == 0 {
            lemma_no_diagrams_unchanged(markdown@, outs, fail_on_error);
        }
        assert(outcome_view(r) == assemble(markdown@, outs, fail_on_error));
        assert(rendered_by(renderer, markdown@, rel_image_url@, outs, fail_on_error));
    }
    r
}

proof fn lemma_rendered_by_push<R: RendererTrait>(
    renderer: &R,
    t: Seq<char>,
    rel: Seq<char>,
    outs: Seq<Result<Seq<char>, Seq<char>>>,
    o: Result<Seq<char>, Seq<char>>,
    fail_on_error: bool,
)
    requires
        rendered_by(renderer, t, rel, outs, fail_on_error),
        renderer.renders(
            diagram_code(t, outs.len() as int),
            rel,
            diagram_format(t, outs.len() as int),
            o,
        ),
    ensures
        rendered_by(renderer, t, rel, outs.push(o), fail_on_error),
{
    let after = outs.push(o);
    assert forall|j: int|
        0 <= j < after.len() && (!fail_on_error || forall|i: int| 0 <= i < j ==> after[i] is Ok)
            implies renderer.renders(
            diagram_code(t, j),
            rel,
            diagram_format(t, j),
            #[trigger] after[j],
        ) by {
        if j < outs.len() {
            assert(after[j] == outs[j]);
            if fail_on_error {
                assert forall|i: int| 0 <= i < j implies outs[i] is Ok by {
                    assert(after[i] == outs[i]);
                }
            }
            assert(renderer.renders(diagram_code(t, j), rel, diagram_format(t, j), outs[j]));
        }
    }
}

proof fn lemma_rendered_by_padding<R: RendererTrait>(
    renderer: &R,
    t: Seq<char>,
    rel: Seq<char>,
    stopped: Seq<Result<Seq<char>, Seq<char>>>,
    outs: Seq<Result<Seq<char>, Seq<char>>>,
    fail_on_error: bool,
)
    requires
        rendered_by(renderer, t, rel, stopped, fail_on_error),
        stopped.len() <= outs.len(),
        outs.take(stopped.len() as int) == stopped,
        stopped.len() < outs.len() ==> (fail_on_error && stopped.len() >= 1 && stopped.last() is Err),
    ensures
        rendered_by(renderer, t, rel, outs, fail_on_error),
{
    assert forall|j: int|
        0 <= j < outs.len() && (!fail_on_error || forall|i: int| 0 <= i < j ==> outs[i] is Ok)
            implies renderer.renders(
            diagram_code(t, j),
            rel,
            diagram_format(t, j),
            #[trigger] outs[j],
        ) by {
        if j < stopped.len() {
            assert(outs[j] == outs.take(stopped.len() as int)[j]);
            if fail_on_error {
                assert forall|i: int| 0 <= i < j implies stopped[i] is Ok by {
                    assert(outs[i] == outs.take(stopped.len() as int)[i]);
                }
            }
            assert(renderer.renders(diagram_code(t, j), rel, diagram_format(t, j), stopped[j]));
        } else {
            let e = stopped.len() - 1;
            assert(outs[e] == outs.take(stopped.len() as int)[e]);
            assert(!(outs[e] is Ok));
        }
    }
}

} // verus!
