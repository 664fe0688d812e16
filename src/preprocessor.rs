//! The preprocessor's identity towards the book tool, and where chapter images are found.
use crate::text::{chars_of, str_eq};
use vstd::prelude::*;

verus! {

/// The PlantUML preprocessor.
pub struct Preprocessor;

impl Preprocessor {
    /// The name under which the preprocessor is configured.
    pub fn name(&self) -> (r: &'static str)
        ensures
            r@ == "plantuml"@,
    {
        "plantuml"
    }

    /// Every renderer but the test name `not-supported` is supported.
    pub fn supports_renderer(&self, renderer: &str) -> (r: bool)
        ensures
            r == (renderer@ != "not-supported"@),
    {
        !str_eq(renderer, "not-supported")
    }
}

/// The number of components of a `/`-separated path: its non-empty parts.
pub open spec fn components(p: Seq<char>) -> nat
    decreases p.len(),
{
    if p.len() == 0 {
        0
    } else if p.last() != '/' && (p.len() == 1 || p[p.len() - 2] == '/') {
        1 + components(p.drop_last())
    } else {
        components(p.drop_last())
    }
}

/// `n` times `../`.
pub open spec fn ups(n: nat) -> Seq<char>
    decreases n,
{
    if n == 0 {
        Seq::empty()
    } else {
        ups((n - 1) as nat) + "../"@
    }
}

/// The image directory as seen from a chapter at `chapter_path` (relative to the book's
/// source directory): one `../` for each directory the chapter is nested in.
pub open spec fn relative_img_url_of(chapter_path: Seq<char>) -> Seq<char> {
    ups(if components(chapter_path) > 0 {
        (components(chapter_path) - 1) as nat
    } else {
        0
    }) + "mdbook-plantuml-img"@
}

pub fn relative_img_url(chapter_path: &str) -> (r: String)
    ensures
        r@ == relative_img_url_of(chapter_path@),
{
    let v = chars_of(chapter_path);
    let mut n: usize = 0;
    let mut i: usize = 0;
    while i < v.len()
        invariant
            i <= v.len(),
            n == components(v@.take(i as int)),
            n <= i,
        decreases v.len() - i,
    {
        let ghost t = v@.take(i + 1);
        assert(t.drop_last() =~= v@.take(i as int));
        if v[i] != '/' && (i == 0 || v[i - 1] == '/') {
            n = n + 1;
        }
        i = i + 1;
    }
    assert(v@.take(v.len() as int) =~= v@);
    let mut r = String::new();
    let mut k: usize = 1;
    while k < n
        invariant
            1 <= k,
            k <= n || (n == 0 && k == 1),
            n == components(chapter_path@),
            r@ == ups((k - 1) as nat),
        decreases n - k,
    {
        r.append("../");
        k = k + 1;
    }
    r.append("mdbook-plantuml-img");
    r
}

} // verus!
