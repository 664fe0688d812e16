//! Content-addressed names for rendered diagram images.
use crate::info::{ditaa_marker, is_ditaa, png_format, svg_format};
use crate::text::{contains, str_eq};
use sha1::Digest;
use vstd::prelude::*;
use vstd::utf8::encode_utf8;

verus! {

/// What SHA-1 makes of `data`.
pub uninterp spec fn sha1_of(data: Seq<u8>) -> Seq<u8>;

/// Relies on `sha1::Sha1::digest` (the `digest::Digest` trait): the SHA-1 digest of
/// `data`, which is 20 bytes long.
#[verifier::external_body]
fn sha1_digest(data: &[u8]) -> (r: Vec<u8>)
    ensures
        r@ == sha1_of(data@),
        r@.len() == 20,
{
    sha1::Sha1::digest(data).to_vec()
}

pub open spec fn hex_digits() -> Seq<char> {
    seq!['0', '1', '2', '3', '4', '5', '6', '7', '8', '9', 'a', 'b', 'c', 'd', 'e', 'f']
}

/// Lower-case hex: two digits for each byte, the high nibble first.
pub open spec fn hex_lower(b: Seq<u8>) -> Seq<char>
    decreases b.len(),
{
    if b.len() == 0 {
        Seq::empty()
    } else {
        seq![hex_digits()[b[0] as int / 16], hex_digits()[b[0] as int % 16]] + hex_lower(b.drop_first())
    }
}

/// Relies on `base16ct::lower::encode_string`: two lower-case hex digits per byte, high
/// nibble first. It panics only when the input is longer than `usize::MAX / 2`.
#[verifier::external_body]
fn hex_encode(b: &[u8]) -> (r: String)
    requires
        b@.len() <= usize::MAX / 2,
    ensures
        r@ == hex_lower(b@),
{
    base16ct::lower::encode_string(b)
}

/// The bytes of the given texts, one after the other, in UTF-8.
pub open spec fn utf8_all(texts: Seq<Seq<char>>) -> Seq<u8>
    decreases texts.len(),
{
    if texts.len() == 0 {
        Seq::empty()
    } else {
        utf8_all(texts.drop_last()) + encode_utf8(texts.last())
    }
}

/// The cache key of a diagram: SHA-1, in lower-case hex, of its code followed by the
/// contents of the files it includes (those that could be read), in order.
pub open spec fn content_hash(code: Seq<char>, included: Seq<Seq<char>>) -> Seq<char> {
    hex_lower(sha1_of(encode_utf8(code) + utf8_all(included)))
}

fn push_bytes(v: &mut Vec<u8>, b: &[u8])
    ensures
        final(v)@ == old(v)@ + b@,
{
    let mut i: usize = 0;
    while i < b.len()
        invariant
            i <= b@.len(),
            v@ == old(v)@ + b@.subrange(0, i as int),
        decreases b@.len() - i,
    {
        v.push(b[i]);
        i = i + 1;
        assert(v@ =~= old(v)@ + b@.subrange(0, i as int));
    }
    assert(b@.subrange(0, b@.len() as int) =~= b@);
}

/// The cache key for a diagram with this code, given the contents of the files it
/// includes that could be read.
pub fn create_hash_from_code(code: &str, included: &Vec<String>) -> (r: String)
    ensures
        r@ == content_hash(code@, included@.map_values(|s: String| s@)),
{
    let mut data: Vec<u8> = Vec::new();
    push_bytes(&mut data, code.as_bytes());
    let ghost texts = included@.map_values(|s: String| s@);
    let mut i: usize = 0;
    while i < included.len()
        invariant
            i <= included.len(),
            texts == included@.map_values(|s: String| s@),
            data@ == encode_utf8(code@) + utf8_all(texts.take(i as int)),
        decreases included.len() - i,
    {
        let ghost before = data@;
        push_bytes(&mut data, included[i].as_str().as_bytes());
        proof {
            assert(texts.take(i + 1).drop_last() =~= texts.take(i as int));
            assert(texts.take(i + 1).last() == included@[i as int]@);
            assert(data@ =~= encode_utf8(code@) + utf8_all(texts.take(i + 1)));
        }
        i = i + 1;
    }
    assert(texts.take(included.len() as int) =~= texts);
    let digest = sha1_digest(data.as_slice());
    hex_encode(digest.as_slice())
}

pub open spec fn txt_format() -> Seq<char> {
    seq!['t', 'x', 't']
}

pub open spec fn braille_format() -> Seq<char> {
    seq!['b', 'r', 'a', 'i', 'l', 'l', 'e']
}

/// The file extension PlantUML gives its output for `format`: ditaa diagrams are always
/// `png`; no format means `svg`; `txt` gives `atxt`, `braille` gives `braille.png`, any
/// other format is its own extension.
pub open spec fn extension_for(code: Seq<char>, format: Seq<char>) -> Seq<char> {
    if contains(code, ditaa_marker()) {
        png_format()
    } else if format.len() == 0 {
        svg_format()
    } else if format == txt_format() {
        seq!['a', 't', 'x', 't']
    } else if format == braille_format() {
        seq!['b', 'r', 'a', 'i', 'l', 'l', 'e', '.', 'p', 'n', 'g']
    } else {
        format
    }
}

/// `name` joined to directory `root`, with one `/` between them.
pub open spec fn join_path(root: Seq<char>, name: Seq<char>) -> Seq<char> {
    if root.len() == 0 || root.last() == '/' {
        root + name
    } else {
        root + seq!['/'] + name
    }
}

/// Where the image for a diagram is cached: `<root>/<content hash>.<extension>`.
pub open spec fn image_path(
    root: Seq<char>,
    code: Seq<char>,
    included: Seq<Seq<char>>,
    format: Seq<char>,
) -> Seq<char> {
    join_path(root, content_hash(code, included) + seq!['.'] + extension_for(code, format))
}

/// The extension for `image_format`, where it is not the format itself.
fn special_extension(code: &str, image_format: &str) -> (r: Option<&'static str>)
    ensures
        r matches Some(e) ==> e@ == extension_for(code@, image_format@),
        r is None ==> extension_for(code@, image_format@) == image_format@,
{
    proof {
        reveal_strlit("png");
        reveal_strlit("svg");
        reveal_strlit("txt");
        reveal_strlit("atxt");
        reveal_strlit("braille");
        reveal_strlit("braille.png");
        assert("png"@ =~= png_format());
        assert("svg"@ =~= svg_format());
        assert("txt"@ =~= txt_format());
        assert("braille"@ =~= braille_format());
        assert("atxt"@ =~= seq!['a', 't', 'x', 't']);
        assert("braille.png"@ =~= seq!['b', 'r', 'a', 'i', 'l', 'l', 'e', '.', 'p', 'n', 'g']);
    }
    if is_ditaa(code) {
        // ditaa only has png support
        Some("png")
    } else if image_format.is_empty() {
        Some("svg")
    } else if str_eq(image_format, "txt") {
        // -ttxt outputs an .atxt file
        Some("atxt")
    } else if str_eq(image_format, "braille") {
        // -tbraille outputs a .braille.png file
        Some("braille.png")
    } else {
        None
    }
}

/// Create the image path with the appropriate extension. The base name of the file is the
/// content hash of the code block and of the files it includes (`included` holds the
/// contents of those that could be read).
pub fn image_filename(
    img_root: &str,
    plantuml_code: &str,
    included: &Vec<String>,
    image_format: &str,
) -> (r: String)
    ensures
        r@ == image_path(
            img_root@,
            plantuml_code@,
            included@.map_values(|s: String| s@),
            image_format@,
        ),
{
    let ext: &str = match special_extension(plantuml_code, image_format) {
        Some(e) => e,
        None => image_format,
    };
    proof {
        reveal_strlit("/");
        reveal_strlit(".");
        assert("/"@ =~= seq!['/']);
        assert("."@ =~= seq!['.']);
    }
    let hash = create_hash_from_code(plantuml_code, included);
    let mut name = hash.clone();
    name.append(".");
    name.append(ext);
    let mut out = String::from_str(img_root);
    let root_len = img_root.unicode_len();
    if root_len > 0 && img_root.get_char(root_len - 1) != '/' {
        out.append("/");
    }
    out.append(name.as_str());
    assert(out@ =~= join_path(img_root@, name@));
    out
}

/// The cache path of a diagram depends on nothing but the cache root, the code, the
/// contents of the files it includes and the format: computed twice from the same values,
/// it is the same path.
pub proof fn lemma_image_path_stable(
    root: Seq<char>,
    code: Seq<char>,
    included: Seq<Seq<char>>,
    format: Seq<char>,
    first: Seq<char>,
    second: Seq<char>,
)
    requires
        first == image_path(root, code, included, format),
        second == image_path(root, code, included, format),
    ensures
        first == second,
{
}

} // verus!
