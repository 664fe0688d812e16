//! What replaces a diagram in the document, once its image is in the cache.
use crate::base64::{base64_of, encode_standard, standard_alphabet};
use crate::cache_cleaner::{to_delete, CacheCleaner, ListedEntry};
use crate::config::Config;
use crate::image_name::{image_filename, image_path};
use crate::text::{chars_of, str_eq};
use vstd::prelude::*;

verus! {

/// Index of the last `c` in `s`, or -1.
pub open spec fn last_index_of(s: Seq<char>, c: char) -> int
    decreases s.len(),
{
    if s.len() == 0 {
        -1
    } else if s.last() == c {
        s.len() - 1
    } else {
        last_index_of(s.drop_last(), c)
    }
}

/// The last component of a `/`-separated path.
pub open spec fn file_name(p: Seq<char>) -> Seq<char> {
    p.skip(last_index_of(p, '/') + 1)
}

/// The extension of a path: what follows the last `.` of its file name, when that dot
/// is not the name's first character.
pub open spec fn extension_of(p: Seq<char>) -> Seq<char> {
    let f = file_name(p);
    if last_index_of(f, '.') > 0 {
        f.skip(last_index_of(f, '.') + 1)
    } else {
        Seq::empty()
    }
}

/// The media type of a data URI, by file extension.
pub open spec fn media_type_of(ext: Seq<char>) -> Seq<char> {
    if ext == "jpg"@ || ext == "jpeg"@ {
        "image/jpeg"@
    } else if ext == "png"@ {
        "image/png"@
    } else if ext == "svg"@ {
        "image/svg+xml"@
    } else if ext == "atxt"@ || ext == "utxt"@ || ext == "txt"@ {
        "text/plain"@
    } else {
        ""@
    }
}

/// `![](url)`, or a clickable `[![](url)](url)`, then an empty line.
pub open spec fn image_element(url: Seq<char>, clickable: bool) -> Seq<char> {
    if clickable {
        "[![]("@ + url + ")]("@ + url + ")\n\n"@
    } else {
        "![]("@ + url + ")\n\n"@
    }
}

/// How a rendered image is put into the document.
pub enum ImageOutput {
    /// Text output (`atxt`, `utxt`) goes in as a `txt` code block.
    InlineText,
    /// The image goes in as a data URI.
    DataUri,
    /// The image is linked.
    Link,
}

fn last_index(v: &Vec<char>, c: char) -> (r: Option<usize>)
    ensures
        match r {
            Some(i) => i < v.len() && last_index_of(v@, c) == i,
            None => last_index_of(v@, c) == -1,
        },
{
    let mut i = v.len();
    assert(v@.take(i as int) =~= v@);
    while i > 0
        invariant
            i <= v.len(),
            last_index_of(v@, c) == last_index_of(v@.take(i as int), c),
        decreases i,
    {
        assert(v@.take(i as int).drop_last() =~= v@.take(i - 1));
        if v[i - 1] == c {
            return Some(i - 1);
        }
        i = i - 1;
    }
    None
}

/// The file name of `path`.
pub fn file_name_of(path: &str) -> (r: &str)
    ensures
        r@ == file_name(path@),
{
    let v = chars_of(path);
    proof {
        assert(v@.take(v.len() as int) =~= v@);
    }
    let start = match last_index(&v, '/') {
        Some(i) => i + 1,
        None => 0,
    };
    path.substring_char(start, v.len())
}

/// The extension of `path` (empty when it has none).
pub fn extension_of_path(path: &str) -> (r: &str)
    ensures
        r@ == extension_of(path@),
{
    let name = file_name_of(path);
    let v = chars_of(name);
    proof {
        assert(v@.take(v.len() as int) =~= v@);
    }
    match last_index(&v, '.') {
        Some(i) if i > 0 => name.substring_char(i + 1, v.len()),
        _ => name.substring_char(0, 0),
    }
}

/// The media type for the image at `path`.
pub fn media_type(path: &str) -> (r: &'static str)
    ensures
        r@ == media_type_of(extension_of(path@)),
{
    let ext = extension_of_path(path);
    if str_eq(ext, "jpg") || str_eq(ext, "jpeg") {
        "image/jpeg"
    } else if str_eq(ext, "png") {
        "image/png"
    } else if str_eq(ext, "svg") {
        "image/svg+xml"
    } else if str_eq(ext, "atxt") || str_eq(ext, "utxt") || str_eq(ext, "txt") {
        "text/plain"
    } else {
        ""
    }
}

fn image_element_for(url: &str, clickable: bool) -> (r: String)
    ensures
        r@ == image_element(url@, clickable),
{
    if clickable {
        let mut s = String::from_str("[![](");
        s.append(url);
        s.append(")](");
        s.append(url);
        s.append(")\n\n");
        s
    } else {
        let mut s = String::from_str("![](");
        s.append(url);
        s.append(")\n\n");
        s
    }
}

/// A Markdown image that links the image file at `image_path` under `rel_img_url`.
pub fn create_md_link(rel_img_url: &str, image_path: &str, clickable: bool) -> (r: String)
    ensures
        r@ == image_element(rel_img_url@ + "/"@ + file_name(image_path@), clickable),
{
    let mut url = String::from_str(rel_img_url);
    url.append("/");
    url.append(file_name_of(image_path));
    image_element_for(url.as_str(), clickable)
}

/// The data URI of the image at `image_path`, whose bytes are `data`.
pub fn create_datauri(image_path: &str, data: &[u8]) -> (r: String)
    ensures
        r@ == "data:"@ + media_type_of(extension_of(image_path@)) + ";base64,"@ + base64_of(
            standard_alphabet(),
            data@,
            true,
        ),
{
    let mut s = String::from_str("data:");
    s.append(media_type(image_path));
    s.append(";base64,");
    s.append(encode_standard(data).as_str());
    s
}

/// A Markdown image with the image at `image_path` (bytes `data`) as a data URI.
pub fn create_image_datauri_element(image_path: &str, data: &[u8], clickable: bool) -> (r:
    String)
    ensures
        r@ == image_element(
            "data:"@ + media_type_of(extension_of(image_path@)) + ";base64,"@ + base64_of(
                standard_alphabet(),
                data@,
                true,
            ),
            clickable,
        ),
{
    let uri = create_datauri(image_path, data);
    image_element_for(uri.as_str(), clickable)
}

/// Text output, as a `txt` code block.
pub fn create_inline_txt_image(txt: &str) -> (r: String)
    ensures
        r@ == "\n```txt\n"@ + txt@ + "```\n"@,
{
    let mut s = String::from_str("\n```txt\n");
    s.append(txt);
    s.append("```\n");
    s
}

/// Renders diagrams into the image cache directory `img_root`, and tracks which cached
/// images the current run uses.
pub struct Renderer {
    cleaner: CacheCleaner,
    img_root: String,
    clickable_img: bool,
    use_data_uris: bool,
}

impl Renderer {
    pub closed spec fn root(&self) -> Seq<char> {
        self.img_root@
    }

    pub closed spec fn clickable(&self) -> bool {
        self.clickable_img
    }

    pub closed spec fn data_uris(&self) -> bool {
        self.use_data_uris
    }

    /// The images used so far.
    pub closed spec fn kept(&self) -> Set<Seq<char>> {
        self.cleaner.kept()
    }

    pub closed spec fn is_finalized(&self) -> bool {
        self.cleaner.is_finalized()
    }

    pub fn new(cfg: &Config, img_root: String) -> (r: Renderer)
        ensures
            r.root() == img_root@,
            r.clickable() == cfg.clickable_img,
            r.data_uris() == cfg.use_data_uris,
            r.kept() == Set::<Seq<char>>::empty(),
            !r.is_finalized(),
    {
        let cleaner = CacheCleaner::new(img_root.as_str());
        Renderer {
            cleaner,
            img_root,
            clickable_img: cfg.clickable_img,
            use_data_uris: cfg.use_data_uris,
        }
    }

    /// The image cache directory.
    pub fn img_root(&self) -> (r: &str)
        ensures
            r@ == self.root(),
    {
        self.img_root.as_str()
    }

    /// Where the image for this diagram is cached (`included`: the contents of the files
    /// it includes that could be read).
    pub fn image_path(&self, plantuml_code: &str, included: &Vec<String>, image_format: &str) -> (r:
        String)
        ensures
            r@ == image_path(
                self.root(),
                plantuml_code@,
                included@.map_values(|s: String| s@),
                image_format@,
            ),
    {
        image_filename(self.img_root.as_str(), plantuml_code, included, image_format)
    }

    /// Marks the cached image at `image_path` as used by this run.
    pub fn keep(&mut self, image_path: &str)
        requires
            !old(self).is_finalized(),
        ensures
            final(self).kept() == old(self).kept().insert(image_path@),
            final(self).root() == old(self).root(),
            final(self).clickable() == old(self).clickable(),
            final(self).data_uris() == old(self).data_uris(),
            !final(self).is_finalized(),
    {
        self.cleaner.keep(image_path);
    }

    /// Ends the run: the cached images to delete, given the listing of the cache directory.
    pub fn finalize(&mut self, entries: &Vec<ListedEntry>) -> (r: Vec<String>)
        requires
            !old(self).is_finalized(),
        ensures
            final(self).is_finalized(),
            r@.map_values(|s: String| s@) == to_delete(entries@, old(self).kept()),
    {
        self.cleaner.finalize(entries)
    }

    /// How the image at `image_path` goes into the document: text output inline, other
    /// images as data URIs or as links, as configured.
    pub fn image_output(&self, image_path: &str) -> (r: ImageOutput)
        ensures
            (extension_of(image_path@) == "atxt"@ || extension_of(image_path@) == "utxt"@) ==> r
                is InlineText,
            !(extension_of(image_path@) == "atxt"@ || extension_of(image_path@) == "utxt"@) ==> (
            if self.data_uris() {
                r is DataUri
            } else {
                r is Link
            }),
    {
        let ext = extension_of_path(image_path);
        if str_eq(ext, "atxt") || str_eq(ext, "utxt") {
            ImageOutput::InlineText
        } else if self.use_data_uris {
            ImageOutput::DataUri
        } else {
            ImageOutput::Link
        }
    }

    /// The Markdown that links the image at `image_path`.
    pub fn md_link(&self, rel_img_url: &str, image_path: &str) -> (r: String)
        ensures
            r@ == image_element(rel_img_url@ + "/"@ + file_name(image_path@), self.clickable()),
    {
        create_md_link(rel_img_url, image_path, self.clickable_img)
    }

    /// The Markdown that holds the image at `image_path` (bytes `data`) as a data URI.
    pub fn datauri_element(&self, image_path: &str, data: &[u8]) -> (r: String)
        ensures
            r@ == image_element(
                "data:"@ + media_type_of(extension_of(image_path@)) + ";base64,"@ + base64_of(
                    standard_alphabet(),
                    data@,
                    true,
                ),
                self.clickable(),
            ),
    {
        create_image_datauri_element(image_path, data, self.clickable_img)
    }
}

} // verus!
