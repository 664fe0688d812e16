//! The info string of a fenced code block: its language and its `key=value` options.
use crate::text::{
    char_end, char_end_from, chars_of, contains, find_seq, slice_vec, str_eq, trim,
    trim_bounds,
};
use vstd::prelude::*;

verus! {

/// A parsed info string, as values.
pub struct InfoModel {
    pub language: Option<Seq<char>>,
    pub config: Map<Seq<char>, Option<Seq<char>>>,
}

pub open spec fn empty_model() -> InfoModel {
    InfoModel { language: None, config: Map::empty() }
}

/// Parts of an info string are separated by commas or spaces.
pub open spec fn is_sep(c: char) -> bool {
    c == ',' || c == ' '
}

/// Index of the first separator at or after `i` in `s`, or the length of `s`.
pub open spec fn sep_end(s: Seq<char>, i: int) -> int
    decreases s.len() - i,
{
    if i < 0 || i >= s.len() {
        s.len() as int
    } else if is_sep(s[i]) {
        i
    } else {
        sep_end(s, i + 1)
    }
}

/// A (trimmed) part read as `key` or `key=value`: the key is what comes before the first
/// `=`, the value what comes between it and the next `=`, both trimmed. An empty key
/// gives nothing; an empty value gives a key without value.
pub open spec fn key_value(p: Seq<char>) -> Option<(Seq<char>, Option<Seq<char>>)> {
    let e1 = char_end(p, 0, '=');
    let key = trim(p.subrange(0, e1));
    if key.len() == 0 {
        None
    } else if e1 >= p.len() {
        Some((key, None))
    } else {
        let v = trim(p.subrange(e1 + 1, char_end(p, e1 + 1, '=')));
        Some((key, if v.len() == 0 { None } else { Some(v) }))
    }
}

/// Adds one trimmed part: the first part is the language when it is not empty and holds no
/// `=`; any other part is an option, and a later option replaces an earlier one.
pub open spec fn absorb(p: Seq<char>, first: bool, acc: InfoModel) -> InfoModel {
    if first && p.len() > 0 && char_end(p, 0, '=') == p.len() {
        InfoModel { language: Some(p), config: acc.config }
    } else {
        match key_value(p) {
            Some(kv) => InfoModel { language: acc.language, config: acc.config.insert(kv.0, kv.1) },
            None => acc,
        }
    }
}

/// Absorbs the parts of `s` from position `i` on.
pub open spec fn parse_parts(s: Seq<char>, i: int, acc: InfoModel) -> InfoModel
    decreases s.len() - i,
{
    if i < 0 || i > s.len() {
        acc
    } else {
        let e = sep_end(s, i);
        let acc2 = absorb(trim(s.subrange(i, e)), i == 0, acc);
        if e >= s.len() || e < i {
            acc2
        } else {
            parse_parts(s, e + 1, acc2)
        }
    }
}

/// The meaning of a raw info string.
pub open spec fn parse_info(raw: Seq<char>) -> InfoModel {
    parse_parts(trim(raw), 0, empty_model())
}

pub open spec fn opt_view(o: Option<&str>) -> Option<Seq<char>> {
    match o {
        Some(s) => Some(s@),
        None => None,
    }
}

/// The options as a map; where a key repeats, the later entry counts.
pub open spec fn config_map(c: Seq<(&str, Option<&str>)>) -> Map<Seq<char>, Option<Seq<char>>>
    decreases c.len(),
{
    if c.len() == 0 {
        Map::empty()
    } else {
        config_map(c.drop_last()).insert(c.last().0@, opt_view(c.last().1))
    }
}

pub open spec fn plantuml_tag() -> Seq<char> {
    seq!['p', 'l', 'a', 'n', 't', 'u', 'm', 'l']
}

pub open spec fn puml_tag() -> Seq<char> {
    seq!['p', 'u', 'm', 'l']
}

pub open spec fn format_key() -> Seq<char> {
    seq!['f', 'o', 'r', 'm', 'a', 't']
}

pub open spec fn ditaa_marker() -> Seq<char> {
    seq!['@', 's', 't', 'a', 'r', 't', 'd', 'i', 't', 'a', 'a']
}

pub open spec fn png_format() -> Seq<char> {
    seq!['p', 'n', 'g']
}

pub open spec fn svg_format() -> Seq<char> {
    seq!['s', 'v', 'g']
}

/// The info string names a PlantUML diagram.
pub open spec fn is_diagram(m: InfoModel) -> bool {
    m.language == Some(plantuml_tag()) || m.language == Some(puml_tag())
}

/// The image format for a diagram: ditaa diagrams are always `png`; otherwise the `format`
/// option when it has a value; otherwise `svg`.
pub open spec fn image_format(code: Seq<char>, m: InfoModel) -> Seq<char> {
    if contains(code, ditaa_marker()) {
        png_format()
    } else if m.config.contains_key(format_key()) && m.config[format_key()] is Some {
        m.config[format_key()]->0
    } else {
        svg_format()
    }
}

/// Holds the parsed code block info string.
pub struct InfoString<'a> {
    /// The raw info string, trimmed.
    pub info_string: &'a str,
    /// The code block's language.
    pub language: Option<&'a str>,
    /// The options (`key` or `key=value`), in the order they were written.
    pub config: Vec<(&'a str, Option<&'a str>)>,
}

proof fn lemma_config_map_suffix(c: Seq<(&str, Option<&str>)>, j: int, k: Seq<char>)
    requires
        0 <= j <= c.len(),
        forall|x: int| j <= x < c.len() ==> (#[trigger] c[x]).0@ != k,
    ensures
        config_map(c).contains_key(k) == config_map(c.take(j)).contains_key(k),
        config_map(c).contains_key(k) ==> config_map(c)[k] == config_map(c.take(j))[k],
    decreases c.len() - j,
{
    if j == c.len() {
        assert(c.take(j) =~= c);
    } else {
        let d = c.drop_last();
        assert forall|x: int| j <= x < d.len() implies (#[trigger] d[x]).0@ != k by {
            assert(d[x] == c[x]);
        }
        lemma_config_map_suffix(d, j, k);
        assert(d.take(j) =~= c.take(j));
    }
}

fn lookup_config<'a>(c: &Vec<(&'a str, Option<&'a str>)>, key: &str) -> (r: Option<Option<&'a str>>)
    ensures
        r is Some <==> config_map(c@).contains_key(key@),
        r matches Some(v) ==> opt_view(v) == config_map(c@)[key@],
{
    let mut j = c.len();
    while j > 0
        invariant
            j <= c.len(),
            forall|x: int| j <= x < c.len() ==> (#[trigger] c@[x]).0@ != key@,
        decreases j,
    {
        let (k, v) = c[j - 1];
        if str_eq(k, key) {
            proof {
                lemma_config_map_suffix(c@, j as int, key@);
                let t = c@.take(j as int);
                assert(t.last() == c@[j - 1]);
            }
            return Some(v);
        }
        j = j - 1;
    }
    proof {
        lemma_config_map_suffix(c@, 0, key@);
    }
    None
}

impl<'a> InfoString<'a> {
    /// What the info string says: its language and its options.
    pub open spec fn model(&self) -> InfoModel {
        InfoModel { language: opt_view(self.language), config: config_map(self.config@) }
    }

    /// Parses a raw info string (what follows the opening fence on its line). The parts are
    /// separated by commas or spaces; the first part is the language unless it holds `=`.
    pub fn from(raw: &'a str) -> (r: InfoString<'a>)
        ensures
            r.info_string@ == trim(raw@),
            r.model() == parse_info(raw@),
    {
        let v = chars_of(raw);
        let (a, b) = trim_bounds(&v, 0, v.len());
        assert(v@.subrange(0, v.len() as int) =~= v@);
        let info = raw.substring_char(a, b);
        let s = slice_vec(&v, a, b);
        let ghost sv = s@;
        assert(sv == info@);
        let mut language: Option<&'a str> = None;
        let mut config: Vec<(&'a str, Option<&'a str>)> = Vec::new();
        let mut i: usize = 0;
        loop
            invariant_except_break
                i <= s.len(),
                s@ == info@,
                parse_info(raw@) == parse_parts(
                    s@,
                    i as int,
                    (InfoModel { language: opt_view(language), config: config_map(config@) }),
                ),
            ensures
                parse_info(raw@) == (InfoModel {
                    language: opt_view(language),
                    config: config_map(config@),
                }),
            decreases s.len() - i,
        {
            let e = sep_end_from(&s, i);
            let (pa, pb) = trim_bounds(&s, i, e);
            let p = slice_vec(&s, pa, pb);
            let ghost acc = InfoModel { language: opt_view(language), config: config_map(config@) };
            let e1 = char_end_from(&p, 0, '=');
            if i == 0 && pb > pa && e1 == p.len() {
                language = Some(info.substring_char(pa, pb));
            } else {
                let (ka, kb) = trim_bounds(&p, 0, e1);
                assert(info@.subrange(pa + ka, pa + kb) =~= p@.subrange(ka as int, kb as int));
                if kb > ka {
                    let key = info.substring_char(pa + ka, pa + kb);
                    let mut value: Option<&'a str> = None;
                    if e1 < p.len() {
                        let e2 = char_end_from(&p, e1 + 1, '=');
                        let (va, vb) = trim_bounds(&p, e1 + 1, e2);
                        assert(info@.subrange(pa + va, pa + vb) =~= p@.subrange(
                            va as int,
                            vb as int,
                        ));
                        if vb > va {
                            value = Some(info.substring_char(pa + va, pa + vb));
                        }
                    }
                    let ghost before = config@;
                    config.push((key, value));
                    proof {
                        assert(config@.drop_last() =~= before);
                    }
                }
            }
            assert((InfoModel { language: opt_view(language), config: config_map(config@) })
                == absorb(trim(s@.subrange(i as int, e as int)), i == 0, acc));
            if e >= s.len() {
                break ;
            }
            i = e + 1;
        }
        InfoString { info_string: info, language, config }
    }

    /// Returns true if this code block is PlantUML (its language is `plantuml` or `puml`).
    pub fn is_plantuml(&self) -> (r: bool)
        ensures
            r == is_diagram(self.model()),
    {
        proof {
            reveal_strlit("plantuml");
            reveal_strlit("puml");
            assert("plantuml"@ =~= plantuml_tag());
            assert("puml"@ =~= puml_tag());
        }
        match self.language {
            Some(l) => str_eq(l, "plantuml") || str_eq(l, "puml"),
            None => false,
        }
    }

    /// The value of option `key`, if the option is present (with or without a value).
    pub fn get(&self, key: &str) -> (r: Option<Option<&'a str>>)
        ensures
            r is Some <==> self.model().config.contains_key(key@),
            r matches Some(v) ==> opt_view(v) == self.model().config[key@],
    {
        lookup_config(&self.config, key)
    }
}

fn sep_end_from(v: &Vec<char>, i: usize) -> (r: usize)
    requires
        i <= v.len(),
    ensures
        r == sep_end(v@, i as int),
        i <= r <= v.len(),
{
    let mut j = i;
    while j < v.len() && v[j] != ',' && v[j] != ' '
        invariant
            i <= j <= v.len(),
            sep_end(v@, i as int) == sep_end(v@, j as int),
        decreases v.len() - j,
    {
        j = j + 1;
    }
    j
}

/// Whether `code` holds the ditaa start tag anywhere.
pub fn is_ditaa(code: &str) -> (r: bool)
    ensures
        r == contains(code@, ditaa_marker()),
{
    proof {
        reveal_strlit("@startditaa");
        assert("@startditaa"@ =~= ditaa_marker());
    }
    find_seq(&chars_of(code), &chars_of("@startditaa")).is_some()
}

/// The image format PlantUML is asked for, for a block with this code and info string.
pub fn select_image_format<'a>(code: &str, info: &InfoString<'a>) -> (r: &'a str)
    ensures
        r@ == image_format(code@, info.model()),
{
    proof {
        reveal_strlit("png");
        reveal_strlit("svg");
        reveal_strlit("format");
        assert("png"@ =~= png_format());
        assert("svg"@ =~= svg_format());
        assert("format"@ =~= format_key());
    }
    if is_ditaa(code) {
        // Ditaa only renders to png
        return "png";
    }
    match info.get("format") {
        Some(Some(f)) => f,
        _ => "svg",
    }
}

} // verus!
