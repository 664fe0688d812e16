//! Choosing how diagrams are rendered: a PlantUML server, or the PlantUML command.
use crate::base64::{base64_of, encode, plantuml_alphabet};
use crate::config::Config;
use crate::pipeline::RenderError;
use crate::text::{chars_of, matches_at, starts_with};
use vstd::prelude::*;
use vstd::utf8::encode_utf8;

verus! {

/// Invokes PlantUML as a shell command.
pub struct PlantUMLShell {
    pub plantuml_cmd: String,
    pub piped: bool,
}

impl PlantUMLShell {
    pub fn new(plantuml_cmd: String, piped: bool) -> (r: PlantUMLShell)
        ensures
            r.plantuml_cmd@ == plantuml_cmd@,
            r.piped == piped,
    {
        PlantUMLShell { plantuml_cmd, piped }
    }
}

/// The renderer that `create` picks.
pub enum BackendKind {
    /// A PlantUML server at this address.
    Server(String),
    /// The PlantUML command.
    Shell(PlantUMLShell),
}

/// The configured command is the address of a PlantUML server.
pub open spec fn is_server_address(cmd: Seq<char>) -> bool {
    starts_with(cmd, "https:"@) || starts_with(cmd, "http:"@)
}

/// The commands to try, in order: the configured one, or else `plantuml` and
/// `java -jar plantuml.jar`.
pub open spec fn candidates(cfg: Config) -> Seq<Seq<char>> {
    match cfg.plantuml_cmd {
        Some(c) => seq![c@],
        None => seq!["plantuml"@, "java -jar plantuml.jar"@],
    }
}

pub open spec fn server_of(cfg: Config) -> Option<Seq<char>> {
    match cfg.plantuml_cmd {
        Some(c) => if is_server_address(c@) {
            Some(c@)
        } else {
            None
        },
        None => None,
    }
}

/// Whether `cmd` is a server address.
fn is_server(cmd: &str) -> (r: bool)
    ensures
        r == is_server_address(cmd@),
{
    let c = chars_of(cmd);
    matches_at(&c, &chars_of("https:"), 0) || matches_at(&c, &chars_of("http:"), 0)
}

/// The server address of the configuration, if it names one.
pub fn server_address(cfg: &Config) -> (r: Option<&str>)
    ensures
        match r {
            Some(a) => server_of(*cfg) == Some(a@),
            None => server_of(*cfg) is None,
        },
{
    match &cfg.plantuml_cmd {
        Some(c) => if is_server(c.as_str()) {
            Some(c.as_str())
        } else {
            None
        },
        None => None,
    }
}

/// The PlantUML commands worth trying, in order.
pub fn shell_candidates(cfg: &Config) -> (r: Vec<String>)
    ensures
        r@.map_values(|s: String| s@) == candidates(*cfg),
{
    let mut r: Vec<String> = Vec::new();
    match &cfg.plantuml_cmd {
        Some(c) => {
            r.push(c.clone());
        },
        None => {
            r.push(String::from_str("plantuml"));
            r.push(String::from_str("java -jar plantuml.jar"));
        },
    }
    assert(r@.map_values(|s: String| s@) =~= candidates(*cfg));
    r
}

/// Picks the renderer: the configured PlantUML server; otherwise the first of
/// `shell_candidates(cfg)` that works (`working[i]` tells whether candidate `i` answered
/// `-version`); `None` when none works.
pub fn create(cfg: &Config, working: &Vec<bool>) -> (r: Option<BackendKind>)
    requires
        working@.len() == candidates(*cfg).len(),
    ensures
        server_of(*cfg) matches Some(a) ==> r matches Some(BackendKind::Server(s)) && s@ == a,
        server_of(*cfg) is None ==> match r {
            Some(BackendKind::Shell(sh)) => exists|i: int|
                0 <= i < working@.len() && working@[i] && (forall|j: int|
                    0 <= j < i ==> !working@[j]) && sh.plantuml_cmd@ == candidates(*cfg)[i]
                    && sh.piped == cfg.piped,
            Some(BackendKind::Server(_)) => false,
            None => forall|j: int| 0 <= j < working@.len() ==> !working@[j],
        },
{
    if let Some(a) = server_address(cfg) {
        return Some(BackendKind::Server(String::from_str(a)));
    }
    let cands = shell_candidates(cfg);
    let mut i: usize = 0;
    while i < cands.len()
        invariant
            i <= cands.len(),
            cands@.map_values(|s: String| s@) == candidates(*cfg),
            working@.len() == cands@.len(),
            server_of(*cfg) is None,
            forall|j: int| 0 <= j < i ==> !working@[j],
        decreases cands.len() - i,
    {
        if working[i] {
            let sh = PlantUMLShell::new(cands[i].clone(), cfg.piped);
            assert(cands@.map_values(|s: String| s@)[i as int] == cands@[i as int]@);
            return Some(BackendKind::Shell(sh));
        }
        i = i + 1;
    }
    None
}

/// What deflate makes of `data`.
pub uninterp spec fn deflated(data: Seq<u8>) -> Seq<u8>;

/// Relies on `deflate::deflate_bytes`: the raw DEFLATE stream of `data` at the crate's
/// default compression.
#[verifier::external_body]
fn deflate(data: &[u8]) -> (r: Vec<u8>)
    ensures
        r@ == deflated(data@),
{
    deflate::deflate_bytes(data)
}

/// How a diagram travels to a PlantUML server: its code, deflated, in PlantUML's base64.
pub fn encode_diagram_source(plantuml_code: &str) -> (r: String)
    ensures
        r@ == base64_of(plantuml_alphabet(), deflated(encode_utf8(plantuml_code@)), true),
{
    let compressed = deflate(plantuml_code.as_bytes());
    encode(compressed.as_slice())
}

/// How `shlex` splits `s` into words: `None` when the input is erroneous.
pub uninterp spec fn shell_words(s: Seq<char>) -> Option<Seq<Seq<char>>>;

/// Relies on `shlex::split`: splits a command line into words the way a POSIX shell does,
/// `None` when the input is erroneous (an unclosed quote, say).
#[verifier::external_body]
fn shlex_split(cmd: &str) -> (r: Option<Vec<String>>)
    ensures
        match r {
            Some(v) => shell_words(cmd@) == Some(v@.map_values(|w: String| w@)),
            None => shell_words(cmd@) is None,
        },
{
    shlex::split(cmd)
}

/// Split a shell command into its parts, e.g. `python foo bar` becomes `python`, `foo`,
/// `bar`; backslashes escape as in a POSIX shell. An erroneous command gives the error
/// "Invalid command".
pub fn split_shell_command(cmd: &str) -> (r: Result<Vec<String>, RenderError>)
    ensures
        match r {
            Ok(v) => shell_words(cmd@) == Some(v@.map_values(|w: String| w@)),
            Err(e) => shell_words(cmd@) is None && e.message@ == "Invalid command"@,
        },
{
    match shlex_split(cmd) {
        Some(parts) => Ok(parts),
        None => Err(RenderError::new("Invalid command")),
    }
}

} // verus!
