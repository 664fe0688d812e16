//! The options of the preprocessor.
use vstd::prelude::*;

verus! {

/// The configuration options available with this backend.
pub struct Config {
    /// By default it is assumed plantuml.jar is on the path
    /// Use plantuml_cmd if it is not on the path, or if you
    /// have some additional parameters. A `http:` or `https:` address selects a PlantUML
    /// server instead.
    pub plantuml_cmd: Option<String>,
    /// When the PlantUML shell is called this option enables piped mode, meaning no
    /// temporary directories and files are needed for image generation (defaults to true).
    pub piped: bool,
    /// PlantUML images become clickable for zoom by setting this flag to `true`.
    pub clickable_img: bool,
    /// Instead of creating inlined links to image files use data URIs (defaults to true)
    pub use_data_uris: bool,
    /// Verbose logging (debug level)
    pub verbose: bool,
    /// Whether a rendering error fails the book build (true) or is written into the
    /// generated document instead (false, the default).
    pub fail_on_error: bool,
}

impl Default for Config {
    fn default() -> (r: Self)
        ensures
            r.plantuml_cmd is None,
            r.piped,
            !r.clickable_img,
            r.use_data_uris,
            !r.verbose,
            !r.fail_on_error,
    {
        Config {
            plantuml_cmd: None,
            piped: true,
            clickable_img: false,
            use_data_uris: true,
            verbose: false,
            fail_on_error: false,
        }
    }
}

} // verus!
