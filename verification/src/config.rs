//! The options of a run.
use crate::text::texts;
use vstd::prelude::*;

verus! {

/// The options of a run.
#[derive(Debug)]
pub struct Config {
    /// The mode to apply to files.
    pub file: Option<String>,
    /// The mode to apply to directories.
    pub dir: Option<String>,
    /// Do not change anything, report what would be changed.
    pub dry_run: bool,
    /// Prompt before changing each path.
    pub interactive: bool,
    /// Suppress all interaction.
    pub suppress: bool,
    /// Explain what's being done.
    pub verbose: bool,
    /// Show the help message.
    pub help: bool,
    /// Show the version.
    pub version: bool,
    /// The paths to be modified.
    pub paths: Vec<String>,
}

/// The options of a run, as mathematical values.
#[verifier::ext_equal]
pub struct ConfigView {
    pub file: Option<Seq<char>>,
    pub dir: Option<Seq<char>>,
    pub dry_run: bool,
    pub interactive: bool,
    pub suppress: bool,
    pub verbose: bool,
    pub help: bool,
    pub version: bool,
    pub paths: Seq<Seq<char>>,
}

/// The text of a string that may be absent.
pub open spec fn text_of(string: Option<String>) -> Option<Seq<char>> {
    match string {
        Some(string) => Some(string@),
        None => None,
    }
}

impl View for Config {
    type V = ConfigView;

    open spec fn view(&self) -> ConfigView {
        ConfigView {
            file: text_of(self.file),
            dir: text_of(self.dir),
            dry_run: self.dry_run,
            interactive: self.interactive,
            suppress: self.suppress,
            verbose: self.verbose,
            help: self.help,
            version: self.version,
            paths: texts(self.paths@),
        }
    }
}

} // verus!
