//! What a check is configured with.

use vstd::prelude::*;

verus! {

/// The configuration of a check.
#[derive(Debug)]
pub struct Config {
    /// The root directory of the project.
    pub directory: String,
    /// Globs for the paths to leave out of the walk and the names to leave
    /// out of the reports.
    pub ignore_patterns: Vec<String>,
    /// The name of an additional ignore file to honor during the walk.
    pub ignore_path: Option<String>,
    /// Whether missing dependencies are not computed at all.
    pub skip_missing: bool,
    /// Whether packages that only offer executables are left out of the
    /// reports.
    pub ignore_bin_package: bool,
}

impl Config {
    /// The configuration for `directory` that ignores nothing, honors no
    /// additional ignore file, computes missing dependencies and reports
    /// command-line tools like any other package.
    pub fn new(directory: String) -> (config: Config)
        ensures
            config.directory == directory,
            config.ignore_patterns@.len() == 0,
            config.ignore_path is None,
            !config.skip_missing,
            !config.ignore_bin_package,
    {
        Config {
            directory,
            ignore_patterns: Vec::new(),
            ignore_path: None,
            skip_missing: false,
            ignore_bin_package: false,
        }
    }

    /// The root directory of the project.
    pub fn get_directory(&self) -> (directory: &str)
        ensures
            directory@ == self.directory@,
    {
        self.directory.as_str()
    }

    /// The ignore patterns.
    pub fn get_ignore_patterns(&self) -> (patterns: &Vec<String>)
        ensures
            patterns == self.ignore_patterns,
    {
        &self.ignore_patterns
    }

    /// Whether missing dependencies are not computed.
    pub fn skip_missing(&self) -> (skip: bool)
        ensures
            skip == self.skip_missing,
    {
        self.skip_missing
    }

    /// Whether command-line tools are left out of the reports.
    pub fn ignore_bin_package(&self) -> (ignore: bool)
        ensures
            ignore == self.ignore_bin_package,
    {
        self.ignore_bin_package
    }
}

} // verus!
