//! What a run was asked to do.

use vstd::prelude::*;

verus! {

/// The modality of a traversal.
#[derive(Clone, Copy, Debug, PartialEq, Eq, Structural)]
pub enum TraversalMode {
    /// Runs the checks, and possibly applies fixes.
    Check,
    /// Runs the linter, and possibly applies fixes.
    Lint,
    /// Runs the checks in continuous integration, where every finding is shown.
    CI,
    /// Compares, or with `write` rewrites, the formatting of the files.
    Format { write: bool },
    /// Checks, or with `write` migrates, the configuration file.
    Migrate { write: bool },
}

impl TraversalMode {
    pub open spec fn ci(self) -> bool {
        self is CI
    }

    pub open spec fn check(self) -> bool {
        self is Check
    }

    /// Whether the traversal runs in continuous integration.
    pub fn is_ci(&self) -> (yes: bool)
        ensures
            yes == self.ci(),
    {
        match self {
            TraversalMode::CI => true,
            _ => false,
        }
    }

    /// Whether the traversal runs the checks.
    pub fn is_check(&self) -> (yes: bool)
        ensures
            yes == self.check(),
    {
        match self {
            TraversalMode::Check => true,
            _ => false,
        }
    }
}

/// A feature that the workspace may support for a file.
#[derive(Clone, Copy, Debug, PartialEq, Eq, Structural)]
pub enum FeatureName {
    Format,
    Lint,
    OrganizeImports,
}

/// How a run was started, as its command line settled it.
#[derive(Debug)]
pub struct Execution {
    /// The modality of the traversal.
    pub traversal_mode: TraversalMode,
    /// The name under which messages refer to the command.
    pub command_name: String,
    /// The category of the diagnostic that a failed run ends with.
    pub diagnostic_category: String,
    /// The feature for which directories are asked to be ignored.
    pub feature_name: FeatureName,
    /// The maximum number of diagnostics that the run may print.
    pub max_diagnostics: u16,
    /// Whether findings go to the terminal; if not, they go to the report.
    pub report_to_terminal: bool,
    /// Whether the run applies fixes to the files.
    pub fixes_files: bool,
    /// Whether the run is a check that applies its fixes.
    pub check_apply: bool,
    /// Whether the run takes its one file from the standard input.
    pub stdin_file: bool,
}

/// The options of the command line that decide how a run ends.
#[derive(Clone, Copy, Debug)]
pub struct CliOptions {
    /// Prints diagnostics with their additional advices.
    pub verbose: bool,
    /// Makes a run with warnings fail.
    pub error_on_warnings: bool,
    /// Lets a run that processed no file succeed.
    pub no_errors_on_unmatched: bool,
}

/// The debug name of the worker thread number `index` of the pool.
pub fn worker_name(index: usize) -> (name: String)
    ensures
        name@ == "rome::worker_"@ + crate::text::decimal(index as nat),
{
    let mut name = "rome::worker_".to_string();
    name.append(crate::text::decimal_text(index as u64).as_str());
    name
}

} // verus!
