//! Search configuration and the actions a command line can ask for.

use vstd::prelude::*;

use crate::errors::RgrepError;
use crate::text::str_eq;

verus! {

/// Configuration for the search operation.
pub struct Config {
    /// The search pattern (literal substring).
    pub pattern: String,
    /// Files to search (empty means stdin).
    pub files: Vec<String>,
    /// Case-insensitive matching.
    pub ignore_case: bool,
    /// Show line numbers in output.
    pub line_number: bool,
}

/// Actions that the CLI can perform.
pub enum CliAction {
    /// Show help and exit.
    ShowHelp,
    /// Show version and exit.
    ShowVersion,
    /// Run the search with the given configuration.
    Run(Config),
}

impl Config {
    /// The run reads standard input: no files given, or exactly the
    /// stdin token `-`.
    pub open spec fn spec_use_stdin(&self) -> bool {
        self.files@.len() == 0 || (self.files@.len() == 1 && self.files@[0]@ == "-"@)
    }

    /// The stdin token `-` stands among other file names.
    pub open spec fn spec_mixes_stdin(&self) -> bool {
        self.files@.len() > 1 && exists|i: int|
            0 <= i < self.files@.len() && self.files@[i]@ == "-"@
    }

    /// A configuration the search accepts: a non-empty pattern, and the
    /// stdin token not mixed with named files.
    pub open spec fn spec_valid(&self) -> bool {
        self.pattern@.len() > 0 && !self.spec_mixes_stdin()
    }

    /// Create a new configuration.
    pub fn new(pattern: String, files: Vec<String>, ignore_case: bool, line_number: bool) -> (c:
        Self)
        ensures
            c == (Config { pattern, files, ignore_case, line_number }),
    {
        Config { pattern, files, ignore_case, line_number }
    }

    /// Validate the configuration: the pattern must be non-empty, and the
    /// stdin token `-` must not be mixed with named files.
    pub fn validate(&self) -> (r: Result<(), RgrepError>)
        ensures
            r is Ok <==> self.spec_valid(),
            self.pattern@.len() == 0 ==> (r matches Err(RgrepError::InvalidArgs {
                message,
                show_help,
            }) && message@ == "Pattern cannot be empty"@ && show_help == false),
            self.pattern@.len() > 0 && self.spec_mixes_stdin() ==> (r matches Err(
                RgrepError::InvalidArgs { message, show_help },
            ) && message@ == "Cannot mix stdin (-) with other files"@ && show_help == false),
    {
        if self.pattern.as_str().is_empty() {
            return Err(RgrepError::invalid_args("Pattern cannot be empty".to_owned(), false));
        }
        if self.files.len() > 1 && contains_stdin_token(&self.files) {
            return Err(
                RgrepError::invalid_args("Cannot mix stdin (-) with other files".to_owned(), false),
            );
        }
        Ok(())
    }

    /// Check if we should read from stdin.
    pub fn use_stdin(&self) -> (r: bool)
        ensures
            r == self.spec_use_stdin(),
    {
        if self.files.is_empty() {
            true
        } else if self.files.len() == 1 {
            str_eq(self.files[0].as_str(), "-")
        } else {
            false
        }
    }

    /// Get the actual files to process (empty when stdin is the source).
    pub fn actual_files(&self) -> (r: Vec<String>)
        ensures
            self.spec_use_stdin() ==> r@.len() == 0,
            !self.spec_use_stdin() ==> r@ == self.files@,
    {
        if self.use_stdin() {
            Vec::new()
        } else {
            let r = self.files.clone();
            proof {
                assert forall|i: int| 0 <= i < self.files@.len() implies r@[i]
                    == self.files@[i] by {
                    assert(vstd::pervasive::cloned::<String>(self.files@[i], r@[i]));
                }
                assert(r@ =~= self.files@);
            }
            r
        }
    }
}

/// Whether the file list holds the stdin token `-`.
fn contains_stdin_token(files: &Vec<String>) -> (r: bool)
    ensures
        r == exists|i: int| 0 <= i < files@.len() && files@[i]@ == "-"@,
{
    let n = files.len();
    for k in 0..n
        invariant
            n == files.len(),
            forall|i: int| 0 <= i < k ==> files@[i]@ != "-"@,
    {
        if str_eq(files[k].as_str(), "-") {
            return true;
        }
    }
    false
}

/// The usage text, shown for help requests and argument errors.
pub open spec fn spec_usage() -> Seq<char> {
    "Usage: rgrep [OPTIONS] <PATTERN> [FILES]...\n\nSearch for a literal pattern in files or standard input.\n\nArguments:\n  <PATTERN>   Pattern to search for\n  [FILES]...  Files to search (default: stdin; use '-' for stdin)\n\nOptions:\n  -i, --ignore-case  Ignore case when matching\n  -n, --line-number  Show line numbers\n  -h, --help         Print help\n  -V, --version      Print version"@
}

/// Generate usage text.
pub fn usage() -> (r: String)
    ensures
        r@ == spec_usage(),
{
    "Usage: rgrep [OPTIONS] <PATTERN> [FILES]...\n\nSearch for a literal pattern in files or standard input.\n\nArguments:\n  <PATTERN>   Pattern to search for\n  [FILES]...  Files to search (default: stdin; use '-' for stdin)\n\nOptions:\n  -i, --ignore-case  Ignore case when matching\n  -n, --line-number  Show line numbers\n  -h, --help         Print help\n  -V, --version      Print version".to_owned()
}

/// Generate version text.
pub fn version() -> (r: String)
    ensures
        r@ == "rgrep 0.1.0"@,
{
    "rgrep 0.1.0".to_owned()
}

} // verus!
