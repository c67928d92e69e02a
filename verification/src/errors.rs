//! Error values and exit codes.

use vstd::prelude::*;

verus! {

/// Unified error type for all operations of the library.
pub enum RgrepError {
    /// Invalid command line arguments.
    InvalidArgs { message: String, show_help: bool },
    /// A named file could not be opened or read.
    IoError { path: String, message: String },
    /// General application error.
    AppError { message: String },
}

/// Exit codes following POSIX conventions: success with matches, success
/// without matches, invalid arguments, and I/O or other runtime error.
#[derive(Clone, Copy, Debug, PartialEq, Eq, Structural)]
pub enum ExitCode {
    /// Successful execution with matches found.
    Success,
    /// No matches found (normal operation).
    NoMatches,
    /// Invalid arguments or usage error.
    InvalidArgs,
    /// File I/O or system error.
    IoError,
}

impl ExitCode {
    /// The numeric process exit status this code stands for.
    pub open spec fn spec_code(&self) -> int {
        match self {
            ExitCode::Success => 0,
            ExitCode::NoMatches => 1,
            ExitCode::InvalidArgs => 2,
            ExitCode::IoError => 3,
        }
    }

    /// The numeric process exit status this code stands for.
    pub fn code(&self) -> (c: i32)
        ensures
            c == self.spec_code(),
    {
        match self {
            ExitCode::Success => 0,
            ExitCode::NoMatches => 1,
            ExitCode::InvalidArgs => 2,
            ExitCode::IoError => 3,
        }
    }
}

impl RgrepError {
    /// The diagnostic line for this error, prefixed with the program name.
    pub open spec fn spec_display(&self) -> Seq<char> {
        match self {
            RgrepError::InvalidArgs { message, .. } => "rgrep: "@ + message@,
            RgrepError::IoError { path, message } => "rgrep: "@ + path@ + ": "@ + message@,
            RgrepError::AppError { message } => "rgrep: "@ + message@,
        }
    }

    /// The exit code this error maps to.
    pub open spec fn spec_exit_code(&self) -> ExitCode {
        match self {
            RgrepError::InvalidArgs { .. } => ExitCode::InvalidArgs,
            RgrepError::IoError { .. } => ExitCode::IoError,
            RgrepError::AppError { .. } => ExitCode::IoError,
        }
    }

    /// Get the appropriate exit code for this error.
    pub fn exit_code(&self) -> (c: ExitCode)
        ensures
            c == self.spec_exit_code(),
    {
        match self {
            RgrepError::InvalidArgs { .. } => ExitCode::InvalidArgs,
            RgrepError::IoError { .. } => ExitCode::IoError,
            RgrepError::AppError { .. } => ExitCode::IoError,
        }
    }

    /// Create an invalid arguments error.
    pub fn invalid_args(message: String, show_help: bool) -> (e: Self)
        ensures
            e == (RgrepError::InvalidArgs { message, show_help }),
    {
        RgrepError::InvalidArgs { message, show_help }
    }

    /// Create an I/O error for a path, with the failure's message.
    pub fn io_error(path: String, message: String) -> (e: Self)
        ensures
            e == (RgrepError::IoError { path, message }),
    {
        RgrepError::IoError { path, message }
    }

    /// Create a general application error.
    pub fn app_error(message: String) -> (e: Self)
        ensures
            e == (RgrepError::AppError { message }),
    {
        RgrepError::AppError { message }
    }

    /// Whether to show help text for this error.
    pub fn should_show_help(&self) -> (r: bool)
        ensures
            r == (self matches RgrepError::InvalidArgs { show_help: true, .. }),
    {
        match self {
            RgrepError::InvalidArgs { show_help, .. } => *show_help,
            _ => false,
        }
    }

    /// Render the diagnostic line for this error.
    pub fn display_message(&self) -> (r: String)
        ensures
            r@ == self.spec_display(),
    {
        let mut out = "rgrep: ".to_owned();
        match self {
            RgrepError::InvalidArgs { message, .. } => {
                out.append(message.as_str());
            },
            RgrepError::IoError { path, message } => {
                out.append(path.as_str());
                out.append(": ");
                out.append(message.as_str());
            },
            RgrepError::AppError { message } => {
                out.append(message.as_str());
            },
        }
        out
    }
}

} // verus!
