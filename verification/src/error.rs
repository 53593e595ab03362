//! Error type shared by the log-parsing entry points.
use vstd::prelude::*;
use vstd::string::StringExecFns;

verus! {

/// Errors the parser reports to its caller. Variants carrying a `String`
/// keep the offending detail for user-facing reporting.
#[derive(Debug, Clone, PartialEq, Eq)]
pub enum ParserAppError {
    ParserLibError(String),
    LogfileNotFoundError,
    LogfileParseError(String),
    ReplayNotFoundError,
    GenericError(String),
}

pub type ParserAppResult<T> = Result<T, ParserAppError>;

impl ParserAppError {
    /// Human-readable description of the error.
    pub fn message(&self) -> (r: String)
        ensures
            self matches ParserAppError::ParserLibError(m) ==> r@ == "Parser lib error: "@
                + m@,
            self matches ParserAppError::LogfileNotFoundError ==> r@
                == "Could not find logfile"@,
            self matches ParserAppError::LogfileParseError(m) ==> r@
                == "Error while parsing logfile: "@ + m@,
            self matches ParserAppError::ReplayNotFoundError ==> r@
                == "Could not find replay file"@,
            self matches ParserAppError::GenericError(m) ==> r@ == "Generic error: "@ + m@,
    {
        match self {
            ParserAppError::ParserLibError(m) => {
                let mut s = String::from_str("Parser lib error: ");
                s.append(m.as_str());
                s
            },
            ParserAppError::LogfileNotFoundError => String::from_str("Could not find logfile"),
            ParserAppError::LogfileParseError(m) => {
                let mut s = String::from_str("Error while parsing logfile: ");
                s.append(m.as_str());
                s
            },
            ParserAppError::ReplayNotFoundError => String::from_str("Could not find replay file"),
            ParserAppError::GenericError(m) => {
                let mut s = String::from_str("Generic error: ");
                s.append(m.as_str());
                s
            },
        }
    }
}

} // verus!
