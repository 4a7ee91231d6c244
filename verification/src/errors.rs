use vstd::prelude::*;

verus! {

/// Every failure the library can report. Each variant carries the value it
/// names so that a caller (or a display layer outside the library) can
/// render a message without re-deriving the cause.
#[derive(Debug, PartialEq, Eq)]
pub enum CliError {
    /// The combined base-URL override was empty after trimming.
    EmptyBaseUrl,
    /// The combined base-URL override holds no `://` scheme separator.
    MissingScheme,
    /// A `<` in a path template is never closed by a following `>`.
    InvalidTemplate,
    /// A template placeholder has no bound value; carries the placeholder name.
    MissingValue(String),
    /// A required parameter was supplied neither on the command line nor by
    /// the workspace fallback; carries the parameter's flag.
    MissingArgument(String),
    /// A `key=value` query pair is malformed; carries the raw input.
    InvalidQueryPair(String),
    /// Both an inline JSON body and a JSON body file were supplied.
    BodyConflict,
    /// A supplied body is not valid JSON.
    InvalidJsonBody,
    /// The operation is deprecated and the override toggle is not set.
    DeprecatedEndpoint,
    /// The remote service answered with a non-success status.
    HttpStatus(u16),
}

/// Accepts exactly the 2xx status range; anything else is an error carrying
/// the offending status.
pub fn ensure_success(status: u16) -> (r: Result<(), CliError>)
    ensures
        r is Ok <==> 200 <= status < 300,
        r is Err ==> r->Err_0 == CliError::HttpStatus(status),
{
    if 200 <= status && status < 300 {
        Ok(())
    } else {
        Err(CliError::HttpStatus(status))
    }
}

} // verus!
