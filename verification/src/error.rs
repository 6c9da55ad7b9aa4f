use vstd::prelude::*;

verus! {

/// Error taxonomy of the display query facade.
///
/// Subsystem-level failures surface to the caller immediately; per-output
/// failures are isolated by the enumerators and never reach the caller as
/// errors of the whole enumeration.
#[derive(Debug, Clone)]
pub enum DIError {
    /// The display subsystem could not be opened (no running server, no
    /// device context). Fatal for the call.
    SubsystemUnavailable(String),
    /// A specific native query failed; the message names the query.
    QueryFailed(String),
    /// No display matched the requested point or name.
    NotFound,
    /// A native string could not be decoded.
    EncodingError(String),
}

pub type DIResult<T> = Result<T, DIError>;

impl DIError {
    /// A generic query failure carrying the given message.
    pub fn new(msg: &str) -> (r: DIError)
        ensures
            r matches DIError::QueryFailed(s) && s@ == msg@,
    {
        DIError::QueryFailed(msg.to_owned())
    }

    /// The message text of the error.
    pub fn message(&self) -> (r: String)
        ensures
            match self {
                DIError::SubsystemUnavailable(s) => r@ == s@,
                DIError::QueryFailed(s) => r@ == s@,
                DIError::NotFound => r@ == "no matching display"@,
                DIError::EncodingError(s) => r@ == s@,
            },
    {
        match self {
            DIError::SubsystemUnavailable(s) => s.clone(),
            DIError::QueryFailed(s) => s.clone(),
            DIError::NotFound => "no matching display".to_owned(),
            DIError::EncodingError(s) => s.clone(),
        }
    }
}

} // verus!
