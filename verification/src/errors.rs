//! Error taxonomy of the import pipeline.
//!
//! Every component fails fast and hands the first error unchanged to the
//! orchestrator, which returns it unchanged to the caller.  The optional
//! `String` carried by each variant is diagnostic detail only; it never
//! changes the kind of the error.

use vstd::prelude::*;

verus! {

/// The four failure kinds the pipeline can surface.
///
/// - `InvalidSource`: the source identifier cannot be parsed as a URL or
///   has no host component.
/// - `CollectionFailed`: reading the local staging tree failed in a way
///   that would silently drop files from the deployment.
/// - `DeployFailed`: a remote interaction (blob upload or deployment
///   creation) failed.  A failed alias lookup is never `DeployFailed`.
/// - `InternalError`: local staging preparation or cleanup failed.
#[derive(Clone, Copy, Debug, PartialEq, Eq, Structural)]
pub enum ErrorKind {
    InvalidSource,
    CollectionFailed,
    DeployFailed,
    InternalError,
}

/// An import failure: a kind plus optional diagnostic detail.
#[derive(Debug)]
pub enum ImportError {
    InvalidSource(Option<String>),
    CollectionFailed(Option<String>),
    DeployFailed(Option<String>),
    InternalError(Option<String>),
}

impl ImportError {
    /// The kind of this error, with the diagnostic detail stripped.
    pub open spec fn spec_kind(&self) -> ErrorKind {
        match self {
            ImportError::InvalidSource(_) => ErrorKind::InvalidSource,
            ImportError::CollectionFailed(_) => ErrorKind::CollectionFailed,
            ImportError::DeployFailed(_) => ErrorKind::DeployFailed,
            ImportError::InternalError(_) => ErrorKind::InternalError,
        }
    }

    /// Diagnostic detail attached to the error, if any.
    pub open spec fn spec_detail(&self) -> Option<String> {
        match self {
            ImportError::InvalidSource(d) => *d,
            ImportError::CollectionFailed(d) => *d,
            ImportError::DeployFailed(d) => *d,
            ImportError::InternalError(d) => *d,
        }
    }

    /// Returns the kind of this error.
    #[verifier::when_used_as_spec(spec_kind)]
    pub fn kind(&self) -> (k: ErrorKind)
        ensures
            k == self.spec_kind(),
    {
        match self {
            ImportError::InvalidSource(_) => ErrorKind::InvalidSource,
            ImportError::CollectionFailed(_) => ErrorKind::CollectionFailed,
            ImportError::DeployFailed(_) => ErrorKind::DeployFailed,
            ImportError::InternalError(_) => ErrorKind::InternalError,
        }
    }

    /// Returns a reference to the diagnostic detail, if any.
    pub fn detail(&self) -> (d: &Option<String>)
        ensures
            *d == self.spec_detail(),
    {
        match self {
            ImportError::InvalidSource(d) => d,
            ImportError::CollectionFailed(d) => d,
            ImportError::DeployFailed(d) => d,
            ImportError::InternalError(d) => d,
        }
    }
}

/// The body of an error reply handed back to a service caller: no
/// published URL, and a message that carries the diagnostic detail only
/// when verbose output was asked for.
pub struct ResponseData {
    pub url: Option<String>,
    pub error: Option<String>,
}

/// Builds the error reply for a failed import.
///
/// The reply never carries a URL.  Its message is `message` alone unless
/// verbose output is requested and detail is present, in which case the
/// detail is appended after a separating `": "`.
pub fn error_response(message: &str, debug: bool, detail: &Option<String>) -> (r: ResponseData)
    ensures
        r.url is None,
        r.error is Some,
        match *detail {
            Some(d) => r.error->0@ == if debug {
                message@ + ": "@ + d@
            } else {
                message@
            },
            None => r.error->0@ == message@,
        },
{
    let mut text = String::from_str(message);
    if debug {
        match detail {
            Some(d) => {
                text.append(": ");
                text.append(d.as_str());
            },
            None => {},
        }
    }
    ResponseData { url: None, error: Some(text) }
}

} // verus!
