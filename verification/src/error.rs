//! The errors that the session manager and the login flow return, and the
//! translation of backend faults.

use vstd::prelude::*;

verus! {

/// What a session operation can fail with; each carries an optional
/// diagnostic.
#[derive(Debug, Clone, PartialEq, Eq)]
pub enum ServerApiError {
    NetworkFailure(Option<String>),
    AuthenticationRejected(Option<String>),
    InvalidServer(Option<String>),
    AlreadyInProgress(Option<String>),
    BackendUnavailable(Option<String>),
}

/// What the tunnel backend reports of a failed call.
#[derive(Debug, Clone, Copy, PartialEq, Eq)]
pub enum BackendFault {
    Network,
    Rejected,
    UnknownServer,
    Unavailable,
}

/// A failure of a backend call: the fault and the backend's own words.
#[derive(Debug, Clone, PartialEq, Eq)]
pub struct BackendError {
    pub fault: BackendFault,
    pub detail: Option<String>,
}

/// What a login attempt can fail with.
#[derive(Debug, Clone, Copy, PartialEq, Eq)]
pub enum AuthError {
    Cancelled,
    ProviderRejected,
    MalformedArtifact,
    Timeout,
}

/// The session error that stands for a backend failure.
pub open spec fn translated(e: BackendError) -> ServerApiError {
    match e.fault {
        BackendFault::Network => ServerApiError::NetworkFailure(e.detail),
        BackendFault::Rejected => ServerApiError::AuthenticationRejected(e.detail),
        BackendFault::UnknownServer => ServerApiError::InvalidServer(e.detail),
        BackendFault::Unavailable => ServerApiError::BackendUnavailable(e.detail),
    }
}

/// A backend that cannot be reached at all is the one fault that a
/// disconnect does not absorb.
pub open spec fn unrecoverable(e: BackendError) -> bool {
    e.fault is Unavailable
}

impl BackendError {
    /// Translates the fault into the session's own error, keeping the
    /// diagnostic.
    pub fn translate(self) -> (r: ServerApiError)
        ensures
            r == translated(self),
    {
        match self.fault {
            BackendFault::Network => ServerApiError::NetworkFailure(self.detail),
            BackendFault::Rejected => ServerApiError::AuthenticationRejected(self.detail),
            BackendFault::UnknownServer => ServerApiError::InvalidServer(self.detail),
            BackendFault::Unavailable => ServerApiError::BackendUnavailable(self.detail),
        }
    }

    /// Whether the fault is one that a disconnect must surface.
    pub fn is_unrecoverable(&self) -> (r: bool)
        ensures
            r == unrecoverable(*self),
    {
        match self.fault {
            BackendFault::Unavailable => true,
            _ => false,
        }
    }
}

} // verus!
