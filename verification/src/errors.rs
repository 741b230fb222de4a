//! The failures that the monitoring loops meet, and how far each reaches.

use vstd::prelude::*;

verus! {

/// Why a probe of one node brought nothing back.
#[derive(Debug, Clone, Copy, PartialEq, Eq, Structural)]
pub enum ProbeError {
    /// The member has no endpoint that can be used.
    NoRoute,
    /// A call did not answer in its time.
    Timeout,
    /// A call failed on the way.
    Transport,
    /// An answer could not be decoded.
    Decode,
}

/// The kinds of failure, by the unit that they stop.
#[derive(Debug, Clone, Copy, PartialEq, Eq, Structural)]
pub enum ErrorKind {
    /// The ticket call failed.
    Credential,
    /// The subscription or a read of the coordination service failed.
    Coordination,
    /// The event queue lost its consumer.
    Queue,
    /// An endpoint or address is malformed.
    Validation,
    /// One probe failed.
    Probe(ProbeError),
}

impl ErrorKind {
    pub open spec fn spec_is_fatal(&self) -> bool {
        *self is Credential || *self is Coordination || *self is Queue
    }

    /// Whether a failure of this kind ends the run of the loop that met it.
    /// Failures of one node never do.
    #[verifier::when_used_as_spec(spec_is_fatal)]
    pub fn is_fatal(&self) -> (fatal: bool)
        ensures
            fatal == self.spec_is_fatal(),
    {
        match self {
            ErrorKind::Credential => true,
            ErrorKind::Coordination => true,
            ErrorKind::Queue => true,
            ErrorKind::Validation => false,
            ErrorKind::Probe(_) => false,
        }
    }
}

/// Every failure that the loops hand on.  A text is what the failing call
/// said of itself.
#[derive(Debug)]
pub enum CombinedError {
    /// The address text does not form a request target.
    UriParseError(String),
    /// The event could not be queued: nobody reads the queue any more.
    QueueSendError((i64, Vec<String>)),
    /// A call of the coordination service failed.
    CocaineError(String),
    /// No ticket could be had.
    CredentialError(String),
    /// A transfer or a timer failed.
    IOError(String),
    /// A request to a node agent failed.
    HyperError(String),
    /// An answer was not the document that was expected.
    SerdeError(String),
    /// A call did not answer in its time.
    Timeout,
    /// The member offers no address to probe.
    Other(String),
}

impl CombinedError {
    pub open spec fn spec_kind(&self) -> ErrorKind {
        match *self {
            CombinedError::UriParseError(_) => ErrorKind::Validation,
            CombinedError::QueueSendError(_) => ErrorKind::Queue,
            CombinedError::CocaineError(_) => ErrorKind::Coordination,
            CombinedError::CredentialError(_) => ErrorKind::Credential,
            CombinedError::IOError(_) => ErrorKind::Probe(ProbeError::Transport),
            CombinedError::HyperError(_) => ErrorKind::Probe(ProbeError::Transport),
            CombinedError::SerdeError(_) => ErrorKind::Probe(ProbeError::Decode),
            CombinedError::Timeout => ErrorKind::Probe(ProbeError::Timeout),
            CombinedError::Other(_) => ErrorKind::Probe(ProbeError::NoRoute),
        }
    }

    /// The kind of this failure.
    #[verifier::when_used_as_spec(spec_kind)]
    pub fn kind(&self) -> (kind: ErrorKind)
        ensures
            kind == self.spec_kind(),
    {
        match self {
            CombinedError::UriParseError(_) => ErrorKind::Validation,
            CombinedError::QueueSendError(_) => ErrorKind::Queue,
            CombinedError::CocaineError(_) => ErrorKind::Coordination,
            CombinedError::CredentialError(_) => ErrorKind::Credential,
            CombinedError::IOError(_) => ErrorKind::Probe(ProbeError::Transport),
            CombinedError::HyperError(_) => ErrorKind::Probe(ProbeError::Transport),
            CombinedError::SerdeError(_) => ErrorKind::Probe(ProbeError::Decode),
            CombinedError::Timeout => ErrorKind::Probe(ProbeError::Timeout),
            CombinedError::Other(_) => ErrorKind::Probe(ProbeError::NoRoute),
        }
    }
}

} // verus!
