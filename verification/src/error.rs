//! The error taxonomy shared by every component.

use vstd::prelude::*;
use vstd::string::*;

verus! {

/// Why a probe, a target or a run failed.
///
/// Errors that stem from the operating system carry its message as text.
#[derive(Debug)]
pub enum PingError {
    /// Socket I/O failed while transmitting or receiving.
    SendError(String),
    /// A target or network specification is malformed.
    InvalidAddress(String),
    /// No matching reply arrived before the deadline.
    Timeout,
    /// The buffer is too small to hold an echo request.
    PacketConstructionError,
    /// Raw sockets need elevated privileges.
    PermissionDenied,
    /// Name lookup failed.
    ResolutionError(String),
    /// Anything else, such as a failure to install a signal handler.
    Other(String),
}

impl Clone for PingError {
    fn clone(&self) -> (res: Self)
        ensures
            res == *self,
    {
        match self {
            PingError::SendError(m) => PingError::SendError(m.clone()),
            PingError::InvalidAddress(m) => PingError::InvalidAddress(m.clone()),
            PingError::Timeout => PingError::Timeout,
            PingError::PacketConstructionError => PingError::PacketConstructionError,
            PingError::PermissionDenied => PingError::PermissionDenied,
            PingError::ResolutionError(m) => PingError::ResolutionError(m.clone()),
            PingError::Other(m) => PingError::Other(m.clone()),
        }
    }
}

impl PingError {
    /// The text shown to the user for this error.
    pub open spec fn message_spec(self) -> Seq<char> {
        match self {
            PingError::SendError(m) => "Failed to send packet: "@ + m@,
            PingError::InvalidAddress(m) => "Invalid address: "@ + m@,
            PingError::Timeout => "Timeout"@,
            PingError::PacketConstructionError => "Packet construction error"@,
            PingError::PermissionDenied =>
                "Permission denied: raw sockets require root privileges"@,
            PingError::ResolutionError(m) => "Failed to resolve hostname: "@ + m@,
            PingError::Other(m) => "Other error: "@ + m@,
        }
    }

    /// Renders the error as text.
    pub fn message(&self) -> (text: String)
        ensures
            text@ == self.message_spec(),
    {
        match self {
            PingError::SendError(m) => String::from_str("Failed to send packet: ").concat(
                m.as_str(),
            ),
            PingError::InvalidAddress(m) => String::from_str("Invalid address: ").concat(
                m.as_str(),
            ),
            PingError::Timeout => String::from_str("Timeout"),
            PingError::PacketConstructionError => String::from_str("Packet construction error"),
            PingError::PermissionDenied => String::from_str(
                "Permission denied: raw sockets require root privileges",
            ),
            PingError::ResolutionError(m) => String::from_str(
                "Failed to resolve hostname: ",
            ).concat(m.as_str()),
            PingError::Other(m) => String::from_str("Other error: ").concat(m.as_str()),
        }
    }

    /// Whether the error must abort the whole run rather than one target.
    pub open spec fn is_fatal_spec(self) -> bool {
        self is PermissionDenied
    }

    /// Whether the error must abort the whole run rather than one target.
    pub fn is_fatal(&self) -> (fatal: bool)
        ensures
            fatal == self.is_fatal_spec(),
    {
        matches!(self, PingError::PermissionDenied)
    }
}

} // verus!
