//! Session-scoped errors. No error in one session's handling may abort
//! another session, the registry, or the directory: every variant here is
//! terminal for a single connection only.

use vstd::prelude::*;

verus! {

/// Why the registry refused a mutation.
#[derive(Clone, Copy, Debug, PartialEq, Eq, Structural)]
pub enum RegistryError {
    /// All four colors are already held by connected players.
    ColorsExhausted,
}

/// Why a session is being terminated.
#[derive(Clone, Copy, Debug, PartialEq, Eq, Structural)]
pub enum SessionError {
    /// The client sent a malformed or unrecognized message, or tried to
    /// register a player under an identifier that is already registered.
    ProtocolViolation,
    /// A join was attempted while every color slot was taken; the join is
    /// rejected without mutating the registry.
    LobbyFull,
    /// The peer closed or broke the connection; terminal for this session,
    /// never propagated to others.
    TransportFailure,
}

impl SessionError {
    /// A short description, for logs kept outside the library.
    pub fn describe(&self) -> (r: &'static str)
        ensures
            r@ == match self {
                SessionError::ProtocolViolation => "protocol violation"@,
                SessionError::LobbyFull => "lobby full"@,
                SessionError::TransportFailure => "transport failure"@,
            },
    {
        match self {
            SessionError::ProtocolViolation => "protocol violation",
            SessionError::LobbyFull => "lobby full",
            SessionError::TransportFailure => "transport failure",
        }
    }
}

} // verus!
