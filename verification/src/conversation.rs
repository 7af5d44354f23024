//! The product-level conversation decisions: which runtime serves a
//! connection mode, what a session binding's state means for the
//! conversation, and how runtime and transport failures are reported.

use vstd::prelude::*;
use crate::chat::ConnectionMode;

verus! {

/// A conversation's state as the product reports it.
#[derive(Debug, Clone, PartialEq, Eq)]
pub enum ConversationStatus {
    Active,
    Suspended,
    Resuming,
    Failed(String),
}

/// The state of a conversation's live session binding.
#[derive(Debug, Clone, Copy, PartialEq, Eq)]
pub enum SessionState {
    Active,
    Suspended,
    Resuming,
    ResumeFailed,
}

/// The errors of the conversation product API.
#[derive(Debug, Clone, PartialEq, Eq)]
pub enum ProductError {
    ConversationNotFound,
    Timeout,
    RuntimeUnavailable(String),
    SendFailed(String),
}

/// A failure of the runtime supervisor: a time-out, or another failure
/// with its text.
#[derive(Debug, Clone, PartialEq, Eq)]
pub enum RuntimeFailure {
    Timeout,
    Other(String),
}

/// A failure of the WebSocket transport: one of its time-outs, or another
/// failure with its text.
#[derive(Debug, Clone, PartialEq, Eq)]
pub enum TransportFailure {
    Timeout,
    RpcTimeout,
    ReadyTimeout,
    Other(String),
}

/// True when `st` is the conversation status that a binding in state `s`
/// stands for (a failed resume reads "session resume failed").
pub open spec fn stands_for(st: ConversationStatus, s: SessionState) -> bool {
    match s {
        SessionState::Active => st == ConversationStatus::Active,
        SessionState::Suspended => st == ConversationStatus::Suspended,
        SessionState::Resuming => st == ConversationStatus::Resuming,
        SessionState::ResumeFailed => st is Failed && st->Failed_0@ == "session resume failed"@,
    }
}

/// The conversation status that a session binding's state stands for.
pub fn conversation_status(state: SessionState) -> (r: ConversationStatus)
    ensures
        stands_for(r, state),
{
    match state {
        SessionState::Active => ConversationStatus::Active,
        SessionState::Suspended => ConversationStatus::Suspended,
        SessionState::Resuming => ConversationStatus::Resuming,
        SessionState::ResumeFailed => ConversationStatus::Failed("session resume failed".to_owned()),
    }
}

/// The status of a conversation from the bindings found for it under each
/// runtime, in the order local, remote, SSH: the first binding's status,
/// or none when no runtime knows the conversation.
pub fn first_status(found: &Vec<Option<SessionState>>) -> (r: Option<ConversationStatus>)
    ensures
        match r {
            None => forall|i: int| 0 <= i < found@.len() ==> (#[trigger] found@[i]) is None,
            Some(st) => exists|i: int|
                0 <= i < found@.len() && (forall|k: int| 0 <= k < i ==> (#[trigger] found@[k]) is None)
                    && (#[trigger] found@[i]) is Some && stands_for(st, found@[i]->0),
        },
{
    let mut i: usize = 0;
    while i < found.len()
        invariant
            i <= found@.len(),
            forall|k: int| 0 <= k < i ==> (#[trigger] found@[k]) is None,
        decreases found@.len() - i,
    {
        match found[i] {
            Some(s) => {
                let st = conversation_status(s);
                assert(found@[i as int] is Some && found@[i as int]->0 == s);
                return Some(st);
            },
            None => {},
        }
        i = i + 1;
    }
    None
}

/// The error a runtime failure is reported as: a time-out as such, any
/// other failure as the runtime being unavailable, with its text.
pub fn runtime_error(error: RuntimeFailure) -> (r: ProductError)
    ensures
        match error {
            RuntimeFailure::Timeout => r == ProductError::Timeout,
            RuntimeFailure::Other(m) => r == ProductError::RuntimeUnavailable(m),
        },
{
    match error {
        RuntimeFailure::Timeout => ProductError::Timeout,
        RuntimeFailure::Other(m) => ProductError::RuntimeUnavailable(m),
    }
}

/// The error a failed session creation is reported as: any time-out as a
/// time-out, another failure as the runtime being unavailable.
pub fn create_error(error: TransportFailure) -> (r: ProductError)
    ensures
        match error {
            TransportFailure::Other(m) => r == ProductError::RuntimeUnavailable(m),
            _ => r == ProductError::Timeout,
        },
{
    match error {
        TransportFailure::Other(m) => ProductError::RuntimeUnavailable(m),
        _ => ProductError::Timeout,
    }
}

/// The error a failed prompt submission is reported as: any time-out as a
/// time-out, another failure as a failed send.
pub fn send_error(error: TransportFailure) -> (r: ProductError)
    ensures
        match error {
            TransportFailure::Other(m) => r == ProductError::SendFailed(m),
            _ => r == ProductError::Timeout,
        },
{
    match error {
        TransportFailure::Other(m) => ProductError::SendFailed(m),
        _ => ProductError::Timeout,
    }
}

/// The profile a new conversation is bound to: the profile the backend
/// reported when it is not empty, else none (the default profile).
pub fn conversation_profile(reported: Option<String>) -> (r: Option<String>)
    ensures
        match reported {
            Some(p) => if p@.len() > 0 {
                r == Some(p)
            } else {
                r is None
            },
            None => r is None,
        },
{
    match reported {
        Some(p) => if p.unicode_len() > 0 {
            Some(p)
        } else {
            None
        },
        None => None,
    }
}

/// The product API over three runtimes, one per connection mode.
pub struct ConversationService<S> {
    pub local: S,
    pub remote: S,
    pub ssh: S,
}

impl<S> ConversationService<S> {
    /// A service over the given runtimes.
    pub fn new(local: S, remote: S, ssh: S) -> (r: Self)
        ensures
            r.local == local && r.remote == remote && r.ssh == ssh,
    {
        ConversationService { local, remote, ssh }
    }

    /// The runtime that serves a connection mode.
    pub fn supervisor_for_mode(&self, mode: ConnectionMode) -> (r: &S)
        ensures
            match mode {
                ConnectionMode::Local => *r == self.local,
                ConnectionMode::Remote => *r == self.remote,
                ConnectionMode::Ssh => *r == self.ssh,
            },
    {
        match mode {
            ConnectionMode::Local => &self.local,
            ConnectionMode::Remote => &self.remote,
            ConnectionMode::Ssh => &self.ssh,
        }
    }
}

} // verus!
