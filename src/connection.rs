//! Decisions of the connection lifecycle: connecting, the autocommit mode, and which
//! operations each state admits.
use vstd::prelude::*;

verus! {

/// The state of a connection handle.
#[derive(PartialEq, Eq, Structural, Clone, Copy, Debug)]
pub struct ConnectionState {
    pub connected: bool,
    /// Autocommit mode; a connection starts with autocommit on.
    pub autocommit: bool,
}

/// Operations on a connection handle.
#[derive(PartialEq, Eq, Structural, Clone, Copy, Debug)]
pub enum ConnectionOp {
    Connect,
    Disconnect,
    DisableAutocommit,
    EnableAutocommit,
    Commit,
    Rollback,
    IsReadOnly,
    AllocStatement,
}

/// The state of a connection handle right after it is allocated.
pub open spec fn fresh_connection() -> ConnectionState {
    ConnectionState { connected: false, autocommit: true }
}

/// Whether a connection in state `s` admits operation `op`. Commit and rollback exist only
/// with autocommit off.
pub open spec fn connection_allows(s: ConnectionState, op: ConnectionOp) -> bool {
    match op {
        ConnectionOp::Connect => !s.connected,
        ConnectionOp::Disconnect | ConnectionOp::IsReadOnly | ConnectionOp::AllocStatement => s.connected,
        ConnectionOp::DisableAutocommit => s.connected && s.autocommit,
        ConnectionOp::EnableAutocommit | ConnectionOp::Commit | ConnectionOp::Rollback => s.connected && !s.autocommit,
    }
}

/// The state after operation `op` in state `s`; a failed operation leaves the state as it
/// was, so that the caller may retry or inspect it.
pub open spec fn connection_after(s: ConnectionState, op: ConnectionOp, succeeded: bool) -> ConnectionState {
    if !succeeded {
        s
    } else {
        match op {
            ConnectionOp::Connect => ConnectionState { connected: true, autocommit: true },
            ConnectionOp::Disconnect => ConnectionState { connected: false, autocommit: true },
            ConnectionOp::DisableAutocommit => ConnectionState { connected: true, autocommit: false },
            ConnectionOp::EnableAutocommit => ConnectionState { connected: true, autocommit: true },
            _ => s,
        }
    }
}

impl ConnectionState {
    /// The state of a freshly allocated connection handle.
    pub fn fresh() -> (r: ConnectionState)
        ensures
            r == fresh_connection(),
    {
        ConnectionState { connected: false, autocommit: true }
    }

    /// Whether this state admits `op`.
    pub fn allows(&self, op: ConnectionOp) -> (r: bool)
        ensures
            r == connection_allows(*self, op),
    {
        match op {
            ConnectionOp::Connect => !self.connected,
            ConnectionOp::Disconnect | ConnectionOp::IsReadOnly | ConnectionOp::AllocStatement => self.connected,
            ConnectionOp::DisableAutocommit => self.connected && self.autocommit,
            ConnectionOp::EnableAutocommit | ConnectionOp::Commit | ConnectionOp::Rollback => self.connected && !self.autocommit,
        }
    }

    /// The state after `op`, which succeeded or not.
    pub fn after(&self, op: ConnectionOp, succeeded: bool) -> (r: ConnectionState)
        requires
            connection_allows(*self, op),
        ensures
            r == connection_after(*self, op, succeeded),
    {
        if !succeeded {
            *self
        } else {
            match op {
                ConnectionOp::Connect => ConnectionState { connected: true, autocommit: true },
                ConnectionOp::Disconnect => ConnectionState { connected: false, autocommit: true },
                ConnectionOp::DisableAutocommit => ConnectionState { connected: true, autocommit: false },
                ConnectionOp::EnableAutocommit => ConnectionState { connected: true, autocommit: true },
                _ => *self,
            }
        }
    }
}

/// The connection lifecycle admits no illegal sequence: commit and rollback need a
/// connection with autocommit off, which a fresh or newly connected handle does not have;
/// autocommit goes off only through a successful `DisableAutocommit`; and a failed
/// operation leaves the state unchanged.
pub proof fn lemma_connection_lifecycle(s: ConnectionState, op: ConnectionOp, succeeded: bool)
    requires
        connection_allows(s, op),
    ensures
        connection_allows(s, ConnectionOp::Commit) == (s.connected && !s.autocommit),
        connection_allows(s, ConnectionOp::Rollback) == (s.connected && !s.autocommit),
        !connection_allows(fresh_connection(), ConnectionOp::Commit),
        !connection_allows(fresh_connection(), ConnectionOp::AllocStatement),
        !connection_allows(connection_after(fresh_connection(), ConnectionOp::Connect, true), ConnectionOp::Commit),
        s.autocommit && !connection_after(s, op, succeeded).autocommit ==> op == ConnectionOp::DisableAutocommit && succeeded,
        !succeeded ==> connection_after(s, op, succeeded) == s,
{
}

} // verus!
