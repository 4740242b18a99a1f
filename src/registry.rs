use vstd::prelude::*;

use crate::handshake::{announced_port, handshake_line, lemma_handshake_line_announces};

verus! {

/// What is known of the helper's port.
#[derive(Clone, Copy, Debug, PartialEq, Eq, Structural)]
pub enum PortState {
    Unknown,
    Known(u16),
}

/// Why a port query gave no port.
#[derive(Clone, Copy, Debug, PartialEq, Eq, Structural)]
pub enum QueryError {
    /// The handshake line has not been seen yet.
    NotYetAvailable,
    /// The lock guarding the registry could not be taken.
    InternalLockError,
}

/// The answer to a port query in a given state.
pub open spec fn query_result(s: PortState) -> Result<u16, QueryError> {
    match s {
        PortState::Known(p) => Ok(p),
        PortState::Unknown => Err(QueryError::NotYetAvailable),
    }
}

/// The state after a decoded stdout line: a handshake line sets the port it
/// announces (the latest announcement wins); any other line changes nothing.
pub open spec fn port_after_line(s: PortState, t: Seq<char>) -> PortState {
    match announced_port(t) {
        Some(p) => PortState::Known(p),
        None => s,
    }
}

/// The single slot that holds the helper's port once it is known.
pub struct PortRegistry {
    state: PortState,
}

impl View for PortRegistry {
    type V = PortState;

    closed spec fn view(&self) -> PortState {
        self.state
    }
}

impl PortRegistry {
    pub fn new() -> (r: PortRegistry)
        ensures
            r@ == PortState::Unknown,
    {
        PortRegistry { state: PortState::Unknown }
    }

    pub fn state(&self) -> (r: PortState)
        ensures
            r == self@,
    {
        self.state
    }

    /// Stores a port that the helper announced, replacing any earlier one.
    pub fn record(&mut self, port: u16)
        ensures
            final(self)@ == PortState::Known(port),
    {
        self.state = PortState::Known(port);
    }

    /// The port if it is known, else `NotYetAvailable`; never waits.
    pub fn get_port(&self) -> (r: Result<u16, QueryError>)
        ensures
            r == query_result(self@),
    {
        match self.state {
            PortState::Known(p) => Ok(p),
            PortState::Unknown => Err(QueryError::NotYetAvailable),
        }
    }
}

/// Answers a port query from the registry as its lock handed it out, or from
/// `None` where the lock could not be taken.
pub fn query_port(registry: Option<&PortRegistry>) -> (r: Result<u16, QueryError>)
    ensures
        match registry {
            Some(g) => r == query_result(g@),
            None => r == Err::<u16, QueryError>(QueryError::InternalLockError),
        },
{
    match registry {
        Some(g) => g.get_port(),
        None => Err(QueryError::InternalLockError),
    }
}

/// For every port `p` and every prior state, the stdout line `SERVER_PORT=p`
/// leaves the registry holding `p`, and a query then answers `p`.
pub proof fn lemma_handshake_sets_port(s: PortState, p: u16)
    ensures
        port_after_line(s, handshake_line(p)) == PortState::Known(p),
        query_result(port_after_line(s, handshake_line(p))) == Ok::<u16, QueryError>(p),
{
    lemma_handshake_line_announces(p);
}

/// After two handshake lines in succession, the registry holds the port of the
/// later one: the latest announcement wins.
pub proof fn lemma_later_announcement_wins(s: PortState, first: u16, second: u16)
    ensures
        port_after_line(port_after_line(s, handshake_line(first)), handshake_line(second))
            == PortState::Known(second),
{
    lemma_handshake_line_announces(first);
    lemma_handshake_line_announces(second);
}

} // verus!
