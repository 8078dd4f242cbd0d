//! The server's lifecycle: from unbound to stopped, and what the accept loop
//! does at each turn.
//!
//! The socket, the threads and the interrupt live with the caller. The
//! caller reports what it found, and does what the answer says.

use crate::enums::errors::ServerError;
use crate::server::registry::{lists, Registry};
use uuid::Uuid;
use vstd::prelude::*;

verus! {

/// The port that the server listens on when the caller names none.
pub const DEFAULT_PORT: usize = 8080;

/// How long the accept loop rests when no connection waits, in milliseconds.
pub const PAUSE_MILLIS: u64 = 15;

/// Where the server stands.
#[derive(Clone, Copy, Debug, PartialEq, Eq, Structural)]
pub enum Phase {
    Unbound,
    Bound,
    Running,
    Stopping,
    Stopped,
}

/// What the accept loop found when it looked for the shutdown signal.
#[derive(Clone, Copy, Debug, PartialEq, Eq, Structural)]
pub enum Signal {
    /// No signal so far.
    Quiet,
    /// The signal was raised.
    Raised,
    /// Nobody is left who could raise it.
    Gone,
}

/// What a non-blocking accept gave.
#[derive(Clone, Copy, Debug, PartialEq, Eq, Structural)]
pub enum Accepted {
    /// A connection.
    Connection,
    /// Nothing yet: the accept would have blocked.
    WouldBlock,
    /// An error.
    Failed,
}

/// What the accept loop is to do at this turn.
#[derive(Clone, Copy, Debug, PartialEq, Eq, Structural)]
pub enum Turn {
    /// Start a handler for the accepted connection under this id, and
    /// record it in the registry.
    Serve { id: u128 },
    /// Rest for this many milliseconds, then try again.
    Pause { millis: u64 },
    /// Try again at once.
    Retry,
    /// Leave the loop.
    Leave,
}

/// The turn that follows from what the loop found. The shutdown signal wins
/// over whatever the accept gave; `id` is the id at hand for a connection.
pub open spec fn turn_for(signal: Signal, accepted: Accepted, id: u128) -> Turn {
    if signal != Signal::Quiet {
        Turn::Leave
    } else {
        match accepted {
            Accepted::Connection => Turn::Serve { id },
            Accepted::WouldBlock => Turn::Pause { millis: PAUSE_MILLIS },
            Accepted::Failed => Turn::Retry,
        }
    }
}

/// Decides one turn of the accept loop.
pub fn decide(signal: Signal, accepted: Accepted, id: u128) -> (turn: Turn)
    ensures
        turn == turn_for(signal, accepted, id),
{
    match signal {
        Signal::Raised | Signal::Gone => Turn::Leave,
        Signal::Quiet => match accepted {
            Accepted::Connection => Turn::Serve { id },
            Accepted::WouldBlock => Turn::Pause { millis: PAUSE_MILLIS },
            Accepted::Failed => Turn::Retry,
        },
    }
}

/// The port to listen on: the caller's, or the default.
pub fn listen_port(port: Option<usize>) -> (chosen: usize)
    ensures
        chosen == match port {
            Some(p) => p,
            None => DEFAULT_PORT,
        },
{
    match port {
        Some(p) => p,
        None => DEFAULT_PORT,
    }
}

/// Whether `id` has the fixed bits of a random UUID: version 4 in bits 76 to
/// 79, variant 1 in bits 62 and 63. All other bits are free.
pub open spec fn is_random_uuid(id: u128) -> bool {
    (id / 0x1000_0000_0000_0000_0000) % 16 == 4 && (id / 0x4000_0000_0000_0000) % 4 == 2
}

/// Calls `Uuid::new_v4` and hands the id out as the number that
/// `Uuid::as_u128` gives.
///
/// Trusted, not proved: the id has the version and variant bits of a random
/// UUID. Nothing else is claimed of it: it is random, and two calls may give
/// any two ids. The call fails only where the operating system has no random
/// bytes to give.
#[verifier::external_body]
fn fresh_id() -> (id: u128)
    ensures
        is_random_uuid(id),
{
    Uuid::new_v4().as_u128()
}

/// The server's place in its lifecycle.
pub struct Lifecycle {
    phase: Phase,
}

impl View for Lifecycle {
    type V = Phase;

    closed spec fn view(&self) -> Phase {
        self.phase
    }
}

impl Lifecycle {
    /// A server that is not bound yet.
    pub fn new() -> (server: Self)
        ensures
            server@ == Phase::Unbound,
    {
        Lifecycle { phase: Phase::Unbound }
    }

    /// Where the server stands.
    pub fn phase(&self) -> (phase: Phase)
        ensures
            phase == self@,
    {
        self.phase
    }

    /// Takes note of an attempt to bind the listening socket. Success makes
    /// the server bound; a failure leaves it where it was and is handed on
    /// with its reason.
    pub fn bind(&mut self, attempt: Result<(), String>) -> (bound: Result<(), ServerError>)
        ensures
            match attempt {
                Ok(_) => bound is Ok && final(self)@ == Phase::Bound,
                Err(reason) => bound == Err::<(), ServerError>(
                    ServerError::UnableToStartServer(reason),
                ) && final(self)@ == old(self)@,
            },
    {
        match attempt {
            Ok(_) => {
                self.phase = Phase::Bound;
                Ok(())
            },
            Err(reason) => Err(ServerError::UnableToStartServer(reason)),
        }
    }

    /// Enters the accept loop. A server that was never bound does not
    /// start.
    pub fn start(&mut self) -> (started: Result<(), ServerError>)
        ensures
            old(self)@ == Phase::Unbound ==> started == Err::<(), ServerError>(
                ServerError::ServerNotYetStarted,
            ) && final(self)@ == Phase::Unbound,
            old(self)@ != Phase::Unbound ==> started is Ok && final(self)@ == Phase::Running,
    {
        match self.phase {
            Phase::Unbound => Err(ServerError::ServerNotYetStarted),
            _ => {
                self.phase = Phase::Running;
                Ok(())
            },
        }
    }

    /// One turn of the accept loop. A server that is not running leaves at
    /// once. A running server takes the turn that follows from what the
    /// loop found, with a random UUID as the id for a connection, and is
    /// stopping once it leaves.
    pub fn poll(&mut self, signal: Signal, accepted: Accepted) -> (turn: Turn)
        ensures
            old(self)@ != Phase::Running ==> turn == Turn::Leave && final(self)@ == old(self)@,
            old(self)@ == Phase::Running ==> {
                &&& exists|id: u128| turn == #[trigger] turn_for(signal, accepted, id)
                &&& final(self)@ == if turn == Turn::Leave {
                    Phase::Stopping
                } else {
                    Phase::Running
                }
            },
            turn matches Turn::Serve { id } ==> is_random_uuid(id),
    {
        match self.phase {
            Phase::Running => {},
            _ => {
                return Turn::Leave;
            },
        }
        let id: u128 = match (signal, accepted) {
            (Signal::Quiet, Accepted::Connection) => fresh_id(),
            _ => 0,
        };
        let turn = decide(signal, accepted, id);
        match turn {
            Turn::Leave => {
                self.phase = Phase::Stopping;
            },
            _ => {},
        }
        turn
    }

    /// Stops the server: takes every handle that is still in the registry
    /// out of it, for the caller to join.
    pub fn stop<H>(&mut self, registry: &mut Registry<H>) -> (left: Vec<(u128, H)>)
        ensures
            final(self)@ == Phase::Stopped,
            final(registry)@ == Map::<u128, H>::empty(),
            lists(left@, old(registry)@),
    {
        self.phase = Phase::Stopped;
        registry.drain()
    }
}

} // verus!
