//! What can go wrong in a run, and how far each failure reaches.

use vstd::prelude::*;

verus! {

/// The failures of the traffic engine.
#[derive(Clone, Copy, Debug, PartialEq, Eq, Structural)]
pub enum TrafficError {
    /// The host and port do not make a connectable address.
    InvalidAddress,
    /// One worker could not set up its socket.
    SocketSetupFailure,
    /// One connect or send attempt failed.
    TransientSendFailure,
}

/// How far a failure reaches.
#[derive(Clone, Copy, Debug, PartialEq, Eq, Structural)]
pub enum Reach {
    /// The run does not start.
    Run,
    /// The worker that met it exits; its siblings go on.
    Worker,
    /// The attempt is lost; the worker goes on.
    Attempt,
}

impl TrafficError {
    /// What this failure brings down.
    pub open spec fn reach_spec(self) -> Reach {
        match self {
            TrafficError::InvalidAddress => Reach::Run,
            TrafficError::SocketSetupFailure => Reach::Worker,
            TrafficError::TransientSendFailure => Reach::Attempt,
        }
    }

    /// What this failure brings down.
    pub fn reach(&self) -> (reach: Reach)
        ensures
            reach == self.reach_spec(),
    {
        match self {
            TrafficError::InvalidAddress => Reach::Run,
            TrafficError::SocketSetupFailure => Reach::Worker,
            TrafficError::TransientSendFailure => Reach::Attempt,
        }
    }

    /// Whether this failure keeps the run from starting.
    pub fn aborts_run(&self) -> (fatal: bool)
        ensures
            fatal == (*self == TrafficError::InvalidAddress),
            fatal == (self.reach_spec() == Reach::Run),
    {
        match self {
            TrafficError::InvalidAddress => true,
            _ => false,
        }
    }

    /// The notice that introduces this failure to the operator.
    pub fn notice(&self) -> (text: &'static str)
        ensures
            text@ == match *self {
                TrafficError::InvalidAddress => "Invalid target address"@,
                TrafficError::SocketSetupFailure => "Failed to create UDP socket"@,
                TrafficError::TransientSendFailure => "Send error"@,
            },
    {
        match self {
            TrafficError::InvalidAddress => "Invalid target address",
            TrafficError::SocketSetupFailure => "Failed to create UDP socket",
            TrafficError::TransientSendFailure => "Send error",
        }
    }
}

} // verus!
