//! The control plane: the small set of system messages that agent
//! and broker subscribers exchange over the in-process control
//! channel, beside the mailbox traffic.
use vstd::prelude::*;

verus! {

/// A component of a running actor process, named in heartbeats.
#[derive(Clone, Copy, PartialEq, Eq, Structural, Debug)]
pub enum SystemComponent {
    Actor,
    Agent,
    Broker,
}

/// A message on the control channel. A component receiving
/// `Health` replies with a `Heartbeat` carrying its tag and the
/// current time in milliseconds since the epoch; `Shutdown` fans
/// out to every subscriber and to the agent, and each exits its
/// loop.
#[derive(Clone, Copy, PartialEq, Eq, Structural, Debug)]
pub enum SystemMsg {
    Health,
    Heartbeat(SystemComponent, u128),
    Shutdown,
}

} // verus!
