use vstd::prelude::*;

verus! {

/// The interval at which the network is asked again, in milliseconds.
pub const READINESS_POLL_MS: u64 = 500;

/// What the caller does after asking the network stack.
#[derive(Clone, Copy, Debug, PartialEq, Eq, Structural)]
pub enum GateAction {
    /// The network is ready: the session manager may start.
    Proceed,
    /// Pause for `ms` milliseconds and ask again.
    Wait { ms: u64 },
}

/// Client activity may begin when the link is up and an IPv4 address is
/// assigned, and not before.
pub open spec fn spec_readiness(link_up: bool, address_assigned: bool) -> GateAction {
    if link_up && address_assigned {
        GateAction::Proceed
    } else {
        GateAction::Wait { ms: READINESS_POLL_MS }
    }
}

/// Decides from one look at the network stack whether client activity may
/// begin.
pub fn readiness(link_up: bool, address_assigned: bool) -> (action: GateAction)
    ensures
        action == spec_readiness(link_up, address_assigned),
{
    if link_up && address_assigned {
        GateAction::Proceed
    } else {
        GateAction::Wait { ms: READINESS_POLL_MS }
    }
}

} // verus!
