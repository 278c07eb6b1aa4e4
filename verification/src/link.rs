//! Bring-up policy of the wireless link: a pure state machine from link
//! state and platform event to next state and action. Association and
//! address-assignment failures are the only reportable conditions and both
//! are retried identically, after a fixed backoff, without bound: there is
//! no fatal path and no error surfaces upward. The platform loop performs
//! the actions and feeds the resulting events back in.

use vstd::prelude::*;

verus! {

/// Seconds to wait before retrying a failed association.
pub const JOIN_BACKOFF_SECS: u64 = 5;

/// Lifecycle of the link. Transitions are monotonic except `Joining`, which
/// retries on failure without regressing.
#[derive(PartialEq, Eq, Structural, Clone, Copy, Debug)]
pub enum LinkState {
    /// Nothing attempted yet.
    Disconnected,
    /// Association with the configured network is in progress or retrying.
    Joining,
    /// Association succeeded and layer-2 link-up is confirmed.
    LinkUp,
    /// Address assignment completed: the link is usable.
    AddressAssigned,
}

/// What the platform reports back to the policy.
#[derive(PartialEq, Eq, Structural, Clone, Copy, Debug)]
pub enum LinkEvent {
    /// Association with the network succeeded.
    JoinOk,
    /// Association failed.
    JoinFailed,
    /// Layer-2 link is up.
    LinkBecameUp,
    /// Address assignment completed.
    AddressConfigured,
}

/// What the policy asks the platform to do next.
#[derive(PartialEq, Eq, Structural, Clone, Copy, Debug)]
pub enum LinkAction {
    /// Attempt association with the configured credentials.
    Join,
    /// Wait the fixed backoff, then attempt association again.
    BackoffThenJoin,
    /// Block until layer-2 link-up is reported.
    AwaitLinkUp,
    /// Block until address assignment is reported.
    AwaitAddress,
    /// Signal the status indicator: the link is fully configured.
    SignalReady,
    /// Nothing left to do: the link is up and stays up.
    Idle,
}

/// Progress rank of a link state; bring-up never moves it backwards.
pub open spec fn link_rank(s: LinkState) -> int {
    match s {
        LinkState::Disconnected => 0,
        LinkState::Joining => 1,
        LinkState::LinkUp => 2,
        LinkState::AddressAssigned => 3,
    }
}

/// Start of bring-up: begin associating.
pub fn link_start() -> (r: (LinkState, LinkAction))
    ensures
        r.0 == LinkState::Joining,
        r.1 == LinkAction::Join,
{
    (LinkState::Joining, LinkAction::Join)
}

/// One step of the bring-up policy. A failed association never leaves the
/// `Joining` state and always asks for another attempt after the backoff:
/// there is no error path. Once the address is assigned the machine stays
/// there for the remaining uptime.
pub fn link_step(state: LinkState, event: LinkEvent) -> (r: (LinkState, LinkAction))
    ensures
        link_rank(r.0) >= link_rank(state),
        state == LinkState::Joining && event == LinkEvent::JoinFailed ==> r.0 == LinkState::Joining
            && r.1 == LinkAction::BackoffThenJoin,
        state == LinkState::Joining && event == LinkEvent::JoinOk ==> r.0 == LinkState::Joining
            && r.1 == LinkAction::AwaitLinkUp,
        state == LinkState::Joining && event == LinkEvent::LinkBecameUp ==> r.0 == LinkState::LinkUp
            && r.1 == LinkAction::AwaitAddress,
        state == LinkState::LinkUp && event == LinkEvent::AddressConfigured ==> r.0
            == LinkState::AddressAssigned && r.1 == LinkAction::SignalReady,
        state == LinkState::AddressAssigned ==> r.0 == LinkState::AddressAssigned && r.1
            == LinkAction::Idle,
        state == LinkState::Disconnected ==> r.0 == LinkState::Joining && r.1 == LinkAction::Join,
{
    match state {
        LinkState::Disconnected => (LinkState::Joining, LinkAction::Join),
        LinkState::Joining => match event {
            LinkEvent::JoinFailed => (LinkState::Joining, LinkAction::BackoffThenJoin),
            LinkEvent::JoinOk => (LinkState::Joining, LinkAction::AwaitLinkUp),
            LinkEvent::LinkBecameUp => (LinkState::LinkUp, LinkAction::AwaitAddress),
            LinkEvent::AddressConfigured => (LinkState::Joining, LinkAction::AwaitLinkUp),
        },
        LinkState::LinkUp => match event {
            LinkEvent::AddressConfigured => (LinkState::AddressAssigned, LinkAction::SignalReady),
            _ => (LinkState::LinkUp, LinkAction::AwaitAddress),
        },
        LinkState::AddressAssigned => (LinkState::AddressAssigned, LinkAction::Idle),
    }
}

} // verus!
