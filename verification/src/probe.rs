use vstd::prelude::*;
use crate::address::IpAddress;

verus! {

/// Seconds granted to one connection attempt before it counts as not open.
pub const PROBE_TIMEOUT_SECS: u64 = 1;

/// One unit of work handed out by the coordinator: a single connection
/// attempt against one port of the target, time-boxed to
/// [`PROBE_TIMEOUT_SECS`]. The attempt itself is network I/O and happens
/// outside this crate; its result comes back as a [`ProbeOutcome`].
#[derive(Clone, Copy, Debug, PartialEq, Eq, Structural)]
pub struct ProbeRequest {
    pub target: IpAddress,
    pub port: u16,
    pub verbose: bool,
}

/// How one connection attempt ended.
#[derive(Clone, Copy, Debug, PartialEq, Eq, Structural)]
pub enum ProbeOutcome {
    /// The connection was established strictly before the timeout elapsed.
    Connected,
    /// The peer refused, reset, or was unreachable before the timeout elapsed.
    Refused,
    /// Neither acceptance nor refusal arrived within the time budget.
    TimedOut,
}

/// An attempt counts as open exactly when the connection was established.
pub open spec fn outcome_open(outcome: ProbeOutcome) -> bool {
    outcome is Connected
}

/// Collapses the three-way outcome of one attempt to the single boolean a
/// scan reports. Refusal and timeout are deliberately not distinguished:
/// both mean the port is not open.
pub fn is_open(outcome: &ProbeOutcome) -> (open: bool)
    ensures
        open == outcome_open(*outcome),
{
    match outcome {
        ProbeOutcome::Connected => true,
        ProbeOutcome::Refused => false,
        ProbeOutcome::TimedOut => false,
    }
}

} // verus!
