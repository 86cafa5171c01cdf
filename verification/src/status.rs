//! The connection status of the one VPN session and the graph of its
//! transitions.

use vstd::prelude::*;

verus! {

/// The status of the session. Exactly one value is current at any instant.
#[derive(Debug, Clone, PartialEq, Eq)]
pub enum VpnStatus {
    Disconnected,
    Connecting { server: String },
    Connected { server: String, since: u64 },
    Disconnecting,
    Error { message: String },
}

/// The edges of the transition graph: the cycle
/// `Disconnected -> Connecting -> Connected -> Disconnecting -> Disconnected`,
/// from every state to `Error`, and from `Error` back to `Disconnected`.
/// `Connected` keeps the server that `Connecting` named.
pub open spec fn is_edge(from: VpnStatus, to: VpnStatus) -> bool {
    match to {
        VpnStatus::Error { .. } => true,
        VpnStatus::Connecting { .. } => from is Disconnected,
        VpnStatus::Connected { server, .. } => from is Connecting && from->Connecting_server@
            == server@,
        VpnStatus::Disconnecting => from is Connected,
        VpnStatus::Disconnected => from is Disconnecting || from is Error,
    }
}

/// A request is in flight at the backend exactly in these two states.
pub open spec fn in_flight(s: VpnStatus) -> bool {
    s is Connecting || s is Disconnecting
}

impl VpnStatus {
    /// Whether a connect or disconnect is in flight.
    pub fn is_in_flight(&self) -> (r: bool)
        ensures
            r == in_flight(*self),
    {
        match self {
            VpnStatus::Connecting { .. } => true,
            VpnStatus::Disconnecting => true,
            _ => false,
        }
    }

    /// An independent copy, equal to this status.
    pub fn duplicate(&self) -> (r: VpnStatus)
        ensures
            r == *self,
    {
        match self {
            VpnStatus::Disconnected => VpnStatus::Disconnected,
            VpnStatus::Connecting { server } => VpnStatus::Connecting { server: server.clone() },
            VpnStatus::Connected { server, since } => VpnStatus::Connected {
                server: server.clone(),
                since: *since,
            },
            VpnStatus::Disconnecting => VpnStatus::Disconnecting,
            VpnStatus::Error { message } => VpnStatus::Error { message: message.clone() },
        }
    }

    /// Whether the graph has an edge from `self` to `next`.
    pub fn permits(&self, next: &VpnStatus) -> (r: bool)
        ensures
            r == is_edge(*self, *next),
    {
        match next {
            VpnStatus::Error { .. } => true,
            VpnStatus::Connecting { .. } => match self {
                VpnStatus::Disconnected => true,
                _ => false,
            },
            VpnStatus::Connected { server, .. } => match self {
                VpnStatus::Connecting { server: target } => same_text(target, server),
                _ => false,
            },
            VpnStatus::Disconnecting => match self {
                VpnStatus::Connected { .. } => true,
                _ => false,
            },
            VpnStatus::Disconnected => match self {
                VpnStatus::Disconnecting => true,
                VpnStatus::Error { .. } => true,
                _ => false,
            },
        }
    }
}

/// Whether two strings hold the same text.
pub fn same_text(a: &String, b: &String) -> (r: bool)
    ensures
        r == (a@ == b@),
{
    *a == *b
}

} // verus!
