//! The session manager: the owner of the current status. It admits or
//! rejects connect and disconnect requests, walks the status through the
//! transition graph, and tells every observer of each transition. The tunnel
//! itself is somebody else's work: the manager says which backend call is
//! due, and is told how it ended.

use crate::error::{translated, unrecoverable, BackendError, ServerApiError};
use crate::observer::{told, Mailbox, ObserverRegistry, Sink, SubscriptionHandle};
use crate::status::{in_flight, is_edge, VpnStatus};
use vstd::prelude::*;

verus! {

/// A call that is due at the tunnel backend.
#[derive(Debug, PartialEq, Eq)]
pub enum BackendRequest {
    Connect { server: String, credential: String },
    Disconnect,
}

/// The manager of the one session.
#[derive(Debug)]
pub struct SessionManager {
    pub status: VpnStatus,
    pub last_server: Option<String>,
    pub observers: ObserverRegistry,
}

/// The text that an `Error` status shows for a backend failure: the
/// backend's own words, or nothing where it gave none.
pub open spec fn failure_text(e: BackendError) -> Seq<char> {
    match e.detail {
        Some(d) => d@,
        None => Seq::empty(),
    }
}

/// What a connect request does to the status: nothing while a request is in
/// flight, else it becomes `Connecting` to the server.
pub open spec fn connect_step(before: VpnStatus, server: String, after: VpnStatus) -> bool {
    if in_flight(before) {
        after == before
    } else {
        after == (VpnStatus::Connecting { server })
    }
}

/// What the end of the backend's connect does to a `Connecting` status:
/// `Connected` to the same server on success, `Error` on failure.
pub open spec fn connect_done_step(
    before: VpnStatus,
    outcome: Result<(), BackendError>,
    now: u64,
    after: VpnStatus,
) -> bool {
    &&& before is Connecting
    &&& match outcome {
        Ok(_) => after == (VpnStatus::Connected {
            server: before->Connecting_server,
            since: now,
        }),
        Err(e) => after is Error && after->message@ == failure_text(e),
    }
}

/// What a disconnect request does to the status: `Connected` becomes
/// `Disconnecting`, `Error` is acknowledged and becomes `Disconnected`, and
/// every other status stays.
pub open spec fn disconnect_step(before: VpnStatus, after: VpnStatus) -> bool {
    match before {
        VpnStatus::Connected { .. } => after is Disconnecting,
        VpnStatus::Error { .. } => after is Disconnected,
        _ => after == before,
    }
}

/// What a disconnect request answers: the backend is called only from
/// `Connected`; a request in flight rejects it.
pub open spec fn disconnect_reply(before: VpnStatus) -> Result<
    Option<BackendRequest>,
    ServerApiError,
> {
    match before {
        VpnStatus::Connected { .. } => Ok(Some(BackendRequest::Disconnect)),
        VpnStatus::Error { .. } => Ok(None),
        VpnStatus::Disconnected => Ok(None),
        _ => Err(ServerApiError::AlreadyInProgress(None)),
    }
}

/// What the end of the backend's disconnect does to a `Disconnecting`
/// status: `Disconnected`, unless the backend failed beyond recovery.
pub open spec fn disconnect_done_step(
    before: VpnStatus,
    outcome: Result<(), BackendError>,
    after: VpnStatus,
) -> bool {
    &&& before is Disconnecting
    &&& match outcome {
        Err(e) if unrecoverable(e) => after is Error && after->message@ == failure_text(e),
        _ => after is Disconnected,
    }
}

/// What the end of the backend's disconnect answers.
pub open spec fn disconnect_done_reply(outcome: Result<(), BackendError>) -> Result<
    (),
    ServerApiError,
> {
    match outcome {
        Err(e) if unrecoverable(e) => Err(translated(e)),
        _ => Ok(()),
    }
}

/// The text of a failure, as a string of its own.
fn failure_message(e: &BackendError) -> (r: String)
    ensures
        r@ == failure_text(*e),
{
    match &e.detail {
        Some(d) => d.clone(),
        None => String::new(),
    }
}

impl SessionManager {
    /// The registry of observers is well formed.
    pub open spec fn wf(self) -> bool {
        self.observers.wf()
    }

    /// How many handles have been given out.
    pub open spec fn issued(self) -> u64 {
        self.observers.next_id
    }

    /// The mailboxes of the observers, by identifier.
    pub open spec fn mailboxes(self) -> Map<u64, Mailbox> {
        self.observers@
    }

    /// A manager of a session that is disconnected and has no observers.
    pub fn new() -> (r: SessionManager)
        ensures
            r.wf(),
            r.status is Disconnected,
            r.last_server is None,
            r.issued() == 0,
            r.mailboxes() == Map::<u64, Mailbox>::empty(),
    {
        SessionManager {
            status: VpnStatus::Disconnected,
            last_server: None,
            observers: ObserverRegistry::new(),
        }
    }

    /// A snapshot of the current status.
    pub fn status(&self) -> (r: VpnStatus)
        ensures
            r == self.status,
    {
        self.status.duplicate()
    }

    /// Writes the new status and tells every observer of it.
    fn transition(&mut self, next: VpnStatus)
        requires
            old(self).wf(),
        ensures
            final(self).wf(),
            final(self).status == next,
            final(self).last_server == old(self).last_server,
            final(self).issued() == old(self).issued(),
            told(old(self).mailboxes(), final(self).mailboxes(), next),
    {
        self.status = next;
        self.observers.notify_all(&self.status);
    }

    /// Asks for a connection to `server`. While a request is in flight the
    /// call is rejected with `AlreadyInProgress` and nothing changes.
    /// Otherwise the status becomes `Connecting`, every observer is told,
    /// and the answer names the backend call that is due.
    pub fn connect(&mut self, server: String, credential: String) -> (r: Result<
        BackendRequest,
        ServerApiError,
    >)
        requires
            old(self).wf(),
        ensures
            final(self).wf(),
            connect_step(old(self).status, server, final(self).status),
            in_flight(old(self).status) ==> r == Err::<BackendRequest, ServerApiError>(
                ServerApiError::AlreadyInProgress(None),
            ) && *final(self) == *old(self),
            !in_flight(old(self).status) ==> r == Ok::<BackendRequest, ServerApiError>(
                BackendRequest::Connect { server, credential },
            ) && final(self).last_server == Some(server) && told(
                old(self).mailboxes(),
                final(self).mailboxes(),
                final(self).status,
            ) && final(self).issued() == old(self).issued(),
    {
        if self.status.is_in_flight() {
            return Err(ServerApiError::AlreadyInProgress(None));
        }
        self.last_server = Some(server.clone());
        self.transition(VpnStatus::Connecting { server: server.clone() });
        Ok(BackendRequest::Connect { server, credential })
    }

    /// Takes the outcome of the backend's connect. On success the status
    /// becomes `Connected` to the server that was being connected to, since
    /// `now`; on failure it becomes `Error` and the failure is returned,
    /// translated. Every observer is told.
    pub fn complete_connect(&mut self, outcome: Result<(), BackendError>, now: u64) -> (r: Result<
        (),
        ServerApiError,
    >)
        requires
            old(self).wf(),
            old(self).status is Connecting,
        ensures
            final(self).wf(),
            connect_done_step(old(self).status, outcome, now, final(self).status),
            r == match outcome {
                Ok(_) => Ok::<(), ServerApiError>(()),
                Err(e) => Err::<(), ServerApiError>(translated(e)),
            },
            final(self).last_server == old(self).last_server,
            final(self).issued() == old(self).issued(),
            told(old(self).mailboxes(), final(self).mailboxes(), final(self).status),
    {
        match outcome {
            Ok(_) => {
                let server: String = match &self.status {
                    VpnStatus::Connecting { server } => server.clone(),
                    _ => String::new(),
                };
                self.transition(VpnStatus::Connected { server, since: now });
                Ok(())
            },
            Err(e) => {
                let message: String = failure_message(&e);
                self.transition(VpnStatus::Error { message });
                Err(e.translate())
            },
        }
    }

    /// Asks for the session to end. From `Disconnected` this succeeds at
    /// once and nothing happens. From `Connected` the status becomes
    /// `Disconnecting` and the backend's disconnect is due. From `Error` the
    /// error is acknowledged: the status becomes `Disconnected`, without the
    /// backend. While a request is in flight the call is rejected with
    /// `AlreadyInProgress`. Every transition is told to every observer.
    pub fn disconnect(&mut self) -> (r: Result<Option<BackendRequest>, ServerApiError>)
        requires
            old(self).wf(),
        ensures
            final(self).wf(),
            r == disconnect_reply(old(self).status),
            disconnect_step(old(self).status, final(self).status),
            final(self).last_server == old(self).last_server,
            final(self).issued() == old(self).issued(),
            (old(self).status is Connected || old(self).status is Error) ==> told(
                old(self).mailboxes(),
                final(self).mailboxes(),
                final(self).status,
            ),
            !(old(self).status is Connected || old(self).status is Error) ==> *final(self) == *old(
                self,
            ),
    {
        match &self.status {
            VpnStatus::Disconnected => Ok(None),
            VpnStatus::Connecting { .. } => Err(ServerApiError::AlreadyInProgress(None)),
            VpnStatus::Disconnecting => Err(ServerApiError::AlreadyInProgress(None)),
            VpnStatus::Connected { .. } => {
                self.transition(VpnStatus::Disconnecting);
                Ok(Some(BackendRequest::Disconnect))
            },
            VpnStatus::Error { .. } => {
                self.transition(VpnStatus::Disconnected);
                Ok(None)
            },
        }
    }

    /// Takes the outcome of the backend's disconnect. The status becomes
    /// `Disconnected` whether or not the backend succeeded, unless it failed
    /// beyond recovery: then the status becomes `Error` and the failure is
    /// returned, translated. Every observer is told.
    pub fn complete_disconnect(&mut self, outcome: Result<(), BackendError>) -> (r: Result<
        (),
        ServerApiError,
    >)
        requires
            old(self).wf(),
            old(self).status is Disconnecting,
        ensures
            final(self).wf(),
            disconnect_done_step(old(self).status, outcome, final(self).status),
            r == disconnect_done_reply(outcome),
            final(self).last_server == old(self).last_server,
            final(self).issued() == old(self).issued(),
            told(old(self).mailboxes(), final(self).mailboxes(), final(self).status),
    {
        match outcome {
            Ok(_) => {
                self.transition(VpnStatus::Disconnected);
                Ok(())
            },
            Err(e) => {
                if e.is_unrecoverable() {
                    let message: String = failure_message(&e);
                    self.transition(VpnStatus::Error { message });
                    Err(e.translate())
                } else {
                    self.transition(VpnStatus::Disconnected);
                    Ok(())
                }
            },
        }
    }

    /// Whether one more observer can subscribe.
    pub fn can_subscribe(&self) -> (r: bool)
        ensures
            r == (self.issued() < u64::MAX),
    {
        self.observers.has_room()
    }

    /// Registers a sink for every status from the next transition on. The
    /// current status is not replayed into it.
    pub fn subscribe_status(&mut self, sink: Sink) -> (handle: SubscriptionHandle)
        requires
            old(self).wf(),
            old(self).issued() < u64::MAX,
        ensures
            final(self).wf(),
            final(self).status == old(self).status,
            final(self).last_server == old(self).last_server,
            handle.id == old(self).issued(),
            final(self).issued() == old(self).issued() + 1,
            !old(self).mailboxes().contains_key(handle.id),
            final(self).mailboxes() == old(self).mailboxes().insert(handle.id, sink@),
    {
        self.observers.add(sink)
    }

    /// Ends a subscription and hands back its sink with what was still
    /// pending; nothing changes where the handle names no observer.
    pub fn unsubscribe(&mut self, handle: SubscriptionHandle) -> (r: Option<Sink>)
        requires
            old(self).wf(),
        ensures
            final(self).wf(),
            final(self).status == old(self).status,
            final(self).last_server == old(self).last_server,
            final(self).issued() == old(self).issued(),
            final(self).mailboxes() == old(self).mailboxes().remove(handle.id),
            match r {
                Some(sink) => old(self).mailboxes().contains_key(handle.id) && sink@ == old(
                    self,
                ).mailboxes()[handle.id],
                None => !old(self).mailboxes().contains_key(handle.id),
            },
    {
        self.observers.remove(handle)
    }

    /// Takes out the statuses that are pending for an observer, oldest
    /// first.
    pub fn take_pending(&mut self, handle: SubscriptionHandle) -> (r: Vec<VpnStatus>)
        requires
            old(self).wf(),
        ensures
            final(self).wf(),
            final(self).status == old(self).status,
            final(self).last_server == old(self).last_server,
            final(self).issued() == old(self).issued(),
            old(self).mailboxes().contains_key(handle.id) ==> r@ == old(
                self,
            ).mailboxes()[handle.id].pending,
            old(self).mailboxes().contains_key(handle.id) ==> final(self).mailboxes() == old(
                self,
            ).mailboxes().insert(
                handle.id,
                (Mailbox { pending: Seq::empty(), ..old(self).mailboxes()[handle.id] }),
            ),
            !old(self).mailboxes().contains_key(handle.id) ==> r@ == Seq::<VpnStatus>::empty()
                && final(self).mailboxes() == old(self).mailboxes(),
    {
        self.observers.take_pending(handle)
    }
}

/// Every step of the session follows an edge of the transition graph or
/// leaves the status as it is: a connect request made while disconnected or
/// while a request is in flight, the end of the backend's connect, a
/// disconnect request, and the end of the backend's disconnect. In
/// particular no step leads from `Disconnected` straight to `Connected`.
pub proof fn lemma_steps_follow_graph(
    before: VpnStatus,
    after: VpnStatus,
    server: String,
    outcome: Result<(), BackendError>,
    now: u64,
)
    ensures
        (before is Disconnected || in_flight(before)) && connect_step(before, server, after)
            ==> after == before || is_edge(before, after),
        connect_done_step(before, outcome, now, after) ==> is_edge(before, after),
        disconnect_step(before, after) ==> after == before || is_edge(before, after),
        disconnect_done_step(before, outcome, after) ==> is_edge(before, after),
        before is Disconnected && (connect_step(before, server, after) || disconnect_step(
            before,
            after,
        ) || connect_done_step(before, outcome, now, after) || disconnect_done_step(
            before,
            outcome,
            after,
        )) ==> !(after is Connected),
{
}

/// Disconnecting while disconnected succeeds, calls no backend and changes
/// nothing, however often it is repeated.
pub proof fn lemma_disconnect_idempotent(before: VpnStatus, after: VpnStatus, again: VpnStatus)
    requires
        before is Disconnected,
        disconnect_step(before, after),
        disconnect_step(after, again),
    ensures
        after == before,
        again == before,
        disconnect_reply(before) == Ok::<Option<BackendRequest>, ServerApiError>(None),
        disconnect_reply(after) == Ok::<Option<BackendRequest>, ServerApiError>(None),
{
}

/// One whole connect, from the request while disconnected to the end of the
/// backend's call, shows the statuses `Connecting` and then `Connected` to
/// the server asked for, or `Connecting` and then `Error`; each of the two
/// transitions is an edge of the graph.
pub proof fn lemma_connect_walks_graph(
    before: VpnStatus,
    server: String,
    mid: VpnStatus,
    outcome: Result<(), BackendError>,
    now: u64,
    after: VpnStatus,
)
    requires
        before is Disconnected,
        connect_step(before, server, mid),
        connect_done_step(mid, outcome, now, after),
    ensures
        mid == (VpnStatus::Connecting { server }),
        is_edge(before, mid),
        is_edge(mid, after),
        outcome is Ok ==> after == (VpnStatus::Connected { server, since: now }),
        outcome is Err ==> after is Error,
{
}

/// One whole disconnect, from the request while connected to the end of the
/// backend's call, shows the statuses `Disconnecting` and then
/// `Disconnected`, or `Disconnecting` and then `Error`; each of the two
/// transitions is an edge of the graph.
pub proof fn lemma_disconnect_walks_graph(
    before: VpnStatus,
    mid: VpnStatus,
    outcome: Result<(), BackendError>,
    after: VpnStatus,
)
    requires
        before is Connected,
        disconnect_step(before, mid),
        disconnect_done_step(mid, outcome, after),
    ensures
        mid is Disconnecting,
        is_edge(before, mid),
        is_edge(mid, after),
        after is Disconnected || after is Error,
        after is Error <==> outcome is Err && unrecoverable(outcome->Err_0),
{
}

/// What can be asked of the session, or told to it.
pub enum Request {
    Connect { server: String },
    ConnectDone { outcome: Result<(), BackendError>, now: u64 },
    Disconnect,
    DisconnectDone { outcome: Result<(), BackendError> },
}

/// The request takes the status from `before` to `after`.
pub open spec fn stepped(before: VpnStatus, request: Request, after: VpnStatus) -> bool {
    match request {
        Request::Connect { server } => connect_step(before, server, after),
        Request::ConnectDone { outcome, now } => connect_done_step(before, outcome, now, after),
        Request::Disconnect => disconnect_step(before, after),
        Request::DisconnectDone { outcome } => disconnect_done_step(before, outcome, after),
    }
}

/// Over any run of requests in which no connect is asked for while the
/// status is `Connected` or `Error`, every two statuses that follow one
/// another are the same or joined by an edge of the graph.
pub proof fn lemma_runs_follow_graph(history: Seq<VpnStatus>, requests: Seq<Request>)
    requires
        history.len() == requests.len() + 1,
        forall|i: int|
            0 <= i < requests.len() ==> stepped(history[i], #[trigger] requests[i], history[i + 1]),
        forall|i: int|
            0 <= i < requests.len() && #[trigger] requests[i] is Connect ==> !(history[i]
                is Connected) && !(history[i] is Error),
    ensures
        forall|i: int|
            0 <= i < requests.len() ==> history[i + 1] == #[trigger] history[i] || is_edge(
                history[i],
                history[i + 1],
            ),
{
    assert forall|i: int| 0 <= i < requests.len() implies history[i + 1] == #[trigger] history[i]
        || is_edge(history[i], history[i + 1]) by {
        assert(stepped(history[i], requests[i], history[i + 1]));
    }
}

} // verus!
