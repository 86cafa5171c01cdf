use gpgui::error::{BackendError, BackendFault, ServerApiError};
use gpgui::observer::Sink;
use gpgui::session::{BackendRequest, SessionManager};
use gpgui::status::VpnStatus;

fn connecting() -> VpnStatus {
    VpnStatus::Connecting { server: "vpn.example.com".to_string() }
}

fn connected(since: u64) -> VpnStatus {
    VpnStatus::Connected { server: "vpn.example.com".to_string(), since }
}

#[test]
fn starts_disconnected() {
    let m = SessionManager::new();
    assert_eq!(m.status(), VpnStatus::Disconnected);
    assert_eq!(m.last_server, None);
}

#[test]
fn connect_walks_connecting_then_connected() {
    let mut m = SessionManager::new();
    let h = m.subscribe_status(Sink::new(8));
    let due = m.connect("vpn.example.com".to_string(), "cookie123".to_string());
    assert_eq!(
        due,
        Ok(BackendRequest::Connect {
            server: "vpn.example.com".to_string(),
            credential: "cookie123".to_string(),
        })
    );
    assert_eq!(m.status(), connecting());
    // a second request during the connecting window
    let second = m.connect("vpn.example.com".to_string(), "cookie123".to_string());
    assert_eq!(second, Err(ServerApiError::AlreadyInProgress(None)));
    assert_eq!(m.status(), connecting());
    assert_eq!(m.complete_connect(Ok(()), 42), Ok(()));
    assert_eq!(m.status(), connected(42));
    assert_eq!(m.last_server, Some("vpn.example.com".to_string()));
    assert_eq!(m.take_pending(h), vec![connecting(), connected(42)]);
}

#[test]
fn connect_rejected_while_disconnecting() {
    let mut m = SessionManager::new();
    m.connect("a".to_string(), "c".to_string()).unwrap();
    m.complete_connect(Ok(()), 1).unwrap();
    assert_eq!(m.disconnect(), Ok(Some(BackendRequest::Disconnect)));
    assert_eq!(m.status(), VpnStatus::Disconnecting);
    let h = m.subscribe_status(Sink::new(4));
    assert_eq!(
        m.connect("b".to_string(), "c".to_string()),
        Err(ServerApiError::AlreadyInProgress(None))
    );
    assert_eq!(m.status(), VpnStatus::Disconnecting);
    assert_eq!(m.last_server, Some("a".to_string()));
    assert_eq!(m.disconnect(), Err(ServerApiError::AlreadyInProgress(None)));
    assert_eq!(m.take_pending(h), Vec::<VpnStatus>::new());
}

#[test]
fn disconnect_twice_from_disconnected() {
    let mut m = SessionManager::new();
    let h = m.subscribe_status(Sink::new(4));
    assert_eq!(m.disconnect(), Ok(None));
    assert_eq!(m.disconnect(), Ok(None));
    assert_eq!(m.status(), VpnStatus::Disconnected);
    assert_eq!(m.take_pending(h), Vec::<VpnStatus>::new());
}

#[test]
fn disconnect_is_best_effort() {
    let mut m = SessionManager::new();
    m.connect("a".to_string(), "c".to_string()).unwrap();
    m.complete_connect(Ok(()), 1).unwrap();
    m.disconnect().unwrap();
    let failed = BackendError { fault: BackendFault::Network, detail: Some("reset".to_string()) };
    assert_eq!(m.complete_disconnect(Err(failed)), Ok(()));
    assert_eq!(m.status(), VpnStatus::Disconnected);
}

#[test]
fn disconnect_surfaces_unavailable_backend() {
    let mut m = SessionManager::new();
    m.connect("a".to_string(), "c".to_string()).unwrap();
    m.complete_connect(Ok(()), 1).unwrap();
    m.disconnect().unwrap();
    let failed = BackendError { fault: BackendFault::Unavailable, detail: Some("gone".to_string()) };
    assert_eq!(
        m.complete_disconnect(Err(failed)),
        Err(ServerApiError::BackendUnavailable(Some("gone".to_string())))
    );
    assert_eq!(m.status(), VpnStatus::Error { message: "gone".to_string() });
}

#[test]
fn failed_connect_becomes_error_and_is_acknowledged() {
    let mut m = SessionManager::new();
    let h = m.subscribe_status(Sink::new(8));
    m.connect("a".to_string(), "bad".to_string()).unwrap();
    let failed = BackendError { fault: BackendFault::Rejected, detail: Some("no".to_string()) };
    assert_eq!(
        m.complete_connect(Err(failed), 5),
        Err(ServerApiError::AuthenticationRejected(Some("no".to_string())))
    );
    assert_eq!(m.status(), VpnStatus::Error { message: "no".to_string() });
    // acknowledging the error calls no backend
    assert_eq!(m.disconnect(), Ok(None));
    assert_eq!(m.status(), VpnStatus::Disconnected);
    assert_eq!(
        m.take_pending(h),
        vec![
            VpnStatus::Connecting { server: "a".to_string() },
            VpnStatus::Error { message: "no".to_string() },
            VpnStatus::Disconnected,
        ]
    );
}

#[test]
fn failure_without_detail_has_empty_message() {
    let mut m = SessionManager::new();
    m.connect("a".to_string(), "c".to_string()).unwrap();
    let failed = BackendError { fault: BackendFault::UnknownServer, detail: None };
    assert_eq!(m.complete_connect(Err(failed), 5), Err(ServerApiError::InvalidServer(None)));
    assert_eq!(m.status(), VpnStatus::Error { message: String::new() });
}

#[test]
fn every_fault_is_translated() {
    let d = Some("x".to_string());
    let e = |fault| BackendError { fault, detail: Some("x".to_string()) };
    assert_eq!(e(BackendFault::Network).translate(), ServerApiError::NetworkFailure(d.clone()));
    assert_eq!(
        e(BackendFault::Rejected).translate(),
        ServerApiError::AuthenticationRejected(d.clone())
    );
    assert_eq!(e(BackendFault::UnknownServer).translate(), ServerApiError::InvalidServer(d.clone()));
    assert_eq!(e(BackendFault::Unavailable).translate(), ServerApiError::BackendUnavailable(d));
    assert!(e(BackendFault::Unavailable).is_unrecoverable());
    assert!(!e(BackendFault::Network).is_unrecoverable());
}

#[test]
fn full_cycle_follows_the_graph() {
    let mut m = SessionManager::new();
    let h = m.subscribe_status(Sink::new(16));
    m.connect("a".to_string(), "c".to_string()).unwrap();
    m.complete_connect(Ok(()), 9).unwrap();
    m.disconnect().unwrap();
    m.complete_disconnect(Ok(())).unwrap();
    let seen = m.take_pending(h);
    assert_eq!(seen.len(), 4);
    let mut at = VpnStatus::Disconnected;
    for next in seen {
        assert!(at.permits(&next));
        at = next;
    }
    assert_eq!(at, VpnStatus::Disconnected);
}

#[test]
fn graph_has_no_shortcut() {
    let off = VpnStatus::Disconnected;
    let on = VpnStatus::Connected { server: "a".to_string(), since: 0 };
    let going = VpnStatus::Connecting { server: "a".to_string() };
    let other = VpnStatus::Connecting { server: "b".to_string() };
    let failed = VpnStatus::Error { message: String::new() };
    assert!(!off.permits(&on));
    assert!(off.permits(&going));
    assert!(going.permits(&on));
    assert!(!other.permits(&on));
    assert!(on.permits(&VpnStatus::Disconnecting));
    assert!(!on.permits(&off));
    assert!(VpnStatus::Disconnecting.permits(&off));
    assert!(failed.permits(&off));
    assert!(!failed.permits(&going));
    assert!(on.permits(&failed));
    assert!(going.is_in_flight());
    assert!(VpnStatus::Disconnecting.is_in_flight());
    assert!(!on.is_in_flight());
    assert_eq!(on.duplicate(), on);
}

#[test]
fn unsubscribed_observer_hears_no_more() {
    let mut m = SessionManager::new();
    assert!(m.can_subscribe());
    let h = m.subscribe_status(Sink::new(4));
    m.connect("a".to_string(), "c".to_string()).unwrap();
    let sink = m.unsubscribe(h).unwrap();
    assert_eq!(sink.pending, vec![VpnStatus::Connecting { server: "a".to_string() }]);
    m.complete_connect(Ok(()), 1).unwrap();
    assert_eq!(m.take_pending(h), Vec::<VpnStatus>::new());
    assert!(m.unsubscribe(h).is_none());
}
