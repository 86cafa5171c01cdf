use gpgui::auth::{
    AuthFlowController, FlowState, FlowStep, SurfaceEvent, SurfaceRequest, PAGE_FIELD, PAGE_HEAD,
    PAGE_TAIL,
};
use gpgui::error::AuthError;
use gpgui::recognizer::{AuthArtifact, Navigation, RedirectRecognizer, SamlBinding};

fn controller() -> AuthFlowController {
    AuthFlowController::new(
        b"https://idp.example.com/sso".to_vec(),
        RedirectRecognizer::new(b"https://service/callback".to_vec(), b"artifact".to_vec()),
        300,
    )
}

fn visit(url: &str) -> SurfaceEvent {
    SurfaceEvent::Navigated(Navigation { url: url.as_bytes().to_vec(), body: Vec::new() })
}

fn ended(close_surface: bool, e: AuthError) -> FlowStep {
    FlowStep::Finish { close_surface, result: Err(e) }
}

#[test]
fn redirect_login_yields_the_artifact_and_closes_once() {
    let c = controller();
    let (mut attempt, open) = c.start(SamlBinding::Redirect, b"SAMLRequest=abc", 1000);
    assert_eq!(
        open,
        SurfaceRequest::Navigate { url: b"https://idp.example.com/sso?SAMLRequest=abc".to_vec() }
    );
    assert_eq!(attempt.state, FlowState::Opened);
    assert_eq!(attempt.deadline, 1300);
    let events = [
        visit("https://idp.example.com/login"),
        visit("https://service/callback?artifact=XYZ"),
        visit("https://service/callback?artifact=XYZ"),
        SurfaceEvent::Closed,
    ];
    let mut closes = 0;
    let mut results = Vec::new();
    for (i, e) in events.iter().enumerate() {
        match c.on_event(&mut attempt, e, 1001 + i as u64) {
            FlowStep::Finish { close_surface, result } => {
                if close_surface {
                    closes += 1;
                }
                results.push(result);
            }
            FlowStep::Continue => assert_eq!(i, 0),
            FlowStep::Ignored => assert!(i >= 2),
        }
    }
    assert_eq!(results, vec![Ok(AuthArtifact { value: b"XYZ".to_vec() })]);
    assert_eq!(closes, 1);
    assert_eq!(attempt.state, FlowState::Terminal);
}

#[test]
fn closing_the_surface_cancels() {
    let c = controller();
    let (mut attempt, _) = c.start(SamlBinding::Redirect, b"SAMLRequest=abc", 0);
    assert_eq!(c.on_event(&mut attempt, &visit("https://idp.example.com/login"), 1), FlowStep::Continue);
    assert_eq!(attempt.state, FlowState::Navigating);
    assert_eq!(c.on_event(&mut attempt, &SurfaceEvent::Closed, 2), ended(false, AuthError::Cancelled));
    assert_eq!(attempt.state, FlowState::Cancelled);
    assert_eq!(c.on_event(&mut attempt, &SurfaceEvent::Closed, 3), FlowStep::Ignored);
}

#[test]
fn closing_before_any_navigation_cancels() {
    let c = controller();
    let (mut attempt, _) = c.start(SamlBinding::Post, b"abc", 0);
    assert_eq!(c.on_event(&mut attempt, &SurfaceEvent::Closed, 900), ended(false, AuthError::Cancelled));
}

#[test]
fn attempt_times_out_past_the_deadline() {
    let c = controller();
    let (mut attempt, _) = c.start(SamlBinding::Redirect, b"r", 100);
    assert_eq!(c.on_event(&mut attempt, &SurfaceEvent::Tick, 400), FlowStep::Continue);
    assert_eq!(attempt.state, FlowState::Opened);
    assert_eq!(c.on_event(&mut attempt, &SurfaceEvent::Tick, 401), ended(true, AuthError::Timeout));
    assert_eq!(attempt.state, FlowState::TimedOut);
    assert_eq!(
        c.on_event(&mut attempt, &visit("https://service/callback?artifact=XYZ"), 402),
        FlowStep::Ignored
    );
}

#[test]
fn late_artifact_is_a_timeout() {
    let c = controller();
    let (mut attempt, _) = c.start(SamlBinding::Redirect, b"r", 100);
    assert_eq!(
        c.on_event(&mut attempt, &visit("https://service/callback?artifact=XYZ"), 500),
        ended(true, AuthError::Timeout)
    );
}

#[test]
fn deadline_saturates() {
    let c = controller();
    let (attempt, _) = c.start(SamlBinding::Redirect, b"r", u64::MAX - 5);
    assert_eq!(attempt.deadline, u64::MAX);
}

#[test]
fn provider_refusal_fails_the_attempt() {
    let c = controller();
    let (mut attempt, _) = c.start(SamlBinding::Redirect, b"r", 0);
    assert_eq!(
        c.on_event(&mut attempt, &SurfaceEvent::ProviderError, 1),
        ended(true, AuthError::ProviderRejected)
    );
    assert_eq!(attempt.state, FlowState::Failed);
}

#[test]
fn callback_without_artifact_is_malformed() {
    let c = controller();
    let (mut attempt, _) = c.start(SamlBinding::Redirect, b"r", 0);
    assert_eq!(
        c.on_event(&mut attempt, &visit("https://service/callback?artifact="), 1),
        ended(true, AuthError::MalformedArtifact)
    );
    assert_eq!(attempt.state, FlowState::Failed);
}

#[test]
fn request_joins_an_existing_query() {
    let c = AuthFlowController::new(
        b"https://idp.example.com/sso?tenant=7".to_vec(),
        RedirectRecognizer::new(b"https://service/callback".to_vec(), b"artifact".to_vec()),
        10,
    );
    let (_, open) = c.start(SamlBinding::Redirect, b"SAMLRequest=abc", 0);
    assert_eq!(
        open,
        SurfaceRequest::Navigate {
            url: b"https://idp.example.com/sso?tenant=7&SAMLRequest=abc".to_vec(),
        }
    );
}

#[test]
fn post_binding_builds_an_escaped_form() {
    let c = AuthFlowController::new(
        b"https://idp/sso?a=1&b=2".to_vec(),
        RedirectRecognizer::new(b"https://service/callback".to_vec(), b"artifact".to_vec()),
        10,
    );
    let (attempt, open) = c.start(SamlBinding::Post, b"a\"<b>&c", 0);
    assert_eq!(attempt.binding, SamlBinding::Post);
    let expected = format!(
        "{}https://idp/sso?a=1&amp;b=2{}a&quot;&lt;b&gt;&amp;c{}",
        PAGE_HEAD, PAGE_FIELD, PAGE_TAIL
    );
    assert_eq!(open, SurfaceRequest::Submit { page: expected.into_bytes() });
    assert_eq!(
        PAGE_HEAD,
        "<html><body onload=\"document.forms[0].submit()\"><form method=\"post\" action=\""
    );
}

#[test]
fn post_login_reads_the_artifact_from_the_body() {
    let c = controller();
    let (mut attempt, _) = c.start(SamlBinding::Post, b"abc", 0);
    let landed = SurfaceEvent::Navigated(Navigation {
        url: b"https://service/callback".to_vec(),
        body: b"artifact=XYZ".to_vec(),
    });
    assert_eq!(
        c.on_event(&mut attempt, &landed, 1),
        FlowStep::Finish { close_surface: true, result: Ok(AuthArtifact { value: b"XYZ".to_vec() }) }
    );
}

#[test]
fn attempts_are_independent() {
    let c = controller();
    let (mut first, _) = c.start(SamlBinding::Redirect, b"r", 0);
    let (mut second, _) = c.start(SamlBinding::Redirect, b"r", 0);
    assert_eq!(c.on_event(&mut first, &SurfaceEvent::Closed, 1), ended(false, AuthError::Cancelled));
    assert_eq!(second.state, FlowState::Opened);
    assert_eq!(
        c.on_event(&mut second, &visit("https://service/callback?artifact=Q"), 1),
        FlowStep::Finish { close_surface: true, result: Ok(AuthArtifact { value: b"Q".to_vec() }) }
    );
}
