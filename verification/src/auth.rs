//! One federated login through a disposable browsing surface, as a state
//! machine: the controller says how to open the surface, is told of every
//! navigation, and decides when the attempt is over and with what.

use crate::error::AuthError;
use crate::recognizer::{at_callback, AuthArtifact, Navigation, RedirectRecognizer, SamlBinding};
use vstd::prelude::*;
use vstd::string::StringSliceAdditionalSpecFns;

verus! {

/// How far a login attempt has come. The last four are final.
#[derive(Debug, Clone, Copy, PartialEq, Eq)]
pub enum FlowState {
    Opened,
    Navigating,
    Terminal,
    Cancelled,
    TimedOut,
    Failed,
}

/// What the browsing surface reports.
#[derive(Debug)]
pub enum SurfaceEvent {
    /// The surface went to an address.
    Navigated(Navigation),
    /// The surface shows a page by which the identity provider refuses the
    /// login.
    ProviderError,
    /// The surface was closed from outside.
    Closed,
    /// Time has passed and nothing else happened.
    Tick,
}

/// How the surface is to be opened.
#[derive(Debug, PartialEq, Eq)]
pub enum SurfaceRequest {
    /// Go to this address.
    Navigate { url: Vec<u8> },
    /// Show this page, which submits its form by itself.
    Submit { page: Vec<u8> },
}

/// What the controller makes of an event.
#[derive(Debug, PartialEq, Eq)]
pub enum FlowStep {
    /// The attempt goes on.
    Continue,
    /// The attempt is over: close the surface if told so, and hand on the
    /// result.
    Finish { close_surface: bool, result: Result<AuthArtifact, AuthError> },
    /// The attempt was over before; the event changes nothing.
    Ignored,
}

/// A step with the artifact as plain bytes.
pub enum Verdict {
    Continue,
    Finish { close_surface: bool, result: Result<Seq<u8>, AuthError> },
    Ignored,
}

impl View for FlowStep {
    type V = Verdict;

    open spec fn view(&self) -> Verdict {
        match *self {
            FlowStep::Continue => Verdict::Continue,
            FlowStep::Ignored => Verdict::Ignored,
            FlowStep::Finish { close_surface, result } => Verdict::Finish {
                close_surface,
                result: match result {
                    Ok(a) => Ok(a.value@),
                    Err(e) => Err(e),
                },
            },
        }
    }
}

/// One login attempt: its binding, how far it has come, and the time by
/// which it must be over.
#[derive(Debug)]
pub struct LoginAttempt {
    pub binding: SamlBinding,
    pub state: FlowState,
    pub deadline: u64,
}

/// What every login attempt shares: the identity provider's address, the
/// callback to wait for, and how long an attempt may take.
#[derive(Debug)]
pub struct AuthFlowController {
    pub provider: Vec<u8>,
    pub recognizer: RedirectRecognizer,
    pub limit: u64,
}

pub const PAGE_HEAD: &'static str =
    "<html><body onload=\"document.forms[0].submit()\"><form method=\"post\" action=\"";

pub const PAGE_FIELD: &'static str = "\"><input type=\"hidden\" name=\"SAMLRequest\" value=\"";

pub const PAGE_TAIL: &'static str = "\"/></form></body></html>";

/// An attempt in one of these states is over.
pub open spec fn finished(state: FlowState) -> bool {
    state is Terminal || state is Cancelled || state is TimedOut || state is Failed
}

/// How a byte is written inside a page: `"`, `&`, `<` and `>` by their
/// entities, every other byte as it is.
pub open spec fn escaped_byte(b: u8) -> Seq<u8> {
    if b == 0x22 {
        seq![0x26u8, 0x71u8, 0x75u8, 0x6fu8, 0x74u8, 0x3bu8]
    } else if b == 0x26 {
        seq![0x26u8, 0x61u8, 0x6du8, 0x70u8, 0x3bu8]
    } else if b == 0x3c {
        seq![0x26u8, 0x6cu8, 0x74u8, 0x3bu8]
    } else if b == 0x3e {
        seq![0x26u8, 0x67u8, 0x74u8, 0x3bu8]
    } else {
        seq![b]
    }
}

/// The bytes of `s`, each as it is written inside a page.
pub open spec fn escaped(s: Seq<u8>) -> Seq<u8>
    decreases s.len(),
{
    if s.len() == 0 {
        Seq::empty()
    } else {
        escaped(s.drop_last()) + escaped_byte(s.last())
    }
}

/// The address that carries `request` to the provider as its query: behind
/// a `?`, or behind a `&` where the provider's address has a query already.
pub open spec fn request_url(provider: Seq<u8>, request: Seq<u8>) -> Seq<u8> {
    if provider.contains(0x3fu8) {
        provider + seq![0x26u8] + request
    } else {
        provider + seq![0x3fu8] + request
    }
}

/// The page whose form posts `request` to the provider when it is loaded.
pub open spec fn request_page(provider: Seq<u8>, request: Seq<u8>) -> Seq<u8> {
    PAGE_HEAD.spec_bytes() + escaped(provider) + PAGE_FIELD.spec_bytes() + escaped(request)
        + PAGE_TAIL.spec_bytes()
}

fn append(out: &mut Vec<u8>, more: &[u8])
    ensures
        final(out)@ == old(out)@ + more@,
{
    let ghost before = out@;
    let mut i: usize = 0;
    while i < more.len()
        invariant
            i <= more@.len(),
            out@ == before + more@.take(i as int),
        decreases more@.len() - i,
    {
        out.push(more[i]);
        assert(out@ =~= before + more@.take(i + 1));
        i += 1;
    }
    assert(more@.take(more@.len() as int) =~= more@);
}

fn append_escaped(out: &mut Vec<u8>, more: &[u8])
    ensures
        final(out)@ == old(out)@ + escaped(more@),
{
    let ghost before = out@;
    let mut i: usize = 0;
    assert(out@ =~= before + escaped(more@.take(0)));
    while i < more.len()
        invariant
            i <= more@.len(),
            out@ == before + escaped(more@.take(i as int)),
        decreases more@.len() - i,
    {
        let b: u8 = more[i];
        let ghost held = out@;
        if b == 0x22 {
            out.push(0x26);
            out.push(0x71);
            out.push(0x75);
            out.push(0x6f);
            out.push(0x74);
            out.push(0x3b);
        } else if b == 0x26 {
            out.push(0x26);
            out.push(0x61);
            out.push(0x6d);
            out.push(0x70);
            out.push(0x3b);
        } else if b == 0x3c {
            out.push(0x26);
            out.push(0x6c);
            out.push(0x74);
            out.push(0x3b);
        } else if b == 0x3e {
            out.push(0x26);
            out.push(0x67);
            out.push(0x74);
            out.push(0x3b);
        } else {
            out.push(b);
        }
        proof {
            assert(out@ =~= held + escaped_byte(b));
            assert(more@.take(i + 1).drop_last() =~= more@.take(i as int));
            assert(more@.take(i + 1).last() == b);
            assert(out@ =~= before + escaped(more@.take(i + 1)));
        }
        i += 1;
    }
    assert(more@.take(more@.len() as int) =~= more@);
}

fn has_query(url: &[u8]) -> (r: bool)
    ensures
        r == url@.contains(0x3fu8),
{
    let mut i: usize = 0;
    while i < url.len()
        invariant
            i <= url@.len(),
            forall|j: int| 0 <= j < i ==> url@[j] != 0x3f,
        decreases url@.len() - i,
    {
        if url[i] == 0x3f {
            return true;
        }
        i += 1;
    }
    false
}

impl SurfaceRequest {
    /// The bytes that the surface is opened with.
    pub open spec fn content(self) -> Seq<u8> {
        match self {
            SurfaceRequest::Navigate { url } => url@,
            SurfaceRequest::Submit { page } => page@,
        }
    }
}

impl AuthFlowController {
    /// A controller for logins at `provider` that end at the recognizer's
    /// callback and may take `limit` units of time each.
    pub fn new(provider: Vec<u8>, recognizer: RedirectRecognizer, limit: u64) -> (r:
        AuthFlowController)
        ensures
            r.provider == provider,
            r.recognizer == recognizer,
            r.limit == limit,
    {
        AuthFlowController { provider, recognizer, limit }
    }

    /// What an event does to an attempt in `state`: the state that follows
    /// and the step that is answered. A finished attempt ignores every
    /// event. Closing the surface cancels. Past the deadline the attempt
    /// times out. A page of refusal fails it. A navigation that carries the
    /// artifact ends it well; one to the callback that carries none fails
    /// it as malformed; any other lets it go on.
    pub open spec fn decide(
        self,
        binding: SamlBinding,
        deadline: u64,
        state: FlowState,
        event: SurfaceEvent,
        now: u64,
    ) -> (FlowState, Verdict) {
        if finished(state) {
            (state, Verdict::Ignored)
        } else if event is Closed {
            (
                FlowState::Cancelled,
                Verdict::Finish { close_surface: false, result: Err(AuthError::Cancelled) },
            )
        } else if now > deadline {
            (
                FlowState::TimedOut,
                Verdict::Finish { close_surface: true, result: Err(AuthError::Timeout) },
            )
        } else {
            match event {
                SurfaceEvent::Navigated(nav) => match self.recognizer.artifact_of(binding, nav) {
                    Some(a) => (
                        FlowState::Terminal,
                        Verdict::Finish { close_surface: true, result: Ok(a) },
                    ),
                    None => if at_callback(nav.url@, self.recognizer.callback@) {
                        (
                            FlowState::Failed,
                            Verdict::Finish {
                                close_surface: true,
                                result: Err(AuthError::MalformedArtifact),
                            },
                        )
                    } else {
                        (FlowState::Navigating, Verdict::Continue)
                    },
                },
                SurfaceEvent::ProviderError => (
                    FlowState::Failed,
                    Verdict::Finish {
                        close_surface: true,
                        result: Err(AuthError::ProviderRejected),
                    },
                ),
                _ => (state, Verdict::Continue),
            }
        }
    }

    /// How often the surface is told to close while the events are taken
    /// one after the other, each with its time.
    pub open spec fn closes(
        self,
        binding: SamlBinding,
        deadline: u64,
        state: FlowState,
        events: Seq<(SurfaceEvent, u64)>,
    ) -> nat
        decreases events.len(),
    {
        if events.len() == 0 {
            0
        } else {
            let (next, verdict) = self.decide(binding, deadline, state, events[0].0, events[0].1);
            let here: nat = if verdict matches Verdict::Finish { close_surface: true, .. } {
                1
            } else {
                0
            };
            here + self.closes(binding, deadline, next, events.skip(1))
        }
    }

    /// Begins a login attempt at time `now`. The attempt is `Opened` and
    /// must be over by `now` plus the limit (or by the largest time there
    /// is). For the redirect binding the surface is to go to the provider's
    /// address with the request as its query; for the post binding it is to
    /// show a page that posts the request to the provider.
    pub fn start(&self, binding: SamlBinding, request: &[u8], now: u64) -> (r: (
        LoginAttempt,
        SurfaceRequest,
    ))
        ensures
            r.0.binding == binding,
            r.0.state is Opened,
            r.0.deadline == if now + self.limit > u64::MAX {
                u64::MAX
            } else {
                (now + self.limit) as u64
            },
            match binding {
                SamlBinding::Redirect => r.1 is Navigate && r.1.content() == request_url(
                    self.provider@,
                    request@,
                ),
                SamlBinding::Post => r.1 is Submit && r.1.content() == request_page(
                    self.provider@,
                    request@,
                ),
            },
    {
        let deadline: u64 = if now > u64::MAX - self.limit {
            u64::MAX
        } else {
            now + self.limit
        };
        let attempt = LoginAttempt { binding, state: FlowState::Opened, deadline };
        let mut out: Vec<u8> = Vec::new();
        let order = match binding {
            SamlBinding::Redirect => {
                append(&mut out, self.provider.as_slice());
                if has_query(self.provider.as_slice()) {
                    out.push(0x26);
                } else {
                    out.push(0x3f);
                }
                append(&mut out, request);
                assert(out@ =~= request_url(self.provider@, request@));
                SurfaceRequest::Navigate { url: out }
            },
            SamlBinding::Post => {
                append(&mut out, PAGE_HEAD.as_bytes());
                append_escaped(&mut out, self.provider.as_slice());
                append(&mut out, PAGE_FIELD.as_bytes());
                append_escaped(&mut out, request);
                append(&mut out, PAGE_TAIL.as_bytes());
                assert(out@ =~= request_page(self.provider@, request@));
                SurfaceRequest::Submit { page: out }
            },
        };
        (attempt, order)
    }

    /// Takes one event of the attempt's surface at time `now` and says what
    /// follows, as `decide` states it.
    pub fn on_event(&self, attempt: &mut LoginAttempt, event: &SurfaceEvent, now: u64) -> (r:
        FlowStep)
        ensures
            final(attempt).binding == old(attempt).binding,
            final(attempt).deadline == old(attempt).deadline,
            (final(attempt).state, r@) == self.decide(
                old(attempt).binding,
                old(attempt).deadline,
                old(attempt).state,
                *event,
                now,
            ),
    {
        match attempt.state {
            FlowState::Opened => {},
            FlowState::Navigating => {},
            _ => {
                return FlowStep::Ignored;
            },
        }
        if let SurfaceEvent::Closed = event {
            attempt.state = FlowState::Cancelled;
            return FlowStep::Finish { close_surface: false, result: Err(AuthError::Cancelled) };
        }
        if now > attempt.deadline {
            attempt.state = FlowState::TimedOut;
            return FlowStep::Finish { close_surface: true, result: Err(AuthError::Timeout) };
        }
        match event {
            SurfaceEvent::Navigated(nav) => {
                match self.recognizer.is_terminal(attempt.binding, nav) {
                    Some(artifact) => {
                        attempt.state = FlowState::Terminal;
                        FlowStep::Finish { close_surface: true, result: Ok(artifact) }
                    },
                    None => {
                        if self.recognizer.matches_callback(nav.url.as_slice()) {
                            attempt.state = FlowState::Failed;
                            FlowStep::Finish {
                                close_surface: true,
                                result: Err(AuthError::MalformedArtifact),
                            }
                        } else {
                            attempt.state = FlowState::Navigating;
                            FlowStep::Continue
                        }
                    },
                }
            },
            SurfaceEvent::ProviderError => {
                attempt.state = FlowState::Failed;
                FlowStep::Finish { close_surface: true, result: Err(AuthError::ProviderRejected) }
            },
            _ => FlowStep::Continue,
        }
    }
}

/// A step that finishes an attempt leaves it in a final state, a step that
/// lets it go on does not, and a finished attempt ignores every event and
/// stays as it is.
pub proof fn lemma_finish_is_final(
    c: AuthFlowController,
    binding: SamlBinding,
    deadline: u64,
    state: FlowState,
    event: SurfaceEvent,
    now: u64,
)
    ensures
        finished(state) ==> c.decide(binding, deadline, state, event, now) == (
            state,
            Verdict::Ignored,
        ),
        c.decide(binding, deadline, state, event, now).1 is Finish ==> finished(
            c.decide(binding, deadline, state, event, now).0,
        ),
        c.decide(binding, deadline, state, event, now).1 is Continue ==> !finished(
            c.decide(binding, deadline, state, event, now).0,
        ),
{
}

/// Whatever the surface reports and in whatever order, it is told to close
/// at most once; once the attempt is over, never again.
pub proof fn lemma_surface_closed_at_most_once(
    c: AuthFlowController,
    binding: SamlBinding,
    deadline: u64,
    state: FlowState,
    events: Seq<(SurfaceEvent, u64)>,
)
    ensures
        c.closes(binding, deadline, state, events) <= 1,
        finished(state) ==> c.closes(binding, deadline, state, events) == 0,
    decreases events.len(),
{
    if events.len() > 0 {
        let next = c.decide(binding, deadline, state, events[0].0, events[0].1).0;
        lemma_finish_is_final(c, binding, deadline, state, events[0].0, events[0].1);
        lemma_surface_closed_at_most_once(c, binding, deadline, next, events.skip(1));
    }
}

} // verus!
