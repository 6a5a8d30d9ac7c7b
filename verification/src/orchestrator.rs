use vstd::prelude::*;
use vstd::utf8::encode_utf8;

use crate::config::{bind_addr, AppConfig, BindAddr, TlsSettings};
use crate::errors::ServerError;
use crate::parse::{host_matches, valid_host_literal};
use crate::registry::RouteEntry;

verus! {

/// The phases a run of the server moves through, in order; a fatal error
/// before serving jumps straight to Stopped.
#[derive(Clone, Copy, Debug, PartialEq, Eq)]
pub enum Phase {
    Idle,
    HealthStarting,
    Serving,
    ShuttingDown,
    Stopped,
}

/// What the run loop observes between decisions.
#[derive(Clone, Copy, Debug, PartialEq, Eq)]
pub enum Event {
    /// The run entry point was invoked and the bind address validated.
    Launch,
    /// The main listener is constructed and about to accept.
    ListenerReady,
    /// The main listener could not be constructed.
    ListenerFailed(ServerError),
    /// The health listener could not be bound; best-effort, never fatal.
    HealthBindFailed,
    /// A registered termination signal arrived.
    Signal,
    /// The graceful drain of in-flight requests has finished.
    DrainComplete,
}

/// What the run loop must do after a decision.
#[derive(Clone, Copy, Debug, PartialEq, Eq)]
pub enum Action {
    /// Spawn the health sub-server as an independent task.
    SpawnHealth,
    /// Begin accepting and dispatching requests on the main listener.
    BeginServe,
    /// Log the event and carry on unchanged.
    LogWarning,
    /// Stop accepting new connections and drain in-flight requests.
    BeginDrain,
    /// Cancel the health task and return to the caller.
    CancelHealth,
    /// Surface the fatal error to the caller.
    Fail(ServerError),
    /// Nothing to do.
    Ignore,
}

/// The orchestrator's state: its phase, the process-wide readiness flag,
/// whether the health task has been explicitly cancelled, and the fatal
/// error of a failed run.
#[derive(Debug)]
pub struct Orchestrator {
    pub phase: Phase,
    pub ready: bool,
    pub health_cancelled: bool,
    pub outcome: Option<ServerError>,
}

impl Orchestrator {
    /// The state a run starts from: idle, not ready, nothing cancelled,
    /// no error.
    pub open spec fn init() -> Orchestrator {
        Orchestrator { phase: Phase::Idle, ready: false, health_cancelled: false, outcome: None }
    }

    /// What holds of every reachable state: readiness is set exactly in
    /// the serving and draining phases, the health task outlives the
    /// drain, and a recorded fatal error means the run stopped without
    /// ever becoming ready.
    pub open spec fn wf(self) -> bool {
        &&& (self.phase is Idle ==> !self.ready && !self.health_cancelled && self.outcome is None)
        &&& (self.phase is HealthStarting ==> !self.ready && !self.health_cancelled
            && self.outcome is None)
        &&& (self.phase is Serving ==> self.ready && !self.health_cancelled
            && self.outcome is None)
        &&& (self.phase is ShuttingDown ==> self.ready && !self.health_cancelled
            && self.outcome is None)
        &&& (self.outcome is Some ==> self.phase is Stopped && !self.ready)
    }

    pub fn new() -> (r: Orchestrator)
        ensures
            r == Orchestrator::init(),
    {
        Orchestrator { phase: Phase::Idle, ready: false, health_cancelled: false, outcome: None }
    }

    /// Feed one observed event to the orchestrator and learn what to do.
    pub fn step(&mut self, e: Event) -> (a: Action)
        ensures
            *final(self) == spec_step(*old(self), e).0,
            a == spec_step(*old(self), e).1,
    {
        match (self.phase, e) {
            (Phase::Idle, Event::Launch) => {
                self.phase = Phase::HealthStarting;
                Action::SpawnHealth
            },
            (Phase::HealthStarting, Event::ListenerReady) => {
                self.phase = Phase::Serving;
                self.ready = true;
                Action::BeginServe
            },
            (Phase::HealthStarting, Event::ListenerFailed(err)) => {
                self.phase = Phase::Stopped;
                self.outcome = Some(err);
                Action::Fail(err)
            },
            (Phase::Serving, Event::Signal) => {
                self.phase = Phase::ShuttingDown;
                Action::BeginDrain
            },
            (Phase::ShuttingDown, Event::DrainComplete) => {
                self.phase = Phase::Stopped;
                self.health_cancelled = true;
                Action::CancelHealth
            },
            (_, Event::HealthBindFailed) => Action::LogWarning,
            _ => Action::Ignore,
        }
    }
}

/// The transition relation of the orchestrator, one event at a time.
/// A termination signal matters only in Serving; a failed listener is
/// fatal only before serving; a health bind failure is never fatal; the
/// Stopped phase absorbs everything.
pub open spec fn spec_step(s: Orchestrator, e: Event) -> (Orchestrator, Action) {
    match (s.phase, e) {
        (Phase::Idle, Event::Launch) => (
            Orchestrator { phase: Phase::HealthStarting, ..s },
            Action::SpawnHealth,
        ),
        (Phase::HealthStarting, Event::ListenerReady) => (
            Orchestrator { phase: Phase::Serving, ready: true, ..s },
            Action::BeginServe,
        ),
        (Phase::HealthStarting, Event::ListenerFailed(err)) => (
            Orchestrator { phase: Phase::Stopped, outcome: Some(err), ..s },
            Action::Fail(err),
        ),
        (Phase::Serving, Event::Signal) => (
            Orchestrator { phase: Phase::ShuttingDown, ..s },
            Action::BeginDrain,
        ),
        (Phase::ShuttingDown, Event::DrainComplete) => (
            Orchestrator { phase: Phase::Stopped, health_cancelled: true, ..s },
            Action::CancelHealth,
        ),
        (_, Event::HealthBindFailed) => (s, Action::LogWarning),
        _ => (s, Action::Ignore),
    }
}

/// The initial state is well formed.
pub proof fn lemma_init_wf()
    ensures
        Orchestrator::init().wf(),
{
}

/// Every step taken from a well-formed state lands in a well-formed
/// state: the invariants above hold of every reachable state of a run.
pub proof fn lemma_step_preserves_wf(s: Orchestrator, e: Event)
    requires
        s.wf(),
    ensures
        spec_step(s, e).0.wf(),
{
}

/// Readiness reflects the phase exactly: the readiness endpoint reports
/// "starting" before the main listener is prepared, and "ok" from the
/// moment serving begins through the drain.
pub proof fn lemma_readiness_reflects_phase(s: Orchestrator)
    requires
        s.wf(),
    ensures
        s.phase is Serving || s.phase is ShuttingDown ==> s.ready,
        s.phase is Idle || s.phase is HealthStarting ==> !s.ready,
{
}

/// The health task is cancelled only by the explicit cancellation that
/// ends the drain; in every earlier phase, the drain included, it is
/// still running and the liveness endpoint keeps answering.
pub proof fn lemma_health_alive_through_drain(s: Orchestrator, e: Event)
    requires
        s.wf(),
        !s.health_cancelled,
        spec_step(s, e).0.health_cancelled,
    ensures
        s.phase is ShuttingDown,
        e is DrainComplete,
        spec_step(s, e).1 is CancelHealth,
{
}

/// The readiness flag is set on exactly one transition: the one that
/// begins serving, with the main listener already constructed. No
/// earlier step can make the readiness endpoint report "ok".
pub proof fn lemma_ready_set_only_when_serving(s: Orchestrator, e: Event)
    requires
        s.wf(),
        !s.ready,
        spec_step(s, e).0.ready,
    ensures
        s.phase is HealthStarting,
        e is ListenerReady,
        spec_step(s, e).0.phase is Serving,
        spec_step(s, e).1 is BeginServe,
{
}

/// A listener that cannot be constructed stops the run with its error
/// surfaced, and the readiness flag is never set on that path.
pub proof fn lemma_failure_never_ready(s: Orchestrator, err: ServerError)
    requires
        s.wf(),
        s.phase is HealthStarting,
    ensures
        spec_step(s, Event::ListenerFailed(err)).0.phase is Stopped,
        spec_step(s, Event::ListenerFailed(err)).0.outcome == Some(err),
        !spec_step(s, Event::ListenerFailed(err)).0.ready,
        spec_step(s, Event::ListenerFailed(err)).1 == Action::Fail(err),
{
}

/// One termination signal is enough: it begins the drain, and a second
/// signal during the drain changes nothing and triggers no second stop.
pub proof fn lemma_second_signal_ignored(s: Orchestrator)
    requires
        s.wf(),
        s.phase is Serving,
    ensures
        ({
            let (s1, a1) = spec_step(s, Event::Signal);
            let (s2, a2) = spec_step(s1, Event::Signal);
            &&& s1.phase is ShuttingDown
            &&& a1 is BeginDrain
            &&& s2 == s1
            &&& a2 is Ignore
        }),
{
}

/// How the main listener is to be made: plain, or TLS with the
/// configured material.
#[derive(Debug)]
pub enum ListenerPlan {
    Plain(BindAddr),
    Tls(BindAddr, TlsSettings),
}

/// Validate the bind address and pick the listener kind. A malformed
/// host is rejected here, before any listener is touched; TLS is chosen
/// exactly when the configuration carries TLS settings.
pub fn plan_listener(cfg: &AppConfig) -> (r: Result<ListenerPlan, ServerError>)
    ensures
        r is Ok <==> valid_host_literal(encode_utf8(cfg.host@)),
        r is Err ==> r->Err_0 is AddressParse,
        r is Ok ==> match r->Ok_0 {
            ListenerPlan::Plain(addr) => {
                &&& cfg.tls is None
                &&& host_matches(addr.host, encode_utf8(cfg.host@))
                &&& addr.port == cfg.port
            },
            ListenerPlan::Tls(addr, tls) => {
                &&& cfg.tls is Some
                &&& tls.cert_path@ == cfg.tls->0.cert_path@
                &&& tls.key_path@ == cfg.tls->0.key_path@
                &&& host_matches(addr.host, encode_utf8(cfg.host@))
                &&& addr.port == cfg.port
            },
        },
{
    let addr = match bind_addr(cfg) {
        Ok(a) => a,
        Err(e) => {
            return Err(e);
        },
    };
    match &cfg.tls {
        Some(tls) => Ok(
            ListenerPlan::Tls(
                addr,
                TlsSettings {
                    cert_path: tls.cert_path.clone(),
                    key_path: tls.key_path.clone(),
                },
            ),
        ),
        None => Ok(ListenerPlan::Plain(addr)),
    }
}

/// The embedding caller's server: the loaded configuration and the route
/// snapshot it will serve.
#[derive(Debug)]
pub struct WebServer {
    pub cfg: AppConfig,
    pub router: Vec<RouteEntry>,
}

impl WebServer {
    pub fn new(router: Vec<RouteEntry>, cfg: AppConfig) -> (r: WebServer)
        ensures
            r.router == router,
            r.cfg == cfg,
    {
        WebServer { cfg, router }
    }
}

} // verus!
