//! One connection of the client, from its first step to its end.

use vstd::prelude::*;

use super::backoff::ConnectOutcome;
use super::client::{
    after_login, fatal_reason, finish_connection, finish_login, is_fatal, login_metrics,
    ClientState, ClientStateView, LoginAnswer, LoginOutcome, RegisterOutcome, RegisterPass,
};
use super::metrics::ClientMetrics;
use crate::config::ClientConfig;

verus! {

/// What a connection is busy with.
#[derive(Clone, Copy, Debug, PartialEq, Eq, Structural)]
pub enum Stage {
    /// The server's name is being resolved.
    Resolving,
    /// The server is being connected.
    Connecting,
    /// The TLS handshake is being done.
    Securing,
    /// The answer to the login is waited for.
    LoggingIn,
    /// Proxies are being registered.
    Registering,
    /// The control connection is served.
    Running,
    /// Nothing any more.
    Over,
}

/// What came of it.
pub enum AttemptEvent {
    /// It succeeded.
    Done,
    /// It failed or took too long.
    Failed,
    /// The TLS handshake was rejected, for this reason.
    TlsRejected(String),
    /// The login was answered so.
    Answered(LoginAnswer),
    /// The registration of the current proxy ended so.
    Registered(RegisterOutcome),
    /// The control connection ended.
    Ended,
}

/// What is to be done next.
pub enum AttemptAction {
    /// Connect to the server.
    Connect,
    /// Do the TLS handshake.
    Handshake,
    /// Log in and wait for the answer.
    Login,
    /// Register this proxy, by its place in the state.
    Register(usize),
    /// Serve the control connection; `retry` where proxies are to be tried again
    /// meanwhile.
    Run { retry: bool },
    /// Nothing any more; this is how it ended.
    Finish(ConnectOutcome),
}

/// One connection.
pub struct Attempt {
    /// What it is busy with.
    pub stage: Stage,
    /// The proxy that is being registered.
    pub at: usize,
    /// Those that are to be tried again.
    pub pass: RegisterPass,
}

/// What an [`Attempt`] stands for.
pub struct AttemptView {
    pub stage: Stage,
    pub at: int,
    pub retryable: Seq<usize>,
    pub persistent: Seq<usize>,
}

impl View for Attempt {
    type V = AttemptView;

    open spec fn view(&self) -> AttemptView {
        AttemptView {
            stage: self.stage,
            at: self.at as int,
            retryable: self.pass.retryable@,
            persistent: self.pass.persistent@,
        }
    }
}

impl AttemptView {
    /// Whether the event is one that can come, with `n` proxies to register.
    pub open spec fn expects(self, event: AttemptEvent, n: nat) -> bool {
        match self.stage {
            Stage::Resolving | Stage::Connecting => event is Done || event is Failed,
            Stage::Securing => event is Done || event is Failed || event is TlsRejected,
            Stage::LoggingIn => event is Answered && self.at == 0,
            Stage::Registering => event is Registered && 0 <= self.at < n,
            Stage::Running => event is Ended,
            Stage::Over => false,
        }
    }

    /// The same connection, busy with something else.
    pub open spec fn busy(self, stage: Stage) -> AttemptView {
        AttemptView { stage, ..self }
    }

    /// After the current proxy was registered with this outcome.
    pub open spec fn noted(self, outcome: RegisterOutcome) -> AttemptView {
        AttemptView {
            at: self.at + 1,
            retryable: if outcome == RegisterOutcome::Retryable {
                self.retryable.push(self.at as usize)
            } else {
                self.retryable
            },
            persistent: if outcome == RegisterOutcome::Persistent {
                self.persistent.push(self.at as usize)
            } else {
                self.persistent
            },
            ..self
        }
    }

    /// Whether proxies are to be tried again.
    pub open spec fn retries(self) -> bool {
        self.retryable.len() > 0 || self.persistent.len() > 0
    }
}

/// How the connection goes on after an event; `tls` says whether the control
/// connection uses TLS, and `n` how many proxies there are.
pub open spec fn attempt_step(
    a: AttemptView,
    event: AttemptEvent,
    tls: bool,
    n: nat,
    next: AttemptView,
    action: AttemptAction,
) -> bool {
    match (a.stage, event) {
        (Stage::Resolving, AttemptEvent::Done) => action is Connect && next == a.busy(
            Stage::Connecting,
        ),
        (Stage::Connecting, AttemptEvent::Done) => if tls {
            action is Handshake && next == a.busy(Stage::Securing)
        } else {
            action is Login && next == a.busy(Stage::LoggingIn)
        },
        (Stage::Securing, AttemptEvent::Done) => action is Login && next == a.busy(
            Stage::LoggingIn,
        ),
        (_, AttemptEvent::TlsRejected(reason)) => action == AttemptAction::Finish(
            ConnectOutcome::Fatal(reason),
        ) && next == a.busy(Stage::Over),
        (_, AttemptEvent::Answered(LoginAnswer::Came(resp))) => if resp.ok {
            if n > 0 {
                action == AttemptAction::Register(0) && next == a.busy(Stage::Registering)
            } else {
                action == (AttemptAction::Run { retry: a.retries() }) && next == a.busy(
                    Stage::Running,
                )
            }
        } else if is_fatal(resp.error.deep_view()) {
            action matches AttemptAction::Finish(ConnectOutcome::Fatal(reason)) && reason@
                == fatal_reason(resp.error.deep_view()) && next == a.busy(Stage::Over)
        } else {
            action == AttemptAction::Finish(ConnectOutcome::Reconnect { connected: false }) && next
                == a.busy(Stage::Over)
        },
        (_, AttemptEvent::Answered(_)) => action == AttemptAction::Finish(
            ConnectOutcome::Reconnect { connected: false },
        ) && next == a.busy(Stage::Over),
        (_, AttemptEvent::Registered(RegisterOutcome::ConnLost)) => action
            == AttemptAction::Finish(ConnectOutcome::Failed) && next == a.busy(Stage::Over),
        (_, AttemptEvent::Registered(outcome)) => {
            let noted = a.noted(outcome);
            if noted.at < n {
                action == AttemptAction::Register(noted.at as usize) && next == noted
            } else {
                action == (AttemptAction::Run { retry: noted.retries() }) && next == noted.busy(
                    Stage::Running,
                )
            }
        },
        (_, AttemptEvent::Ended) => action == AttemptAction::Finish(
            ConnectOutcome::Reconnect { connected: true },
        ) && next == a.busy(Stage::Over),
        _ => action == AttemptAction::Finish(ConnectOutcome::Failed) && next == a.busy(Stage::Over),
    }
}

impl Attempt {
    /// A connection that begins: the server's name is to be resolved.
    pub fn new() -> (r: Attempt)
        ensures
            r@ == (AttemptView {
                stage: Stage::Resolving,
                at: 0,
                retryable: Seq::empty(),
                persistent: Seq::empty(),
            }),
    {
        Attempt { stage: Stage::Resolving, at: 0, pass: RegisterPass::new() }
    }

    /// One step of the connection.
    pub fn connect_once(
        &mut self,
        state: &mut ClientState,
        config: &ClientConfig,
        metrics: &mut ClientMetrics,
        event: AttemptEvent,
    ) -> (r: AttemptAction)
        requires
            old(self)@.expects(event, old(state).proxies.entries().len()),
        ensures
            attempt_step(
                old(self)@,
                event,
                config.client.tls_enable,
                old(state).proxies.entries().len(),
                final(self)@,
                r,
            ),
            final(state)@ == attempt_state(old(state)@, event, config.client.work_conn_tls),
            final(state)@ == (match event {
                AttemptEvent::Answered(answer) => after_login(
                    old(state)@,
                    answer,
                    config.client.work_conn_tls,
                ),
                AttemptEvent::Ended => ClientStateView { resps: Map::empty(), ..old(state)@ },
                _ => old(state)@,
            }),
            final(state).proxies == old(state).proxies,
            *final(metrics) == attempt_metrics(*old(metrics), event),
    {
        let n: usize = state.proxies.len();
        match event {
            AttemptEvent::Done => match self.stage {
                Stage::Resolving => {
                    self.stage = Stage::Connecting;
                    AttemptAction::Connect
                },
                Stage::Connecting => {
                    if config.client.tls_enable {
                        self.stage = Stage::Securing;
                        AttemptAction::Handshake
                    } else {
                        self.stage = Stage::LoggingIn;
                        AttemptAction::Login
                    }
                },
                _ => {
                    self.stage = Stage::LoggingIn;
                    AttemptAction::Login
                },
            },
            AttemptEvent::Failed => {
                self.stage = Stage::Over;
                AttemptAction::Finish(ConnectOutcome::Failed)
            },
            AttemptEvent::TlsRejected(reason) => {
                self.stage = Stage::Over;
                AttemptAction::Finish(ConnectOutcome::Fatal(reason))
            },
            AttemptEvent::Answered(answer) => match finish_login(state, config, answer, metrics) {
                LoginOutcome::LoggedIn => {
                    if n > 0 {
                        self.stage = Stage::Registering;
                        AttemptAction::Register(0)
                    } else {
                        self.stage = Stage::Running;
                        AttemptAction::Run { retry: self.retries() }
                    }
                },
                LoginOutcome::Fatal(reason) => {
                    self.stage = Stage::Over;
                    AttemptAction::Finish(ConnectOutcome::Fatal(reason))
                },
                LoginOutcome::Retry => {
                    self.stage = Stage::Over;
                    AttemptAction::Finish(ConnectOutcome::Reconnect { connected: false })
                },
            },
            AttemptEvent::Registered(outcome) => {
                if self.pass.note(self.at, outcome).is_err() {
                    metrics.set_connected(false);
                    self.stage = Stage::Over;
                    return AttemptAction::Finish(ConnectOutcome::Failed);
                }
                self.at = self.at + 1;
                if self.at < n {
                    AttemptAction::Register(self.at)
                } else {
                    self.stage = Stage::Running;
                    AttemptAction::Run { retry: self.retries() }
                }
            },
            AttemptEvent::Ended => {
                finish_connection(state, metrics);
                self.stage = Stage::Over;
                AttemptAction::Finish(ConnectOutcome::Reconnect { connected: true })
            },
        }
    }

    /// Whether proxies are to be tried again.
    fn retries(&self) -> (r: bool)
        ensures
            r == self@.retries(),
    {
        self.pass.retryable.len() > 0 || self.pass.persistent.len() > 0
    }
}

/// The state after an event of a connection; `tls` is the client's own choice of TLS for
/// work connections.
pub open spec fn attempt_state(
    v: ClientStateView,
    event: AttemptEvent,
    tls: bool,
) -> ClientStateView {
    match event {
        AttemptEvent::Answered(answer) => after_login(v, answer, tls),
        AttemptEvent::Ended => ClientStateView { resps: Map::empty(), ..v },
        _ => v,
    }
}

/// The counters after an event of a connection.
pub open spec fn attempt_metrics(m: ClientMetrics, event: AttemptEvent) -> ClientMetrics {
    match event {
        AttemptEvent::Answered(answer) => login_metrics(m, answer),
        AttemptEvent::Registered(RegisterOutcome::ConnLost) | AttemptEvent::Ended =>
            ClientMetrics { connected: false, ..m },
        _ => m,
    }
}

/// The client counts as connected exactly while its control connection is logged in:
/// from the login until the connection is over, however it ends.
pub proof fn law_connected_while_logged_in(
    a: AttemptView,
    event: AttemptEvent,
    tls: bool,
    n: nat,
    next: AttemptView,
    action: AttemptAction,
    m: ClientMetrics,
)
    requires
        a.expects(event, n),
        attempt_step(a, event, tls, n, next, action),
        m.connected <==> a.stage == Stage::Registering || a.stage == Stage::Running,
    ensures
        attempt_metrics(m, event).connected <==> next.stage == Stage::Registering || next.stage
            == Stage::Running,
        action is Finish ==> !attempt_metrics(m, event).connected,
{
}

/// No proxy is registered before the login has been accepted.
pub proof fn law_registers_after_login(
    a: AttemptView,
    event: AttemptEvent,
    tls: bool,
    n: nat,
    next: AttemptView,
    action: AttemptAction,
)
    requires
        a.expects(event, n),
        attempt_step(a, event, tls, n, next, action),
        action is Register,
    ensures
        a.stage == Stage::Registering || (event matches AttemptEvent::Answered(
            LoginAnswer::Came(resp),
        ) && resp.ok),
{
}

/// Proxies are registered one after the other, each once: the next one is the one
/// behind the current, and the control connection is served on when none is left.
pub proof fn law_registers_each_once(
    a: AttemptView,
    outcome: RegisterOutcome,
    tls: bool,
    n: nat,
    next: AttemptView,
    action: AttemptAction,
)
    requires
        n <= usize::MAX,
        a.stage == Stage::Registering,
        a.expects(AttemptEvent::Registered(outcome), n),
        attempt_step(a, AttemptEvent::Registered(outcome), tls, n, next, action),
        outcome != RegisterOutcome::ConnLost,
    ensures
        next.at == a.at + 1,
        a.at + 1 < n ==> action == AttemptAction::Register((a.at + 1) as usize) && next.stage
            == Stage::Registering,
        a.at + 1 == n ==> action is Run && next.stage == Stage::Running,
{
}

/// Where the control connection uses TLS, no login is sent before the handshake.
pub proof fn law_login_after_handshake(
    a: AttemptView,
    event: AttemptEvent,
    n: nat,
    next: AttemptView,
    action: AttemptAction,
)
    requires
        a.expects(event, n),
        attempt_step(a, event, true, n, next, action),
        action is Login,
    ensures
        a.stage == Stage::Securing,
{
}

/// Where all succeeds, a connection goes all the way: the server is resolved and
/// connected, secured where the control connection uses TLS, the client logs in,
/// registers each of its proxies, and serves the control connection.
pub proof fn law_connection_succeeds(
    a: AttemptView,
    event: AttemptEvent,
    tls: bool,
    n: nat,
    next: AttemptView,
    action: AttemptAction,
)
    requires
        n <= usize::MAX,
        a.expects(event, n),
        attempt_step(a, event, tls, n, next, action),
        event is Done || (event matches AttemptEvent::Answered(LoginAnswer::Came(resp))
            && resp.ok) || event == AttemptEvent::Registered(RegisterOutcome::Done),
    ensures
        !(action is Finish) && next.stage != Stage::Over,
        a.stage == Stage::Resolving ==> action is Connect && next.stage == Stage::Connecting,
        a.stage == Stage::Connecting && tls ==> action is Handshake && next.stage
            == Stage::Securing,
        a.stage == Stage::Connecting && !tls ==> action is Login && next.stage
            == Stage::LoggingIn,
        a.stage == Stage::Securing ==> action is Login && next.stage == Stage::LoggingIn,
        a.stage == Stage::LoggingIn && n > 0 ==> action == AttemptAction::Register(0)
            && next.stage == Stage::Registering,
        a.stage == Stage::LoggingIn && n == 0 ==> action is Run && next.stage == Stage::Running,
        a.stage == Stage::Registering ==> next.retryable == a.retryable && next.persistent
            == a.persistent,
{
}

/// How a connection ends: a login that is refused for good, or a rejected handshake, is
/// fatal with its reason; one that is refused for now or not answered is tried again; a
/// connection that was served is tried again as one that had been logged in; anything
/// else has failed.
pub proof fn law_connection_ends(
    a: AttemptView,
    event: AttemptEvent,
    tls: bool,
    n: nat,
    next: AttemptView,
    action: AttemptAction,
)
    requires
        a.expects(event, n),
        attempt_step(a, event, tls, n, next, action),
    ensures
        event is Failed || event == AttemptEvent::Registered(RegisterOutcome::ConnLost) ==> action
            == AttemptAction::Finish(ConnectOutcome::Failed),
        event matches AttemptEvent::TlsRejected(reason) ==> action == AttemptAction::Finish(
            ConnectOutcome::Fatal(reason),
        ),
        event is Ended ==> action == AttemptAction::Finish(
            ConnectOutcome::Reconnect { connected: true },
        ),
        event matches AttemptEvent::Answered(LoginAnswer::Came(resp)) ==> !resp.ok ==> if is_fatal(
            resp.error.deep_view(),
        ) {
            action matches AttemptAction::Finish(ConnectOutcome::Fatal(reason)) && (
            resp.error.deep_view() matches Some(e) ==> reason@ == e)
        } else {
            action == AttemptAction::Finish(ConnectOutcome::Reconnect { connected: false })
        },
        event matches AttemptEvent::Answered(answer) && !(answer is Came) ==> action
            == AttemptAction::Finish(ConnectOutcome::Reconnect { connected: false }),
        action is Finish ==> next.stage == Stage::Over,
{
}

/// A proxy that was refused for a conflict, or for what a change at the server can cure,
/// is tried again later, and so is no other; the connection is served with retries
/// exactly where there is one.
pub proof fn law_refused_proxies_are_kept(
    a: AttemptView,
    outcome: RegisterOutcome,
    tls: bool,
    n: nat,
    next: AttemptView,
    action: AttemptAction,
)
    requires
        n <= usize::MAX,
        a.expects(AttemptEvent::Registered(outcome), n),
        attempt_step(a, AttemptEvent::Registered(outcome), tls, n, next, action),
        outcome != RegisterOutcome::ConnLost,
    ensures
        next.retryable == (if outcome == RegisterOutcome::Retryable {
            a.retryable.push(a.at as usize)
        } else {
            a.retryable
        }),
        next.persistent == (if outcome == RegisterOutcome::Persistent {
            a.persistent.push(a.at as usize)
        } else {
            a.persistent
        }),
        action matches AttemptAction::Run { retry } ==> retry == (next.retryable.len() > 0
            || next.persistent.len() > 0),
{
}

/// When a connection has ended no one waits for an answer any more; only the answer to the
/// login sets what work connections present, and nothing else changes the state.
pub proof fn law_connection_keeps_state(v: ClientStateView, event: AttemptEvent, tls: bool)
    ensures
        ({
            let w = attempt_state(v, event, tls);
            &&& event is Ended ==> w.resps == Map::<Seq<char>, u64>::empty() && w.work_conn_token
                == v.work_conn_token
            &&& !(event is Ended) && !(event is Answered) ==> w == v
            &&& event matches AttemptEvent::Answered(LoginAnswer::Came(resp)) ==> resp.ok
                ==> w.work_conn_token == resp.work_conn_token.deep_view() && (
            resp.work_conn_tls matches Some(t) ==> w.work_conn_tls == t)
            &&& w.proxies == v.proxies && w.run_id == v.run_id && w.server_addr == v.server_addr
        }),
{
}

} // verus!
