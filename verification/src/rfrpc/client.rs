//! The client: login, registration of proxies, and what is tried again.

use vstd::prelude::*;

use super::metrics::{fresh_metrics, ClientMetrics};
use crate::addr::PeerAddr;
use crate::config::{copy_domains, ClientConfig, ClientProxy, ClientProxyView, ClientSection};
use crate::counter::wrapped_sum;
use crate::limits::WORK_ID_POOL_RESERVED;
use crate::msg::{
    LoginResp, NewProxy, NewProxyResp, NewProxyView, ProxyError, ReqWorkConn,
};
use crate::table::Table;
use crate::text::{contains, copy_optional, fold_case, folded, has_part, starts_with, to_chars};

verus! {

/// State of one connection of the client.
pub struct ClientState {
    /// The server.
    pub server_addr: PeerAddr,
    /// Identity of the client.
    pub run_id: String,
    /// Its proxies, by name.
    pub proxies: Table<String, ClientProxy>,
    /// Who waits for the answer to the registration of a proxy.
    pub resps: Table<String, u64>,
    /// Who waits for the answer to the login.
    pub login_tx: Option<u64>,
    /// Whether TLS can be used.
    pub has_tls: bool,
    /// Whether work connections use TLS.
    pub work_conn_tls: bool,
    /// What work connections must present.
    pub work_conn_token: Option<String>,
}

/// What a [`ClientState`] stands for.
#[verifier::ext_equal]
pub struct ClientStateView {
    pub server_addr: PeerAddr,
    pub run_id: Seq<char>,
    pub proxies: Map<Seq<char>, ClientProxyView>,
    pub resps: Map<Seq<char>, u64>,
    pub login_tx: Option<u64>,
    pub has_tls: bool,
    pub work_conn_tls: bool,
    pub work_conn_token: Option<Seq<char>>,
}

impl View for ClientState {
    type V = ClientStateView;

    open spec fn view(&self) -> ClientStateView {
        ClientStateView {
            server_addr: self.server_addr,
            run_id: self.run_id@,
            proxies: self.proxies@,
            resps: self.resps@,
            login_tx: self.login_tx,
            has_tls: self.has_tls,
            work_conn_tls: self.work_conn_tls,
            work_conn_token: self.work_conn_token.deep_view(),
        }
    }
}

/// The proxies of a list, by name; of two with one name, the later.
pub open spec fn by_name(list: Seq<ClientProxyView>) -> Map<Seq<char>, ClientProxyView>
    decreases list.len(),
{
    if list.len() == 0 {
        Map::empty()
    } else {
        by_name(list.drop_last()).insert(list.last().name, list.last())
    }
}

/// Whether this is the server name for TLS, or the error where it is missing.
pub open spec fn tls_name(
    r: Result<Option<String>, &'static str>,
    tls: bool,
    name: Option<Seq<char>>,
) -> bool {
    match r {
        Ok(found) => found.deep_view() == name && (tls ==> name is Some),
        Err(e) => tls && name is None && e@
            == "tls_server_name is required when tls_enable or work_conn_tls is set"@,
    }
}

/// The server name for TLS: none where the client has no use for TLS, and an error
/// where it has and none is configured.
pub fn plan_tls(client: &ClientSection) -> (r: Result<Option<String>, &'static str>)
    ensures
        tls_name(
            r,
            client.tls_enable || client.work_conn_tls,
            client.tls_server_name.deep_view(),
        ),
        match r {
            Ok(None) => !client.tls_enable && !client.work_conn_tls && client.tls_server_name is None,
            Ok(Some(name)) => client.tls_server_name.deep_view() == Some(name@),
            Err(e) => (client.tls_enable || client.work_conn_tls) && client.tls_server_name is None
                && e@ == "tls_server_name is required when tls_enable or work_conn_tls is set"@,
        },
{
    match &client.tls_server_name {
        Some(name) => Ok(Some(name.clone())),
        None => if client.tls_enable || client.work_conn_tls {
            Err("tls_server_name is required when tls_enable or work_conn_tls is set")
        } else {
            Ok(None)
        },
    }
}

/// Whether the address of the status endpoint is a loopback one, by its text.
pub fn is_loopback(addr: &str) -> (r: bool)
    ensures
        r == ("127."@.is_prefix_of(addr@) || "localhost"@.is_prefix_of(addr@)
            || "[::1]"@.is_prefix_of(addr@)),
{
    let chars = to_chars(addr);
    starts_with(&chars, "127.") || starts_with(&chars, "localhost") || starts_with(&chars, "[::1]")
}

impl ClientState {
    /// The state of a new connection, with `waiter` waiting for the answer to the
    /// login.
    pub fn new(
        config: &ClientConfig,
        run_id: &str,
        server_addr: PeerAddr,
        has_tls: bool,
        waiter: u64,
    ) -> (r: ClientState)
        ensures
            r@ == (ClientStateView {
                server_addr,
                run_id: run_id@,
                proxies: by_name(config.proxies.deep_view()),
                resps: Map::empty(),
                login_tx: Some(waiter),
                has_tls,
                work_conn_tls: config.client.work_conn_tls,
                work_conn_token: None,
            }),
    {
        let ghost list = config.proxies.deep_view();
        let mut proxies: Table<String, ClientProxy> = Table::new();
        let mut i: usize = 0;
        assert(list.take(0) =~= Seq::empty());
        while i < config.proxies.len()
            invariant
                i <= config.proxies@.len(),
                list == config.proxies.deep_view(),
                proxies@ == by_name(list.take(i as int)),
            decreases config.proxies@.len() - i,
        {
            let p = &config.proxies[i];
            proxies.insert(p.name.clone(), p.copy());
            assert(list.take(i + 1).drop_last() =~= list.take(i as int));
            assert(list.take(i + 1).last() == p.deep_view());
            i += 1;
        }
        assert(list.take(i as int) =~= list);
        ClientState {
            server_addr,
            run_id: run_id.to_owned(),
            proxies,
            resps: Table::new(),
            login_tx: Some(waiter),
            has_tls,
            work_conn_tls: config.client.work_conn_tls,
            work_conn_token: None,
        }
    }
}

/// How waiting for the answer to a login ended.
pub enum LoginAnswer {
    /// It came.
    Came(LoginResp),
    /// No one will send it any more.
    Dropped,
    /// It did not come in time.
    TimedOut,
}

/// How a login ended.
pub enum LoginOutcome {
    /// The session is open.
    LoggedIn,
    /// The server will not have this client.
    Fatal(String),
    /// It may work another time.
    Retry,
}

/// Whether an error in the answer to a login, in lower case, means that trying again
/// is of no use.
pub open spec fn is_fatal_text(lower: Seq<char>) -> bool {
    has_part(lower, "version mismatch"@) || has_part(lower, "auth failed"@)
}

/// Whether an answer that refuses a login means that trying again is of no use: no
/// error is given, or one of those that do not go away.
pub open spec fn is_fatal(error: Option<Seq<char>>) -> bool {
    match error {
        None => true,
        Some(e) => is_fatal_text(folded(e)),
    }
}

/// Executable form of [`is_fatal`].
pub fn login_is_fatal(error: &Option<String>) -> (r: bool)
    ensures
        r == is_fatal(error.deep_view()),
{
    match error {
        None => true,
        Some(e) => {
            let lower = to_chars(fold_case(e.as_str()).as_str());
            contains(&lower, "version mismatch") || contains(&lower, "auth failed")
        },
    }
}

/// How a login ends that was answered so.
pub open spec fn login_outcome(outcome: LoginOutcome, answer: LoginAnswer) -> bool {
    match answer {
        LoginAnswer::Came(resp) => if resp.ok {
            outcome is LoggedIn
        } else if is_fatal(resp.error.deep_view()) {
            outcome matches LoginOutcome::Fatal(reason) && reason@ == fatal_reason(
                resp.error.deep_view(),
            )
        } else {
            outcome is Retry
        },
        LoginAnswer::Dropped | LoginAnswer::TimedOut => outcome is Retry,
    }
}

/// Why a login was refused for good.
pub open spec fn fatal_reason(error: Option<Seq<char>>) -> Seq<char> {
    match error {
        Some(e) => e,
        None => "auth failed"@,
    }
}

/// The state after a login was answered so.
pub open spec fn after_login(v: ClientStateView, answer: LoginAnswer, tls: bool) -> ClientStateView {
    match answer {
        LoginAnswer::Came(resp) => if resp.ok {
            ClientStateView {
                work_conn_tls: match resp.work_conn_tls {
                    Some(t) => t,
                    None => tls,
                },
                work_conn_token: resp.work_conn_token.deep_view(),
                ..v
            }
        } else {
            v
        },
        LoginAnswer::Dropped | LoginAnswer::TimedOut => v,
    }
}

/// The counters after a login was answered so.
pub open spec fn login_metrics(m: ClientMetrics, answer: LoginAnswer) -> ClientMetrics {
    if answer matches LoginAnswer::Came(resp) && resp.ok {
        ClientMetrics { connected: true, ..m }
    } else {
        m
    }
}

/// Treats the answer to a login. Where it opens the session, the state takes over
/// what it says of work connections.
pub fn finish_login(
    state: &mut ClientState,
    config: &ClientConfig,
    answer: LoginAnswer,
    metrics: &mut ClientMetrics,
) -> (r: LoginOutcome)
    ensures
        login_outcome(r, answer),
        final(state)@ == after_login(old(state)@, answer, config.client.work_conn_tls),
        final(state).proxies == old(state).proxies,
        *final(metrics) == login_metrics(*old(metrics), answer),
{
    match answer {
        LoginAnswer::Came(resp) => {
            if resp.ok {
                state.work_conn_tls = match resp.work_conn_tls {
                    Some(v) => v,
                    None => config.client.work_conn_tls,
                };
                state.work_conn_token = copy_optional(&resp.work_conn_token);
                metrics.set_connected(true);
                return LoginOutcome::LoggedIn;
            }
            if login_is_fatal(&resp.error) {
                let reason = match resp.error {
                    Some(e) => e,
                    None => "auth failed".to_owned(),
                };
                return LoginOutcome::Fatal(reason);
            }
            LoginOutcome::Retry
        },
        LoginAnswer::Dropped | LoginAnswer::TimedOut => LoginOutcome::Retry,
    }
}

/// The request to register a proxy.
pub fn new_proxy_from_config(p: &ClientProxy) -> (r: NewProxy)
    ensures
        r.deep_view() == (NewProxyView {
            proxy_name: p.name@,
            kind: p.kind,
            remote_port: p.remote_port,
            custom_domains: p.custom_domains.deep_view(),
        }),
{
    NewProxy {
        proxy_name: p.name.clone(),
        kind: p.kind,
        remote_port: p.remote_port,
        custom_domains: copy_domains(&p.custom_domains),
    }
}

/// How the registration of a proxy ended.
#[derive(Clone, Copy, Debug, PartialEq, Eq, Structural)]
pub enum RegisterOutcome {
    /// It is registered.
    Done,
    /// It was refused for a conflict that goes away.
    Retryable,
    /// It was refused for something that a change at the server can cure.
    Persistent,
    /// It was refused for good.
    Failed,
    /// The control connection is gone.
    ConnLost,
}

/// How waiting for the answer to a registration ended.
pub enum RegisterAnswer {
    /// The request could not be sent.
    NotSent,
    /// It came.
    Came(NewProxyResp),
    /// No one will send it any more.
    Dropped,
    /// It did not come in time.
    TimedOut,
}

/// Whether the answer's error is one that goes away by itself.
pub open spec fn names_retryable(error: Option<Seq<char>>) -> bool {
    exists|e: ProxyError| error == Some(#[trigger] e.code_text()) && e.retryable()
}

/// Whether the answer's error is one of these.
pub open spec fn names_one_of(error: Option<Seq<char>>, list: Seq<ProxyError>) -> bool {
    exists|e: ProxyError| error == Some(#[trigger] e.code_text()) && list.contains(e)
}

/// What an answer means. `curable` lists the errors that a change at the server can
/// cure.
pub open spec fn outcome_of(
    answer: RegisterAnswer,
    curable: Seq<ProxyError>,
) -> RegisterOutcome {
    match answer {
        RegisterAnswer::NotSent => RegisterOutcome::ConnLost,
        RegisterAnswer::Came(resp) => if resp.ok {
            RegisterOutcome::Done
        } else if names_retryable(resp.error.deep_view()) {
            RegisterOutcome::Retryable
        } else if names_one_of(resp.error.deep_view(), curable) {
            RegisterOutcome::Persistent
        } else {
            RegisterOutcome::Failed
        },
        RegisterAnswer::Dropped => RegisterOutcome::Failed,
        RegisterAnswer::TimedOut => RegisterOutcome::Retryable,
    }
}

/// Whether `e` is in the list.
fn has_error(list: &Vec<ProxyError>, e: ProxyError) -> (r: bool)
    ensures
        r == list@.contains(e),
{
    let mut i: usize = 0;
    while i < list.len()
        invariant
            i <= list@.len(),
            forall|j: int| 0 <= j < i ==> list@[j] != e,
        decreases list@.len() - i,
    {
        if list[i] == e {
            return true;
        }
        i += 1;
    }
    false
}

/// The error that an answer names.
fn named_error(error: &Option<String>) -> (r: Option<ProxyError>)
    ensures
        match r {
            Some(e) => error.deep_view() == Some(e.code_text()),
            None => forall|e: ProxyError| error.deep_view() != Some(#[trigger] e.code_text()),
        },
{
    match error {
        Some(code) => ProxyError::from_code(code.as_str()),
        None => None,
    }
}

/// Begins the registration of a proxy: `waiter` waits for the answer.
pub fn begin_register(state: &mut ClientState, p: &ClientProxy, waiter: u64) -> (r: NewProxy)
    ensures
        r.deep_view() == (NewProxyView {
            proxy_name: p.name@,
            kind: p.kind,
            remote_port: p.remote_port,
            custom_domains: p.custom_domains.deep_view(),
        }),
        final(state)@ == (ClientStateView {
            resps: old(state)@.resps.insert(p.name@, waiter),
            ..old(state)@
        }),
{
    state.resps.insert(p.name.clone(), waiter);
    new_proxy_from_config(p)
}

/// The state after the registration of the proxy `name` was answered so.
pub open spec fn after_registration(
    v: ClientStateView,
    name: Seq<char>,
    answer: RegisterAnswer,
) -> ClientStateView {
    if answer is Came {
        v
    } else {
        ClientStateView { resps: v.resps.remove(name), ..v }
    }
}

/// The counters after a registration was answered so.
pub open spec fn registration_metrics(m: ClientMetrics, answer: RegisterAnswer) -> ClientMetrics {
    if answer matches RegisterAnswer::Came(resp) && !resp.ok {
        ClientMetrics {
            proxy_register_failures_total: wrapped_sum(m.proxy_register_failures_total, 1),
            ..m
        }
    } else {
        m
    }
}

/// Ends the registration of a proxy. No one waits for its answer any more; a
/// refusal is counted.
pub fn register_one_proxy(
    state: &mut ClientState,
    name: &String,
    answer: RegisterAnswer,
    curable: &Vec<ProxyError>,
    metrics: &mut ClientMetrics,
) -> (r: RegisterOutcome)
    ensures
        r == outcome_of(answer, curable@),
        final(state)@ == after_registration(old(state)@, name@, answer),
        *final(metrics) == registration_metrics(*old(metrics), answer),
        final(state)@ == (if answer is Came {
            old(state)@
        } else {
            ClientStateView { resps: old(state)@.resps.remove(name@), ..old(state)@ }
        }),
        *final(metrics) == (if answer matches RegisterAnswer::Came(resp) && !resp.ok {
            ClientMetrics {
                proxy_register_failures_total: wrapped_sum(
                    old(metrics).proxy_register_failures_total,
                    1,
                ),
                ..*old(metrics)
            }
        } else {
            *old(metrics)
        }),
{
    match answer {
        RegisterAnswer::NotSent => {
            state.resps.remove(name);
            RegisterOutcome::ConnLost
        },
        RegisterAnswer::Came(resp) => {
            if resp.ok {
                return RegisterOutcome::Done;
            }
            metrics.inc_proxy_register_failure();
            let named = named_error(&resp.error);
            proof {
                if let Some(e) = named {
                    assert forall|x: ProxyError|
                        #[trigger] x.code_text() == e.code_text() implies x == e by {
                        crate::msg::law_codes_distinct(x, e);
                    }
                }
            }
            match named {
                Some(e) => {
                    if e.is_retryable() {
                        assert(names_retryable(resp.error.deep_view()));
                        RegisterOutcome::Retryable
                    } else if has_error(curable, e) {
                        assert(names_one_of(resp.error.deep_view(), curable@));
                        RegisterOutcome::Persistent
                    } else {
                        RegisterOutcome::Failed
                    }
                },
                None => RegisterOutcome::Failed,
            }
        },
        RegisterAnswer::Dropped => {
            state.resps.remove(name);
            RegisterOutcome::Failed
        },
        RegisterAnswer::TimedOut => {
            state.resps.remove(name);
            RegisterOutcome::Retryable
        },
    }
}

/// What the user can do about a registration that failed.
pub open spec fn hint_text(code: Option<ProxyError>) -> Seq<char> {
    match code {
        Some(ProxyError::PortNotAllowed) => "检查服务端 [proxy].allow_ports 是否放行该 remote_port"@,
        Some(ProxyError::NameExists) => "代理名已被占用：修改 [[proxy]].name，或等待旧会话释放"@,
        Some(ProxyError::InvalidType) => "代理 type 非法：仅支持 tcp/udp/http/https"@,
        Some(ProxyError::InvalidField) => "[[proxy]] 字段缺失或格式错误：检查 remote_port / custom_domains 等"@,
        Some(ProxyError::TooManyProxies) => "单会话代理数超过服务端上限：减少 [[proxy]] 条目"@,
        Some(ProxyError::DomainConflict) => "域名与其他代理冲突（通常可重试）"@,
        Some(ProxyError::PortOccupied) => "端口被占用（通常可重试）"@,
        Some(ProxyError::Internal) | None => "查看服务端日志获取详细原因"@,
    }
}

/// Executable form of [`hint_text`].
pub fn registration_hint(code: Option<ProxyError>) -> (r: &'static str)
    ensures
        r@ == hint_text(code),
{
    match code {
        Some(ProxyError::PortNotAllowed) => "检查服务端 [proxy].allow_ports 是否放行该 remote_port",
        Some(ProxyError::NameExists) => "代理名已被占用：修改 [[proxy]].name，或等待旧会话释放",
        Some(ProxyError::InvalidType) => "代理 type 非法：仅支持 tcp/udp/http/https",
        Some(ProxyError::InvalidField) => "[[proxy]] 字段缺失或格式错误：检查 remote_port / custom_domains 等",
        Some(ProxyError::TooManyProxies) => "单会话代理数超过服务端上限：减少 [[proxy]] 条目",
        Some(ProxyError::DomainConflict) => "域名与其他代理冲突（通常可重试）",
        Some(ProxyError::PortOccupied) => "端口被占用（通常可重试）",
        Some(ProxyError::Internal) | None => "查看服务端日志获取详细原因",
    }
}

/// Whether these are the work connections that are asked for when a proxy has been
/// registered.
pub open spec fn preheats(reqs: Seq<ReqWorkConn>, name: Seq<char>, pool_size: u32) -> bool {
    &&& reqs.len() == pool_size
    &&& forall|i: int|
        0 <= i < reqs.len() ==> (#[trigger] reqs[i]).proxy_name@ == name && reqs[i].work_id
            == WORK_ID_POOL_RESERVED
}

/// The work connections that are asked for when a proxy has been registered: as many
/// as are to be kept ready.
pub fn spawn_preheat(p: &ClientProxy) -> (r: Vec<ReqWorkConn>)
    ensures
        preheats(r@, p.name@, p.pool_size),
        r@.len() == p.pool_size,
        forall|i: int|
            0 <= i < r@.len() ==> (#[trigger] r@[i]).proxy_name@ == p.name@ && r@[i].work_id
                == WORK_ID_POOL_RESERVED,
{
    let mut out: Vec<ReqWorkConn> = Vec::new();
    let mut i: u32 = 0;
    while i < p.pool_size
        invariant
            i <= p.pool_size,
            out@.len() == i,
            forall|j: int|
                0 <= j < out@.len() ==> (#[trigger] out@[j]).proxy_name@ == p.name@
                    && out@[j].work_id == WORK_ID_POOL_RESERVED,
        decreases p.pool_size - i,
    {
        out.push(ReqWorkConn { proxy_name: p.name.clone(), work_id: WORK_ID_POOL_RESERVED });
        i += 1;
    }
    out
}

/// Which proxies are tried again after the first round of registrations, by their
/// place in the configuration.
pub struct RegisterPass {
    /// Those refused for a conflict.
    pub retryable: Vec<usize>,
    /// Those refused for something that a change at the server can cure.
    pub persistent: Vec<usize>,
}

impl RegisterPass {
    /// None yet.
    pub fn new() -> (r: RegisterPass)
        ensures
            r.retryable@ == Seq::<usize>::empty(),
            r.persistent@ == Seq::<usize>::empty(),
    {
        RegisterPass { retryable: Vec::new(), persistent: Vec::new() }
    }

    /// Notes how the registration of proxy `i` ended. An error where the control
    /// connection is gone, and the whole attempt with it.
    pub fn note(&mut self, i: usize, outcome: RegisterOutcome) -> (r: Result<(), &'static str>)
        ensures
            final(self).retryable@ == (if outcome == RegisterOutcome::Retryable {
                old(self).retryable@.push(i)
            } else {
                old(self).retryable@
            }),
            final(self).persistent@ == (if outcome == RegisterOutcome::Persistent {
                old(self).persistent@.push(i)
            } else {
                old(self).persistent@
            }),
            match r {
                Ok(_) => outcome != RegisterOutcome::ConnLost,
                Err(e) => outcome == RegisterOutcome::ConnLost && e@
                    == "control connection closed or congested during proxy registration"@,
            },
    {
        match outcome {
            RegisterOutcome::Done | RegisterOutcome::Failed => Ok(()),
            RegisterOutcome::Retryable => {
                self.retryable.push(i);
                Ok(())
            },
            RegisterOutcome::Persistent => {
                self.persistent.push(i);
                Ok(())
            },
            RegisterOutcome::ConnLost => Err(
                "control connection closed or congested during proxy registration",
            ),
        }
    }
}

/// Notes that the control connection has ended: no one waits any more.
pub fn finish_connection(state: &mut ClientState, metrics: &mut ClientMetrics)
    ensures
        final(state)@ == (ClientStateView { resps: Map::empty(), ..old(state)@ }),
        final(state).proxies == old(state).proxies,
        *final(metrics) == (ClientMetrics { connected: false, ..*old(metrics) }),
{
    state.resps = Table::new();
    metrics.set_connected(false);
}

/// A client that is ready to connect.
pub struct Client {
    /// Its configuration.
    pub config: ClientConfig,
    /// The server name for TLS, where it can use TLS.
    pub tls_server_name: Option<String>,
    /// Between two signs of life, in nanoseconds.
    pub heartbeat_interval: u128,
    /// Until a sign of life has to be answered, in nanoseconds.
    pub heartbeat_timeout: u128,
    /// Its counters.
    pub metrics: ClientMetrics,
}

impl Client {
    /// A client with fresh counters, or what its configuration lacks.
    pub fn new(config: ClientConfig, heartbeat_interval: u128, heartbeat_timeout: u128) -> (r:
        Result<Client, &'static str>)
        ensures
            match r {
                Ok(c) => {
                    &&& c.config == config
                    &&& c.heartbeat_interval == heartbeat_interval
                    &&& c.heartbeat_timeout == heartbeat_timeout
                    &&& c.metrics == fresh_metrics(c.metrics.started)
                    &&& c.tls_server_name.deep_view() == config.client.tls_server_name.deep_view()
                    &&& config.client.tls_server_name is Some || (!config.client.tls_enable
                        && !config.client.work_conn_tls)
                },
                Err(e) => (config.client.tls_enable || config.client.work_conn_tls)
                    && config.client.tls_server_name is None && e@
                    == "tls_server_name is required when tls_enable or work_conn_tls is set"@,
            },
    {
        match plan_tls(&config.client) {
            Ok(tls_server_name) => Ok(
                Client {
                    config,
                    tls_server_name,
                    heartbeat_interval,
                    heartbeat_timeout,
                    metrics: ClientMetrics::new(),
                },
            ),
            Err(e) => Err(e),
        }
    }

    /// The same client, with other delays for signs of life.
    pub fn with_heartbeat(self, interval: u128, timeout: u128) -> (r: Client)
        ensures
            r == (Client {
                heartbeat_interval: interval,
                heartbeat_timeout: timeout,
                ..self
            }),
    {
        let mut c = self;
        c.heartbeat_interval = interval;
        c.heartbeat_timeout = timeout;
        c
    }
}

/// A login that is answered without success is fatal where the answer gives no error or
/// one that does not go away, in whatever case it is written; any other, and an answer
/// that does not come, is tried again.
pub proof fn law_login_answers(outcome: LoginOutcome, answer: LoginAnswer)
    requires
        login_outcome(outcome, answer),
    ensures
        !(answer is Came) ==> outcome is Retry,
        answer matches LoginAnswer::Came(resp) ==> (outcome is LoggedIn <==> resp.ok),
        answer matches LoginAnswer::Came(resp) ==> !resp.ok ==> match resp.error.deep_view() {
            None => outcome matches LoginOutcome::Fatal(reason) && reason@ == "auth failed"@,
            Some(e) => if has_part(folded(e), "version mismatch"@) || has_part(
                folded(e),
                "auth failed"@,
            ) {
                outcome matches LoginOutcome::Fatal(reason) && reason@ == e
            } else {
                outcome is Retry
            },
        },
{
}

/// A login that succeeds gives the client the token of its session and the server's
/// choice of TLS for work connections, or its own where the server makes none; one that
/// does not changes nothing.
pub proof fn law_login_hands_over(
    v: ClientStateView,
    answer: LoginAnswer,
    tls: bool,
    m: ClientMetrics,
)
    ensures
        ({
            let w = after_login(v, answer, tls);
            let done = answer matches LoginAnswer::Came(resp) && resp.ok;
            &&& !done ==> w == v && login_metrics(m, answer) == m
            &&& done ==> login_metrics(m, answer).connected
            &&& answer matches LoginAnswer::Came(resp) ==> resp.ok ==> w.work_conn_token
                == resp.work_conn_token.deep_view() && w.work_conn_tls == (
            match resp.work_conn_tls {
                Some(t) => t,
                None => tls,
            })
            &&& w.proxies == v.proxies && w.run_id == v.run_id && w.resps == v.resps
                && w.server_addr == v.server_addr
        }),
{
}

/// What an answer to a registration means: a conflict is tried again soon, and so is one
/// without an answer; what a change at the server can cure, later; anything else is
/// given up on, and a lost connection ends all.
pub proof fn law_registration_answers(
    resp: NewProxyResp,
    e: ProxyError,
    curable: Seq<ProxyError>,
)
    ensures
        outcome_of(RegisterAnswer::NotSent, curable) == RegisterOutcome::ConnLost,
        outcome_of(RegisterAnswer::TimedOut, curable) == RegisterOutcome::Retryable,
        outcome_of(RegisterAnswer::Dropped, curable) == RegisterOutcome::Failed,
        resp.ok ==> outcome_of(RegisterAnswer::Came(resp), curable) == RegisterOutcome::Done,
        !resp.ok && resp.error is None ==> outcome_of(RegisterAnswer::Came(resp), curable)
            == RegisterOutcome::Failed,
        !resp.ok && resp.error.deep_view() == Some(e.code_text()) ==> outcome_of(
            RegisterAnswer::Came(resp),
            curable,
        ) == (if e == ProxyError::PortOccupied || e == ProxyError::DomainConflict {
            RegisterOutcome::Retryable
        } else if curable.contains(e) {
            RegisterOutcome::Persistent
        } else {
            RegisterOutcome::Failed
        }),
{
    if resp.error.deep_view() == Some(e.code_text()) {
        assert forall|x: ProxyError| #[trigger] x.code_text() == e.code_text() implies x == e by {
            crate::msg::law_codes_distinct(x, e);
        }
        if e.retryable() {
            assert(names_retryable(resp.error.deep_view()));
        }
        if curable.contains(e) {
            assert(names_one_of(resp.error.deep_view(), curable));
        }
    }
}

/// Each proxy of the configuration is found by its name: the last one of that name.
pub proof fn law_proxies_by_name(list: Seq<ClientProxyView>, i: int)
    requires
        0 <= i < list.len(),
        forall|j: int| i < j < list.len() ==> (#[trigger] list[j]).name != list[i].name,
    ensures
        by_name(list).contains_key(list[i].name) && by_name(list)[list[i].name] == list[i],
    decreases list.len(),
{
    if i < list.len() - 1 {
        let t = list.drop_last();
        assert(list[list.len() - 1].name != list[i].name);
        assert forall|j: int| i < j < t.len() implies (#[trigger] t[j]).name != t[i].name by {
            assert(t[j] == list[j]);
        }
        law_proxies_by_name(t, i);
    }
}

/// No proxy is found that the configuration does not have.
pub proof fn law_no_other_proxies(list: Seq<ClientProxyView>, name: Seq<char>)
    ensures
        by_name(list).contains_key(name) ==> exists|i: int|
            0 <= i < list.len() && (#[trigger] list[i]).name == name,
    decreases list.len(),
{
    if list.len() > 0 && by_name(list).contains_key(name) {
        if list.last().name == name {
            assert(list[list.len() - 1].name == name);
        } else {
            let t = list.drop_last();
            law_no_other_proxies(t, name);
            let i = choose|i: int| 0 <= i < t.len() && (#[trigger] t[i]).name == name;
            assert(list[i].name == name);
        }
    }
}

/// A registration that the server refuses is counted, and one that it accepts is not;
/// where no answer came, no one waits for it any more, and all others keep waiting.
pub proof fn law_refusals_are_counted(
    v: ClientStateView,
    m: ClientMetrics,
    name: Seq<char>,
    other: Seq<char>,
    answer: RegisterAnswer,
)
    requires
        other != name,
    ensures
        ({
            let n = registration_metrics(m, answer);
            let w = after_registration(v, name, answer);
            let refused = answer matches RegisterAnswer::Came(resp) && !resp.ok;
            &&& n.proxy_register_failures_total as int == if refused {
                (m.proxy_register_failures_total + 1) % 0x1_0000_0000_0000_0000
            } else {
                m.proxy_register_failures_total as int
            }
            &&& n.connected == m.connected && n.reconnects_total == m.reconnects_total
            &&& !(answer is Came) ==> !w.resps.contains_key(name)
            &&& w.resps.contains_key(other) == v.resps.contains_key(other)
            &&& v.resps.contains_key(other) ==> w.resps[other] == v.resps[other]
            &&& w.proxies == v.proxies
        }),
{
}

/// A client that is to use TLS knows the name of its server, or does not start.
pub proof fn law_tls_needs_a_name(
    r: Result<Option<String>, &'static str>,
    tls: bool,
    name: Option<Seq<char>>,
)
    requires
        tls_name(r, tls, name),
    ensures
        name is Some ==> (r matches Ok(Some(n)) && n@ == name->0),
        name is None && !tls ==> r matches Ok(None),
        name is None && tls ==> r is Err,
{
    if let Ok(found) = r {
        if let Some(n) = found {
            assert(found.deep_view() == Some(n@));
        }
    }
}

/// As many idle work connections are made ready as a proxy is to have, each for that proxy
/// and for no user.
pub proof fn law_pool_is_filled(
    reqs: Seq<ReqWorkConn>,
    name: Seq<char>,
    pool_size: u32,
    i: int,
)
    requires
        preheats(reqs, name, pool_size),
    ensures
        reqs.len() == pool_size,
        0 <= i < pool_size ==> reqs[i].proxy_name@ == name && reqs[i].work_id == 0,
{
}

} // verus!
