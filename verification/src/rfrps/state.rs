//! State that all connections of the server share.

use vstd::prelude::*;

use super::metrics::{fresh_metrics, fresh_stats, Metrics, ProxyStats};
use super::session::{Session, SessionView};
use super::udp::{UdpProxy, UdpView};
use crate::addr::PeerIp;
use crate::clock::{elapsed_since, from_secs, since, Clock, NANOS_PER_SEC};
use crate::limits::{Limits, WORK_ID_POOL_RESERVED};
use crate::table::{kept, lemma_pair_sum, map_sum, pair_sum, Table};

verus! {

/// How many addresses may have failed logins on record before the record is
/// cleared of what is past the window.
pub const LOGIN_FAILURES_MAX: usize = 4096;

/// A user connection that waits for its work connection.
#[derive(Clone, Debug)]
pub struct PendingWork {
    /// The proxy that the user came to.
    pub proxy_name: String,
    /// The session that the proxy belongs to.
    pub session_id: String,
    /// The user's stream.
    pub user: Option<u64>,
    /// When the user came.
    pub created: u128,
}

/// What a [`PendingWork`] stands for.
pub struct PendingView {
    pub proxy_name: Seq<char>,
    pub session_id: Seq<char>,
    pub user: Option<u64>,
    pub created: u128,
}

impl DeepView for PendingWork {
    type V = PendingView;

    open spec fn deep_view(&self) -> PendingView {
        PendingView {
            proxy_name: self.proxy_name@,
            session_id: self.session_id@,
            user: self.user,
            created: self.created,
        }
    }
}

/// Counts of what there is at one moment.
#[derive(Clone, Copy, Debug, PartialEq, Eq, Structural)]
pub struct Gauges {
    /// Control sessions.
    pub sessions: usize,
    /// Registered proxies of all sessions.
    pub proxies: usize,
    /// User connections that wait for a work connection.
    pub pending_work: usize,
    /// Paired users of all UDP proxies.
    pub udp_sessions: usize,
    /// Idle work connections of all sessions.
    pub pooled_work_conns: usize,
}

impl Default for Gauges {
    fn default() -> (r: Gauges)
        ensures
            r == (Gauges {
                sessions: 0,
                proxies: 0,
                pending_work: 0,
                udp_sessions: 0,
                pooled_work_conns: 0,
            }),
    {
        Gauges {
            sessions: 0,
            proxies: 0,
            pending_work: 0,
            udp_sessions: 0,
            pooled_work_conns: 0,
        }
    }
}

/// The shared state.
pub struct ServerState {
    /// The work id that was given out last.
    pub work_id: u64,
    /// Waiting user connections, by work id.
    pub pending: Table<u64, PendingWork>,
    /// Every session that is held, by key.
    pub live: Table<u64, Session>,
    /// The session key that was given out last.
    pub last_session: u64,
    /// The current session of each client, by `run_id`.
    pub sessions: Table<String, u64>,
    /// Which client each proxy belongs to, by proxy name.
    pub proxy_index: Table<String, String>,
    /// Which client and proxy each domain belongs to.
    pub domain_index: Table<String, (String, String)>,
    /// UDP proxies, by name.
    pub udp: Table<String, UdpProxy>,
    /// Failed logins of each address, and when the window began.
    pub login_failures: Table<PeerIp, (u32, u128)>,
    /// Counters of each proxy.
    pub proxy_stats: Table<String, ProxyStats>,
    /// Counters of the process.
    pub metrics: Metrics,
    /// Most user connections at one time.
    pub max_active: i64,
    /// The other bounds.
    pub limits: Limits,
}

/// What a [`ServerState`] stands for.
#[verifier::ext_equal]
pub struct StateView {
    pub work_id: u64,
    pub pending: Map<u64, PendingView>,
    pub live: Map<u64, SessionView>,
    pub last_session: u64,
    pub sessions: Map<Seq<char>, u64>,
    pub proxy_index: Map<Seq<char>, Seq<char>>,
    pub domain_index: Map<Seq<char>, (Seq<char>, Seq<char>)>,
    pub udp: Map<Seq<char>, UdpView>,
    pub login_failures: Map<PeerIp, (u32, u128)>,
    pub proxy_stats: Map<Seq<char>, ProxyStats>,
    pub metrics: Metrics,
    pub max_active: i64,
    pub limits: Limits,
}

impl View for ServerState {
    type V = StateView;

    open spec fn view(&self) -> StateView {
        StateView {
            work_id: self.work_id,
            pending: self.pending@,
            live: self.live@,
            last_session: self.last_session,
            sessions: self.sessions@,
            proxy_index: self.proxy_index@,
            domain_index: self.domain_index@,
            udp: self.udp@,
            login_failures: self.login_failures@,
            proxy_stats: self.proxy_stats@,
            metrics: self.metrics,
            max_active: self.max_active,
            limits: self.limits,
        }
    }
}

/// `m` without the keys that `names` lists.
pub open spec fn without_names<V>(m: Map<Seq<char>, V>, names: Seq<Seq<char>>) -> Map<
    Seq<char>,
    V,
> {
    kept(m, |k: Seq<char>, v: V| !names.contains(k))
}

/// `n`, or `usize::MAX` where it is larger.
pub open spec fn capped(n: nat) -> usize {
    if n <= usize::MAX {
        n as usize
    } else {
        usize::MAX
    }
}

impl StateView {
    /// The state of a server that has just started.
    pub open spec fn fresh(limits: Limits, started: Clock) -> StateView {
        StateView {
            work_id: 0,
            pending: Map::empty(),
            live: Map::empty(),
            last_session: 0,
            sessions: Map::empty(),
            proxy_index: Map::empty(),
            domain_index: Map::empty(),
            udp: Map::empty(),
            login_failures: Map::empty(),
            proxy_stats: Map::empty(),
            metrics: fresh_metrics(started),
            max_active: limits.max_active_connections,
            limits,
        }
    }

    /// What every operation keeps: the current session of a client is one that is
    /// held and is its own, session keys and work ids were given out, there is a
    /// session key left to give out, and the tables of each UDP proxy's waiting users
    /// are in step.
    pub open spec fn wf(self) -> bool {
        &&& forall|r: Seq<char>| #[trigger]
            self.sessions.contains_key(r) ==> self.live.contains_key(self.sessions[r])
                && self.live[self.sessions[r]].run_id == r
        &&& forall|k: u64| #[trigger] self.live.contains_key(k) ==> k <= self.last_session
        &&& exists|k: u64| !#[trigger] self.live.contains_key(k)
        &&& forall|id: u64| #[trigger] self.pending.contains_key(id) ==> 1 <= id <= self.work_id
        &&& forall|n: Seq<char>, id: u64|
            #![trigger self.udp[n].pending_by_id.contains_key(id)]
            self.udp.contains_key(n) && self.udp[n].pending_by_id.contains_key(id) ==> 1 <= id
                <= self.work_id
        &&& forall|n: Seq<char>| #[trigger] self.udp.contains_key(n) ==> self.udp[n].paired()
    }

    /// Whether `k` is the smallest key that no session has.
    pub open spec fn is_least_free(self, k: u64) -> bool {
        !self.live.contains_key(k) && forall|j: u64| j < k ==> #[trigger] self.live.contains_key(j)
    }

    /// The session key that is given out next: the one behind the last, or, where there
    /// is none, the smallest that no session has.
    pub open spec fn next_key(self) -> u64 {
        if self.last_session < u64::MAX {
            (self.last_session + 1) as u64
        } else {
            choose|k: u64| self.is_least_free(k)
        }
    }

    /// The state with another session taken in.
    pub open spec fn with_session(self, s: SessionView) -> StateView {
        StateView {
            last_session: if self.last_session < u64::MAX {
                (self.last_session + 1) as u64
            } else {
                self.last_session
            },
            live: self.live.insert(self.next_key(), s),
            ..self
        }
    }

    /// Length of the window for failed logins, in nanoseconds.
    pub open spec fn login_window(self) -> int {
        self.limits.login_failure_window * NANOS_PER_SEC
    }

    /// Whether the failed logins on record for `ip` are within the window.
    pub open spec fn failures_current(self, ip: PeerIp, now: u128) -> bool {
        self.login_failures.contains_key(ip) && since(self.login_failures[ip].1, now)
            < self.login_window()
    }

    /// Whether `ip` may try to log in at `now`.
    pub open spec fn may_log_in(self, ip: PeerIp, now: u128) -> bool {
        self.failures_current(ip, now) ==> self.login_failures[ip].0
            < self.limits.login_failure_limit
    }

    /// After that question: a record past the window is gone.
    pub open spec fn asked_log_in(self, ip: PeerIp, now: u128) -> StateView {
        if self.failures_current(ip, now) {
            self
        } else {
            StateView { login_failures: self.login_failures.remove(ip), ..self }
        }
    }

    /// After a failed login of `ip` at `now`.
    pub open spec fn login_failed(self, ip: PeerIp, now: u128) -> StateView {
        let noted = if self.failures_current(ip, now) {
            self.login_failures.insert(
                ip,
                ((self.login_failures[ip].0 + 1) as u32, self.login_failures[ip].1),
            )
        } else {
            self.login_failures.insert(ip, (1u32, now))
        };
        let window = self.login_window();
        StateView {
            login_failures: if noted.len() > LOGIN_FAILURES_MAX {
                kept(noted, |k: PeerIp, e: (u32, u128)| since(e.1, now) < window)
            } else {
                noted
            },
            ..self
        }
    }

    /// The current session of the client that has the proxy `name`.
    pub open spec fn proxy_session(self, name: Seq<char>) -> Option<u64> {
        if self.proxy_index.contains_key(name) && self.sessions.contains_key(
            self.proxy_index[name],
        ) {
            Some(self.sessions[self.proxy_index[name]])
        } else {
            None
        }
    }

    /// The current session of the client that has the domain, and the proxy.
    pub open spec fn domain_session(self, domain: Seq<char>) -> Option<(u64, Seq<char>)> {
        if self.domain_index.contains_key(domain) && self.sessions.contains_key(
            self.domain_index[domain].0,
        ) {
            Some((self.sessions[self.domain_index[domain].0], self.domain_index[domain].1))
        } else {
            None
        }
    }

    /// The counters of the proxy `name`, fresh where there are none.
    pub open spec fn stats_of(self, name: Seq<char>) -> ProxyStats {
        if self.proxy_stats.contains_key(name) {
            self.proxy_stats[name]
        } else {
            fresh_stats()
        }
    }

    /// Registered proxies of all current sessions.
    pub open spec fn proxy_count(self) -> nat {
        map_sum(self.sessions, |r: Seq<char>, k: u64| self.live[k].proxies.len())
    }

    /// Idle work connections of all current sessions.
    pub open spec fn pooled_count(self) -> nat {
        map_sum(self.sessions, |r: Seq<char>, k: u64| pooled(self.live[k]))
    }

    /// Paired users of all UDP proxies.
    pub open spec fn udp_session_count(self) -> nat {
        map_sum(self.udp, |n: Seq<char>, u: UdpView| u.sessions.len())
    }

    /// What [`ServerState::gauges`] returns.
    pub open spec fn gauges(self) -> Gauges {
        Gauges {
            sessions: capped(self.sessions.len()),
            proxies: capped(self.proxy_count()),
            pending_work: capped(self.pending.len()),
            udp_sessions: capped(self.udp_session_count()),
            pooled_work_conns: capped(self.pooled_count()),
        }
    }
}

/// Idle work connections of one session.
pub open spec fn pooled(s: SessionView) -> nat {
    map_sum(s.pools, |n: Seq<char>, v: Seq<u64>| v.len())
}

/// Adds two counts, stopping at `usize::MAX`.
fn add_capped(a: usize, b: usize, Ghost(n): Ghost<nat>, Ghost(m): Ghost<nat>) -> (r: usize)
    requires
        a == capped(n),
        b == capped(m),
    ensures
        r == capped(n + m),
{
    a.saturating_add(b)
}

/// Executable form of [`pooled`], stopping at `usize::MAX`.
fn count_pooled(s: &Session) -> (r: usize)
    ensures
        r == capped(pooled(s.deep_view())),
{
    let ghost f = |n: Seq<char>, v: Seq<u64>| v.len();
    let n: usize = s.pools.len();
    let mut total: usize = 0;
    let mut i: usize = 0;
    while i < n
        invariant
            i <= n == s.pools.entries().len(),
            f == (|n: Seq<char>, v: Seq<u64>| v.len()),
            total == capped(pair_sum(s.pools.entries().take(i as int), f)),
        decreases n - i,
    {
        let (_, v) = s.pools.nth(i);
        let ghost e = s.pools.entries();
        let count: usize = v.len();
        assert(v.deep_view().len() == count);
        assert(e.take(i + 1).drop_last() =~= e.take(i as int));
        total = add_capped(
            total,
            count,
            Ghost(pair_sum(e.take(i as int), f)),
            Ghost(count as nat),
        );
        i += 1;
    }
    proof {
        assert(s.pools.entries().take(n as int) =~= s.pools.entries());
        lemma_pair_sum(s.pools.entries(), f);
    }
    total
}

impl ServerState {
    /// An empty state.
    pub fn new(limits: Limits) -> (r: ServerState)
        ensures
            r@ == StateView::fresh(limits, r.metrics.started),
            r@.wf(),
    {
        let live: Table<u64, Session> = Table::new();
        assert(!live@.contains_key(0u64));
        ServerState {
            work_id: 0,
            pending: Table::new(),
            live,
            last_session: 0,
            sessions: Table::new(),
            proxy_index: Table::new(),
            domain_index: Table::new(),
            udp: Table::new(),
            login_failures: Table::new(),
            proxy_stats: Table::new(),
            metrics: Metrics::new(),
            max_active: limits.max_active_connections,
            limits,
        }
    }

    /// Whether `ip` may try to log in at `now`. A record past the window is
    /// dropped.
    pub fn login_allowed_at(&mut self, ip: PeerIp, now: u128) -> (r: bool)
        ensures
            r == old(self)@.may_log_in(ip, now),
            final(self)@ == old(self)@.asked_log_in(ip, now),
            old(self)@.wf() ==> final(self)@.wf(),
    {
        let window: u128 = from_secs(self.limits.login_failure_window);
        let entry: Option<(u32, u128)> = match self.login_failures.get(&ip) {
            Some(e) => Some(*e),
            None => None,
        };
        match entry {
            Some(e) => {
                if elapsed_since(e.1, now) < window {
                    e.0 < self.limits.login_failure_limit
                } else {
                    self.login_failures.remove(&ip);
                    true
                }
            },
            None => {
                assert(self.login_failures@ =~= self.login_failures@.remove(ip));
                true
            },
        }
    }

    /// Whether `ip` may try to log in now.
    pub fn login_allowed(&mut self, ip: PeerIp) -> (r: bool)
        ensures
            exists|now: u128|
                r == #[trigger] old(self)@.may_log_in(ip, now) && final(self)@ == old(
                    self,
                )@.asked_log_in(ip, now),
            old(self)@.wf() ==> final(self)@.wf(),
    {
        let now: u128 = self.metrics.started.now();
        self.login_allowed_at(ip, now)
    }

    /// Failed logins on record for `ip`.
    pub fn failures_of(&self, ip: PeerIp) -> (r: u32)
        ensures
            r == (if self@.login_failures.contains_key(ip) {
                self@.login_failures[ip].0
            } else {
                0
            }),
    {
        match self.login_failures.get(&ip) {
            Some(e) => e.0,
            None => 0,
        }
    }

    /// Notes a failed login of `ip` at `now`. Where too many addresses are on
    /// record, those past the window are dropped.
    pub fn record_login_failure_at(&mut self, ip: PeerIp, now: u128)
        requires
            old(self)@.failures_current(ip, now) ==> old(self)@.login_failures[ip].0 < u32::MAX,
        ensures
            final(self)@ == old(self)@.login_failed(ip, now),
            old(self)@.wf() ==> final(self)@.wf(),
    {
        let window: u128 = from_secs(self.limits.login_failure_window);
        let ghost span = self@.login_window();
        let entry: Option<(u32, u128)> = match self.login_failures.get(&ip) {
            Some(e) => Some(*e),
            None => None,
        };
        match entry {
            Some(e) => {
                if elapsed_since(e.1, now) < window {
                    self.login_failures.insert(ip, (e.0 + 1, e.1));
                } else {
                    self.login_failures.insert(ip, (1, now));
                }
            },
            None => {
                self.login_failures.insert(ip, (1, now));
            },
        }
        if self.login_failures.len() > LOGIN_FAILURES_MAX {
            let _dropped = self.login_failures.retain(
                |_k: &PeerIp, e: &(u32, u128)| -> (b: bool)
                    ensures
                        b == is_within(e.1, now, span)
                    { elapsed_since(e.1, now) < window },
                Ghost(|k: PeerIp, e: (u32, u128)| since(e.1, now) < span),
            );
        }
        proof {
            lemma_wf_ignores_failures(old(self)@, self.login_failures@);
        }
    }

    /// Notes a failed login of `ip` now.
    pub fn record_login_failure(&mut self, ip: PeerIp)
        requires
            old(self)@.login_failures.contains_key(ip) ==> old(self)@.login_failures[ip].0
                < u32::MAX,
        ensures
            exists|now: u128| final(self)@ == #[trigger] old(self)@.login_failed(ip, now),
            old(self)@.wf() ==> final(self)@.wf(),
    {
        let now: u128 = self.metrics.started.now();
        self.record_login_failure_at(ip, now)
    }

    /// Forgets the failed logins of `ip`, after a successful one.
    pub fn clear_login_failures(&mut self, ip: PeerIp)
        ensures
            final(self)@ == (StateView {
                login_failures: old(self)@.login_failures.remove(ip),
                ..old(self)@
            }),
            old(self)@.wf() ==> final(self)@.wf(),
    {
        self.login_failures.remove(&ip);
    }

    /// Counts what there is.
    pub fn gauges(&self) -> (r: Gauges)
        requires
            self@.wf(),
        ensures
            r == self@.gauges(),
    {
        let ghost v = self@;
        let ghost fp = |r: Seq<char>, k: u64| v.live[k].proxies.len();
        let ghost fw = |r: Seq<char>, k: u64| pooled(v.live[k]);
        let ghost fu = |n: Seq<char>, u: UdpView| u.sessions.len();
        let n: usize = self.sessions.len();
        let mut proxies: usize = 0;
        let mut pooled_conns: usize = 0;
        let mut i: usize = 0;
        proof {
            crate::table::lemma_map_of(self.sessions.entries());
        }
        while i < n
            invariant
                i <= n == self.sessions.entries().len(),
                v == self@,
                v.wf(),
                fp == (|r: Seq<char>, k: u64| v.live[k].proxies.len()),
                fw == (|r: Seq<char>, k: u64| pooled(v.live[k])),
                forall|j: int|
                    0 <= j < n ==> v.sessions.contains_key((#[trigger] self.sessions.entries()[j]).0)
                        && v.sessions[self.sessions.entries()[j].0]
                        == self.sessions.entries()[j].1,
                proxies == capped(pair_sum(self.sessions.entries().take(i as int), fp)),
                pooled_conns == capped(pair_sum(self.sessions.entries().take(i as int), fw)),
            decreases n - i,
        {
            let ghost e = self.sessions.entries();
            let (_, key) = self.sessions.nth(i);
            assert(v.sessions.contains_key(e[i as int].0));
            if let Some(s) = self.live.get(key) {
                let count: usize = s.proxies.len();
                let idle: usize = count_pooled(s);
                assert(e.take(i + 1).drop_last() =~= e.take(i as int));
                proxies = add_capped(
                    proxies,
                    count,
                    Ghost(pair_sum(e.take(i as int), fp)),
                    Ghost(count as nat),
                );
                pooled_conns = add_capped(
                    pooled_conns,
                    idle,
                    Ghost(pair_sum(e.take(i as int), fw)),
                    Ghost(pooled(v.live[*key])),
                );
            }
            i += 1;
        }
        let m: usize = self.udp.len();
        let mut udp_sessions: usize = 0;
        let mut j: usize = 0;
        while j < m
            invariant
                j <= m == self.udp.entries().len(),
                fu == (|n: Seq<char>, u: UdpView| u.sessions.len()),
                udp_sessions == capped(pair_sum(self.udp.entries().take(j as int), fu)),
            decreases m - j,
        {
            let ghost e = self.udp.entries();
            let (_, u) = self.udp.nth(j);
            let count: usize = u.sessions.len();
            assert(e.take(j + 1).drop_last() =~= e.take(j as int));
            udp_sessions = add_capped(
                udp_sessions,
                count,
                Ghost(pair_sum(e.take(j as int), fu)),
                Ghost(count as nat),
            );
            j += 1;
        }
        proof {
            assert(self.sessions.entries().take(n as int) =~= self.sessions.entries());
            assert(self.udp.entries().take(m as int) =~= self.udp.entries());
            lemma_pair_sum(self.sessions.entries(), fp);
            lemma_pair_sum(self.sessions.entries(), fw);
            lemma_pair_sum(self.udp.entries(), fu);
        }
        Gauges {
            sessions: n,
            proxies,
            pending_work: self.pending.len(),
            udp_sessions,
            pooled_work_conns: pooled_conns,
        }
    }

    /// Gives out the next work id. It is never the reserved one.
    pub fn next_work_id(&mut self) -> (r: u64)
        requires
            old(self)@.work_id < u64::MAX,
        ensures
            r == old(self)@.work_id + 1,
            r != WORK_ID_POOL_RESERVED,
            final(self)@ == (StateView { work_id: r, ..old(self)@ }),
            old(self)@.wf() ==> final(self)@.wf(),
    {
        self.work_id = self.work_id + 1;
        self.work_id
    }

    /// Notes which client the proxy belongs to.
    pub fn index_proxy(&mut self, proxy_name: &str, run_id: &str)
        ensures
            final(self)@ == (StateView {
                proxy_index: old(self)@.proxy_index.insert(proxy_name@, run_id@),
                ..old(self)@
            }),
            old(self)@.wf() ==> final(self)@.wf(),
    {
        self.proxy_index.insert(proxy_name.to_owned(), run_id.to_owned());
    }

    /// Forgets which client the named proxies belong to.
    pub fn unindex_proxies(&mut self, names: &Vec<String>)
        ensures
            final(self)@ == (StateView {
                proxy_index: without_names(old(self)@.proxy_index, names.deep_view()),
                ..old(self)@
            }),
            old(self)@.wf() ==> final(self)@.wf(),
    {
        remove_names(&mut self.proxy_index, names);
    }

    /// The current session of the client that has the proxy.
    pub fn session_for_proxy(&self, proxy_name: &str) -> (r: Option<u64>)
        ensures
            r == self@.proxy_session(proxy_name@),
    {
        match self.proxy_index.get(&proxy_name.to_owned()) {
            Some(run_id) => match self.sessions.get(run_id) {
                Some(key) => Some(*key),
                None => None,
            },
            None => None,
        }
    }

    /// Notes which client and proxy the domain belongs to.
    pub fn index_domain(&mut self, domain: &str, run_id: &str, proxy_name: &str)
        ensures
            final(self)@ == (StateView {
                domain_index: old(self)@.domain_index.insert(domain@, (run_id@, proxy_name@)),
                ..old(self)@
            }),
            old(self)@.wf() ==> final(self)@.wf(),
    {
        self.domain_index.insert(domain.to_owned(), (run_id.to_owned(), proxy_name.to_owned()));
    }

    /// Forgets whom the named domains belong to.
    pub fn unindex_domains(&mut self, names: &Vec<String>)
        ensures
            final(self)@ == (StateView {
                domain_index: without_names(old(self)@.domain_index, names.deep_view()),
                ..old(self)@
            }),
            old(self)@.wf() ==> final(self)@.wf(),
    {
        remove_names(&mut self.domain_index, names);
    }

    /// The current session of the client that has the domain, and the proxy.
    pub fn session_for_domain(&self, domain: &str) -> (r: Option<(u64, String)>)
        ensures
            match r {
                Some(p) => self@.domain_session(domain@) == Some((p.0, p.1@)),
                None => self@.domain_session(domain@) is None,
            },
    {
        match self.domain_index.get(&domain.to_owned()) {
            Some(owner) => match self.sessions.get(&owner.0) {
                Some(key) => Some((*key, owner.1.clone())),
                None => None,
            },
            None => None,
        }
    }

    /// The counters of a proxy, made where there are none.
    pub fn proxy_stats_for(&mut self, proxy_name: &str) -> (r: ProxyStats)
        ensures
            r == old(self)@.stats_of(proxy_name@),
            final(self)@ == (StateView {
                proxy_stats: old(self)@.proxy_stats.insert(
                    proxy_name@,
                    old(self)@.stats_of(proxy_name@),
                ),
                ..old(self)@
            }),
            old(self)@.wf() ==> final(self)@.wf(),
    {
        let name = proxy_name.to_owned();
        let found: Option<ProxyStats> = match self.proxy_stats.get(&name) {
            Some(s) => Some(*s),
            None => None,
        };
        match found {
            Some(s) => {
                assert(self.proxy_stats@ =~= self.proxy_stats@.insert(name@, s));
                s
            },
            None => {
                let s = ProxyStats {
                    connections_total: 0,
                    active_connections: 0,
                    bytes_up: 0,
                    bytes_down: 0,
                };
                self.proxy_stats.insert(name, s);
                s
            },
        }
    }

    /// Takes a session in and gives it a key. It is not yet the current one of its
    /// client.
    pub fn add_session(&mut self, session: Session) -> (r: u64)
        ensures
            r == old(self)@.next_key(),
            final(self)@ == old(self)@.with_session(session.deep_view()),
            old(self)@.wf() ==> !old(self)@.live.contains_key(r) && final(self)@.wf(),
    {
        let key: u64 = self.free_key();
        if self.last_session < u64::MAX {
            self.last_session = self.last_session + 1;
        }
        self.live.insert(key, session);
        let held: usize = self.live.len();
        proof {
            lemma_room(self.live@, held);
            if old(self)@.wf() {
                lemma_next_key_free(old(self)@);
            }
        }
        key
    }

    /// The session key that is given out next.
    fn free_key(&self) -> (r: u64)
        ensures
            r == self@.next_key(),
    {
        if self.last_session < u64::MAX {
            return self.last_session + 1;
        }
        let held: usize = self.live.len();
        proof {
            lemma_room(self.live@, held);
        }
        let ghost free = choose|j: u64| !#[trigger] self.live@.contains_key(j);
        let mut k: u64 = 0;
        while self.live.contains_key(&k)
            invariant
                forall|j: u64| j < k ==> #[trigger] self.live@.contains_key(j),
                !self.live@.contains_key(free),
            decreases u64::MAX - k,
        {
            assert(k < free);
            k += 1;
        }
        assert(self@.is_least_free(k));
        proof {
            let c = choose|c: u64| self@.is_least_free(c);
            assert(self@.is_least_free(c));
            assert(c == k);
        }
        k
    }
}

/// A map with all keys below `n` has at least `n` of them.
proof fn lemma_keys_below<V>(m: Map<u64, V>, n: nat)
    requires
        m.dom().finite(),
        n <= 0x1_0000_0000_0000_0000,
        forall|k: u64| k < n ==> #[trigger] m.contains_key(k),
    ensures
        m.len() >= n,
    decreases n,
{
    if n > 0 {
        let last = (n - 1) as u64;
        assert(m.contains_key(last));
        lemma_keys_below(m.remove(last), (n - 1) as nat);
    }
}

/// A map whose size fits in a `usize` leaves a key free.
proof fn lemma_room<V>(m: Map<u64, V>, size: usize)
    requires
        m.dom().finite(),
        m.len() == size,
    ensures
        exists|k: u64| !#[trigger] m.contains_key(k),
{
    if forall|k: u64| #[trigger] m.contains_key(k) {
        lemma_keys_below(m, 0x1_0000_0000_0000_0000);
    }
}

/// Where a key is free, there is a smallest such.
proof fn lemma_least_free(v: StateView, k: u64)
    requires
        !v.live.contains_key(k),
    ensures
        exists|j: u64| #[trigger] v.is_least_free(j),
    decreases k,
{
    if exists|j: u64| j < k && !#[trigger] v.live.contains_key(j) {
        let j = choose|j: u64| j < k && !#[trigger] v.live.contains_key(j);
        lemma_least_free(v, j);
    } else {
        assert(v.is_least_free(k));
    }
}

/// The session key that is given out next is one that no session has.
pub proof fn lemma_next_key_free(v: StateView)
    requires
        v.wf(),
    ensures
        !v.live.contains_key(v.next_key()),
{
    let k = choose|k: u64| !#[trigger] v.live.contains_key(k);
    lemma_least_free(v, k);
}

/// Failed logins do not matter to what every operation keeps.
proof fn lemma_wf_ignores_failures(v: StateView, failures: Map<PeerIp, (u32, u128)>)
    ensures
        v.wf() ==> (StateView { login_failures: failures, ..v }).wf(),
{
}

/// Whether `at` is within `span` before `now`.
pub open spec fn is_within(at: u128, now: u128, span: int) -> bool {
    since(at, now) < span
}

/// Takes the named keys out of a table.
pub(crate) fn remove_names<V: DeepView>(table: &mut Table<String, V>, names: &Vec<String>)
    ensures
        final(table)@ == without_names(old(table)@, names.deep_view()),
{
    let mut i: usize = 0;
    assert(without_names(table@, names.deep_view().take(0)) =~= table@);
    while i < names.len()
        invariant
            i <= names@.len(),
            table@ == without_names(old(table)@, names.deep_view().take(i as int)),
        decreases names@.len() - i,
    {
        let ghost before = names.deep_view().take(i as int);
        table.remove(&names[i]);
        i += 1;
        let ghost after = names.deep_view().take(i as int);
        assert(after =~= before.push(names@[i - 1]@));
        assert forall|k: Seq<char>| after.contains(k) == (before.contains(k) || k
            == names@[i - 1]@) by {
            if before.contains(k) {
                let j = choose|j: int| 0 <= j < before.len() && before[j] == k;
                assert(after[j] == k);
            }
            if k == names@[i - 1]@ {
                assert(after[i - 1] == k);
            }
        }
        assert(table@ =~= without_names(old(table)@, after));
    }
    assert(names.deep_view().take(i as int) =~= names.deep_view());
}

/// The question whether an address may log in keeps what every operation keeps.
pub proof fn lemma_asked_keeps_wf(v: StateView, ip: PeerIp, now: u128)
    requires
        v.wf(),
    ensures
        v.asked_log_in(ip, now).wf(),
{
    let w = v.asked_log_in(ip, now);
    assert(w.live == v.live && w.sessions == v.sessions && w.udp == v.udp && w.pending
        == v.pending);
}

} // verus!
