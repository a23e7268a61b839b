//! Registration of proxies and the user connections that come to them.

use vstd::prelude::*;

use super::metrics::{Metrics, ProxyStats};
use super::session::{ProxyEntry, ProxyEntryView, Session, SessionView};
use super::state::{PendingView, PendingWork, ServerState, StateView};
use super::udp::{fresh_udp, register_udp_proxy};
use crate::clock::{elapsed_since, since};
use crate::counter::{bump, bump_by, lower, lowered, raise, raised, wrapped_sum};
use crate::limits::WORK_ID_POOL_RESERVED;
use crate::msg::{NewProxy, NewProxyView, ProxyError, ProxyType, ReqWorkConn};
use crate::table::{dropped_pairs, kept};
use crate::text::{copy_list, fold_case, folded};

verus! {

/// Whether a port may be used, by what the allowed ranges say of it.
pub open spec fn allowed_by(check: Option<bool>) -> bool {
    check == Some(true)
}

/// Whether a port may be used, where `check` is what the allowed ranges say of it
/// and is missing where they cannot be read: such ranges allow nothing.
pub fn port_allowed(check: Option<bool>) -> (r: bool)
    ensures
        r == allowed_by(check),
        r == (check == Some(true)),
{
    match check {
        Some(b) => b,
        None => false,
    }
}

/// How the port of a proxy was bound.
#[derive(Clone, Copy, Debug, PartialEq, Eq, Structural)]
pub enum BindOutcome {
    /// It listens.
    Bound,
    /// The port is in use.
    InUse,
    /// It failed for another reason.
    Failed,
}

/// The domains of a proxy, in lower case.
pub open spec fn lowered_domains(np: NewProxyView) -> Seq<Seq<char>> {
    match np.custom_domains {
        Some(d) => d.map_values(|x: Seq<char>| folded(x)),
        None => Seq::empty(),
    }
}

/// Executable form of [`lowered_domains`].
fn lower_domains(np: &NewProxy) -> (r: Vec<String>)
    ensures
        r.deep_view() == lowered_domains(np.deep_view()),
{
    let mut out: Vec<String> = Vec::new();
    if let Some(domains) = &np.custom_domains {
        let ghost all = lowered_domains(np.deep_view());
        let mut i: usize = 0;
        while i < domains.len()
            invariant
                i <= domains@.len(),
                np.custom_domains.deep_view() == Some(domains.deep_view()),
                all == lowered_domains(np.deep_view()),
                out.deep_view() == all.take(i as int),
            decreases domains@.len() - i,
        {
            let ghost before = out.deep_view();
            out.push(fold_case(domains[i].as_str()));
            i += 1;
            assert(out.deep_view() =~= before.push(folded(domains.deep_view()[i - 1])));
            assert(out.deep_view() =~= all.take(i as int));
        }
        assert(all.take(i as int) =~= all);
    } else {
        assert(out.deep_view() =~= Seq::<Seq<char>>::empty());
    }
    out
}

/// Whether a proxy is found by its domains rather than by a port.
pub open spec fn by_domain(kind: ProxyType) -> bool {
    kind == ProxyType::Http || kind == ProxyType::Https
}

/// Whether one of the domains belongs to a proxy already.
pub open spec fn domain_taken(v: StateView, domains: Seq<Seq<char>>) -> bool {
    exists|i: int| 0 <= i < domains.len() && v.domain_session(#[trigger] domains[i]) is Some
}

/// What is wrong with a proxy for the session under `key`, before any port is
/// bound. `allowed` says whether its port may be used.
pub open spec fn registration_error(
    v: StateView,
    key: u64,
    np: NewProxyView,
    allowed: bool,
) -> Option<ProxyError> {
    let s = v.live[key];
    let domains = lowered_domains(np);
    if s.proxies.len() >= v.limits.max_proxies_per_session {
        Some(ProxyError::TooManyProxies)
    } else if s.proxies.contains_key(np.proxy_name) {
        Some(ProxyError::NameExists)
    } else if by_domain(np.kind) && domains.len() == 0 {
        Some(ProxyError::InvalidField)
    } else if domain_taken(v, domains) {
        Some(ProxyError::DomainConflict)
    } else if by_domain(np.kind) {
        None
    } else if np.remote_port is None {
        Some(ProxyError::InvalidField)
    } else if !allowed {
        Some(ProxyError::PortNotAllowed)
    } else {
        None
    }
}

/// What is wrong with a proxy after its port was bound, where it has one.
pub open spec fn bind_error(kind: ProxyType, bind: BindOutcome) -> Option<ProxyError> {
    if by_domain(kind) || bind == BindOutcome::Bound {
        None
    } else if bind == BindOutcome::InUse {
        Some(ProxyError::PortOccupied)
    } else {
        Some(ProxyError::Internal)
    }
}

/// What a registration is refused for: what is wrong with the proxy, or else with
/// binding its port; nothing where it is taken on.
pub open spec fn registration_refusal(
    v: StateView,
    key: u64,
    np: NewProxyView,
    allowed: bool,
    bind: BindOutcome,
) -> Option<ProxyError> {
    match registration_error(v, key, np, allowed) {
        Some(e) => Some(e),
        None => bind_error(np.kind, bind),
    }
}

/// `m` with every key of `keys` set to `value`.
pub open spec fn with_keys<V>(m: Map<Seq<char>, V>, keys: Seq<Seq<char>>, value: V) -> Map<
    Seq<char>,
    V,
> {
    Map::new(
        |k: Seq<char>| m.contains_key(k) || keys.contains(k),
        |k: Seq<char>| if keys.contains(k) { value } else { m[k] },
    )
}

/// The entry of a registered proxy.
pub open spec fn entry_of(np: NewProxyView, handle: u64) -> ProxyEntryView {
    ProxyEntryView {
        handle,
        kind: np.kind,
        remote_port: if by_domain(np.kind) {
            None
        } else {
            np.remote_port
        },
        custom_domains: lowered_domains(np),
    }
}

/// The state after a proxy was registered: the session has it, its domains lead to
/// it, and its name leads to the client.
pub open spec fn registered(
    v: StateView,
    key: u64,
    np: NewProxyView,
    handle: u64,
    udp_session_timeout: u128,
) -> StateView {
    let s = v.live[key];
    let domains = lowered_domains(np);
    StateView {
        live: v.live.insert(
            key,
            SessionView {
                proxies: s.proxies.insert(np.proxy_name, entry_of(np, handle)),
                proxy_domains: with_keys(s.proxy_domains, domains, np.proxy_name),
                ..s
            },
        ),
        domain_index: with_keys(v.domain_index, domains, (s.run_id, np.proxy_name)),
        proxy_index: v.proxy_index.insert(np.proxy_name, s.run_id),
        udp: if np.kind == ProxyType::Udp {
            v.udp.insert(np.proxy_name, fresh_udp(v, handle, udp_session_timeout))
        } else {
            v.udp
        },
        ..v
    }
}

/// Checks a proxy before its port is bound. `Ok` holds the port to bind, where the
/// proxy has one.
pub fn plan_proxy(state: &ServerState, key: u64, np: &NewProxy, allowed: bool) -> (r: Result<
    Option<u16>,
    ProxyError,
>)
    requires
        state@.live.contains_key(key),
    ensures
        match r {
            Ok(port) => registration_error(state@, key, np.deep_view(), allowed) is None && port
                == (if by_domain(np.kind) {
                None
            } else {
                np.remote_port
            }),
            Err(e) => registration_error(state@, key, np.deep_view(), allowed) == Some(e),
        },
{
    if let Some(session) = state.live.get(&key) {
        if session.proxies.len() >= state.limits.max_proxies_per_session {
            return Err(ProxyError::TooManyProxies);
        }
        if session.proxies.contains_key(&np.proxy_name) {
            return Err(ProxyError::NameExists);
        }
    }
    let domains = lower_domains(np);
    let vhost: bool = match np.kind {
        ProxyType::Http | ProxyType::Https => true,
        _ => false,
    };
    if vhost && domains.len() == 0 {
        return Err(ProxyError::InvalidField);
    }
    let ghost all = domains.deep_view();
    let mut i: usize = 0;
    #[verifier::loop_isolation(false)]
    while i < domains.len()
        invariant
            i <= domains@.len(),
            all == domains.deep_view(),
            forall|j: int| 0 <= j < i ==> state@.domain_session(#[trigger] all[j]) is None,
        decreases domains@.len() - i,
    {
        assert(all[i as int] == domains@[i as int]@);
        if state.session_for_domain(domains[i].as_str()).is_some() {
            assert(state@.domain_session(all[i as int]) is Some);
            assert(domain_taken(state@, all));
            return Err(ProxyError::DomainConflict);
        }
        i += 1;
    }
    assert(!domain_taken(state@, all));
    if vhost {
        return Ok(None);
    }
    match np.remote_port {
        None => Err(ProxyError::InvalidField),
        Some(port) => if allowed {
            Ok(Some(port))
        } else {
            Err(ProxyError::PortNotAllowed)
        },
    }
}

/// Sets every key of `keys` to `value`.
fn set_all(
    table: &mut crate::table::Table<String, String>,
    keys: &Vec<String>,
    value: &String,
)
    ensures
        final(table)@ == with_keys(old(table)@, keys.deep_view(), value@),
{
    let mut i: usize = 0;
    assert(with_keys(table@, keys.deep_view().take(0), value@) =~= table@);
    while i < keys.len()
        invariant
            i <= keys@.len(),
            table@ == with_keys(old(table)@, keys.deep_view().take(i as int), value@),
        decreases keys@.len() - i,
    {
        table.insert(keys[i].clone(), value.clone());
        i += 1;
        proof {
            lemma_with_keys(old(table)@, keys.deep_view(), i as int, value@);
        }
    }
    assert(keys.deep_view().take(i as int) =~= keys.deep_view());
}

/// One more key set.
proof fn lemma_with_keys<V>(m: Map<Seq<char>, V>, keys: Seq<Seq<char>>, i: int, value: V)
    requires
        0 < i <= keys.len(),
    ensures
        with_keys(m, keys.take(i), value) == with_keys(m, keys.take(i - 1), value).insert(
            keys[i - 1],
            value,
        ),
{
    let before = keys.take(i - 1);
    let after = keys.take(i);
    assert forall|k: Seq<char>| after.contains(k) == (before.contains(k) || k == keys[i - 1]) by {
        if after.contains(k) {
            let j = choose|j: int| 0 <= j < after.len() && after[j] == k;
            if j < i - 1 {
                assert(before[j] == k);
            }
        }
        if before.contains(k) {
            let j = choose|j: int| 0 <= j < before.len() && before[j] == k;
            assert(after[j] == k);
        }
        if k == keys[i - 1] {
            assert(after[i - 1] == k);
        }
    }
    assert(with_keys(m, after, value) =~= with_keys(m, before, value).insert(keys[i - 1], value));
}

/// Leads every domain to a client and its proxy.
fn index_all(state: &mut ServerState, domains: &Vec<String>, run_id: &String, name: &String)
    ensures
        final(state)@ == (StateView {
            domain_index: with_keys(
                old(state)@.domain_index,
                domains.deep_view(),
                (run_id@, name@),
            ),
            ..old(state)@
        }),
{
    let ghost m = state@.domain_index;
    let mut i: usize = 0;
    assert(with_keys(m, domains.deep_view().take(0), (run_id@, name@)) =~= m);
    while i < domains.len()
        invariant
            i <= domains@.len(),
            m == old(state)@.domain_index,
            state@ == (StateView {
                domain_index: with_keys(
                    m,
                    domains.deep_view().take(i as int),
                    (run_id@, name@),
                ),
                ..old(state)@
            }),
        decreases domains@.len() - i,
    {
        state.index_domain(domains[i].as_str(), run_id.as_str(), name.as_str());
        i += 1;
        proof {
            lemma_with_keys(m, domains.deep_view(), i as int, (run_id@, name@));
        }
    }
    assert(domains.deep_view().take(i as int) =~= domains.deep_view());
}

/// Registers a proxy for the session under `key`. `allowed` says whether its port
/// may be used and `bind` how binding it went; `handle` is the task that listens.
pub fn register_proxy(
    state: &mut ServerState,
    key: u64,
    np: &NewProxy,
    allowed: bool,
    bind: BindOutcome,
    handle: u64,
    udp_session_timeout: u128,
) -> (r: Result<(), ProxyError>)
    requires
        old(state)@.wf(),
        old(state)@.live.contains_key(key),
    ensures
        match registration_refusal(old(state)@, key, np.deep_view(), allowed, bind) {
            Some(e) => r == Err::<(), ProxyError>(e),
            None => r is Ok,
        },
        match registration_error(old(state)@, key, np.deep_view(), allowed) {
            Some(e) => r == Err::<(), ProxyError>(e) && final(state)@ == old(state)@,
            None => match bind_error(np.kind, bind) {
                Some(e) => r == Err::<(), ProxyError>(e) && final(state)@ == old(state)@,
                None => r is Ok && final(state)@ == registered(
                    old(state)@,
                    key,
                    np.deep_view(),
                    handle,
                    udp_session_timeout,
                ),
            },
        },
        final(state)@.wf(),
{
    let ghost v = state@;
    let plan = plan_proxy(state, key, np, allowed);
    let remote_port: Option<u16> = match plan {
        Ok(port) => port,
        Err(e) => {
            return Err(e);
        },
    };
    let vhost: bool = match np.kind {
        ProxyType::Http | ProxyType::Https => true,
        _ => false,
    };
    if !vhost {
        match bind {
            BindOutcome::Bound => {},
            BindOutcome::InUse => {
                return Err(ProxyError::PortOccupied);
            },
            BindOutcome::Failed => {
                return Err(ProxyError::Internal);
            },
        }
    }
    let domains = lower_domains(np);
    let found = state.live.remove(&key);
    let mut s: Session = match found {
        Some(s) => s,
        None => {
            return Ok(());
        },
    };
    let ghost sv = v.live[key];
    set_all(&mut s.proxy_domains, &domains, &np.proxy_name);
    index_all(state, &domains, &s.run_id, &np.proxy_name);
    let entry = ProxyEntry {
        handle,
        kind: np.kind,
        remote_port,
        custom_domains: copy_list(&domains),
    };
    s.proxies.insert(np.proxy_name.clone(), entry);
    state.index_proxy(np.proxy_name.as_str(), s.run_id.as_str());
    state.live.insert(key, s);
    if np.kind == ProxyType::Udp {
        register_udp_proxy(state, &np.proxy_name, handle, udp_session_timeout);
    }
    proof {
        let w = registered(v, key, np.deep_view(), handle, udp_session_timeout);
        assert(state@.live =~= w.live);
        assert(state@ =~= w);
    }
    Ok(())
}

/// The state after a user connection to `name` was taken on.
pub open spec fn admitted(v: StateView, name: Seq<char>) -> StateView {
    let stats = v.stats_of(name);
    StateView {
        metrics: Metrics {
            active_connections: (v.metrics.active_connections + 1) as i64,
            total_connections: wrapped_sum(v.metrics.total_connections, 1),
            ..v.metrics
        },
        proxy_stats: v.proxy_stats.insert(
            name,
            ProxyStats {
                connections_total: wrapped_sum(stats.connections_total, 1),
                active_connections: raised(stats.active_connections),
                ..stats
            },
        ),
        ..v
    }
}

/// Takes a user connection to `proxy_name` on, unless as many are open as may be.
pub fn admit_user(state: &mut ServerState, proxy_name: &str) -> (r: bool)
    ensures
        r == (old(state)@.metrics.active_connections < old(state)@.max_active),
        final(state)@ == (if r {
            admitted(old(state)@, proxy_name@)
        } else {
            old(state)@
        }),
        old(state)@.wf() ==> final(state)@.wf(),
{
    if state.metrics.active_connections >= state.max_active {
        return false;
    }
    state.metrics.active_connections = state.metrics.active_connections + 1;
    state.metrics.total_connections = bump(state.metrics.total_connections);
    let mut stats = state.proxy_stats_for(proxy_name);
    stats.connections_total = bump(stats.connections_total);
    stats.active_connections = raise(stats.active_connections);
    state.proxy_stats.insert(proxy_name.to_owned(), stats);
    assert(state@ =~= admitted(old(state)@, proxy_name@));
    true
}

/// The state after a user connection to `name` was closed.
pub open spec fn released(v: StateView, name: Seq<char>) -> StateView {
    let stats = v.stats_of(name);
    StateView {
        metrics: Metrics {
            active_connections: lowered(v.metrics.active_connections),
            ..v.metrics
        },
        proxy_stats: v.proxy_stats.insert(
            name,
            ProxyStats { active_connections: lowered(stats.active_connections), ..stats },
        ),
        ..v
    }
}

/// Notes that a user connection to `proxy_name` has closed.
pub fn release_user(state: &mut ServerState, proxy_name: &str)
    ensures
        final(state)@ == released(old(state)@, proxy_name@),
        final(state)@ == (StateView {
            metrics: Metrics {
                active_connections: lowered(old(state)@.metrics.active_connections),
                ..old(state)@.metrics
            },
            proxy_stats: old(state)@.proxy_stats.insert(
                proxy_name@,
                ProxyStats {
                    active_connections: lowered(
                        old(state)@.stats_of(proxy_name@).active_connections,
                    ),
                    ..old(state)@.stats_of(proxy_name@)
                },
            ),
            ..old(state)@
        }),
        old(state)@.wf() ==> final(state)@.wf(),
{
    state.metrics.active_connections = lower(state.metrics.active_connections);
    let mut stats = state.proxy_stats_for(proxy_name);
    stats.active_connections = lower(stats.active_connections);
    state.proxy_stats.insert(proxy_name.to_owned(), stats);
    proof {
        let v = old(state)@;
        assert(state@.proxy_stats =~= v.proxy_stats.insert(proxy_name@, stats));
    }
}

/// The state after bytes went through a user connection to `name`.
pub open spec fn carried(v: StateView, name: Seq<char>, up: u64, down: u64) -> StateView {
    let stats = v.stats_of(name);
    StateView {
        metrics: Metrics {
            bytes_up: wrapped_sum(v.metrics.bytes_up, up),
            bytes_down: wrapped_sum(v.metrics.bytes_down, down),
            ..v.metrics
        },
        proxy_stats: v.proxy_stats.insert(
            name,
            ProxyStats {
                bytes_up: wrapped_sum(stats.bytes_up, up),
                bytes_down: wrapped_sum(stats.bytes_down, down),
                ..stats
            },
        ),
        ..v
    }
}

/// Counts bytes that went through a user connection to `proxy_name`.
pub fn count_traffic(state: &mut ServerState, proxy_name: &str, up: u64, down: u64)
    ensures
        final(state)@ == carried(old(state)@, proxy_name@, up, down),
        final(state)@ == (StateView {
            metrics: Metrics {
                bytes_up: wrapped_sum(old(state)@.metrics.bytes_up, up),
                bytes_down: wrapped_sum(old(state)@.metrics.bytes_down, down),
                ..old(state)@.metrics
            },
            proxy_stats: old(state)@.proxy_stats.insert(
                proxy_name@,
                ProxyStats {
                    bytes_up: wrapped_sum(old(state)@.stats_of(proxy_name@).bytes_up, up),
                    bytes_down: wrapped_sum(old(state)@.stats_of(proxy_name@).bytes_down, down),
                    ..old(state)@.stats_of(proxy_name@)
                },
            ),
            ..old(state)@
        }),
        old(state)@.wf() ==> final(state)@.wf(),
{
    state.metrics.bytes_up = bump_by(state.metrics.bytes_up, up);
    state.metrics.bytes_down = bump_by(state.metrics.bytes_down, down);
    let mut stats = state.proxy_stats_for(proxy_name);
    stats.bytes_up = bump_by(stats.bytes_up, up);
    stats.bytes_down = bump_by(stats.bytes_down, down);
    state.proxy_stats.insert(proxy_name.to_owned(), stats);
    proof {
        let v = old(state)@;
        assert(state@.proxy_stats =~= v.proxy_stats.insert(proxy_name@, stats));
    }
}

/// The state after the latest idle work connection of a proxy was taken.
pub open spec fn popped(v: StateView, key: u64, name: Seq<char>) -> StateView {
    let s = v.live[key];
    if s.pool(name).len() == 0 {
        v
    } else {
        StateView {
            live: v.live.insert(
                key,
                SessionView { pools: s.pools.insert(name, s.pools[name].drop_last()), ..s },
            ),
            ..v
        }
    }
}

/// Takes the latest idle work connection of a proxy. Whether it is still alive is
/// to be seen; where it is not, the next one is taken.
pub fn pop_pooled(state: &mut ServerState, key: u64, proxy_name: &String) -> (r: Option<u64>)
    requires
        old(state)@.wf(),
        old(state)@.live.contains_key(key),
    ensures
        final(state)@ == popped(old(state)@, key, proxy_name@),
        final(state)@.wf(),
        match r {
            Some(work) => old(state)@.live[key].pool(proxy_name@).len() > 0 && work == old(
                state,
            )@.live[key].pool(proxy_name@).last(),
            None => old(state)@.live[key].pool(proxy_name@).len() == 0,
        },
{
    let ghost v = state@;
    let found = state.live.remove(&key);
    let mut s: Session = match found {
        Some(s) => s,
        None => {
            return None;
        },
    };
    let r: Option<u64> = match s.pools.remove(proxy_name) {
        Some(mut pool) => {
            let ghost before = pool.deep_view();
            assert(before =~= pool@);
            let work: Option<u64> = pool.pop();
            assert(before.len() > 0 ==> pool.deep_view() =~= before.drop_last());
            assert(before.len() == 0 ==> pool.deep_view() =~= before);
            s.pools.insert(proxy_name.clone(), pool);
            work
        },
        None => None,
    };
    proof {
        let name = proxy_name@;
        let p = v.live[key].pools;
        assert(p.contains_key(name) ==> p.remove(name).insert(name, p[name]) =~= p);
        assert(!p.contains_key(name) ==> p.remove(name) =~= p);
        if p.contains_key(name) && p[name].len() > 0 {
            assert(s.pools@ =~= p.insert(name, p[name].drop_last()));
        } else {
            assert(s.pools@ =~= p);
        }
    }
    state.live.insert(key, s);
    proof {
        assert(state@.live =~= popped(v, key, proxy_name@).live);
    }
    r
}

/// What reading one byte of an idle work connection, without waiting, gave.
#[derive(Clone, Copy, Debug, PartialEq, Eq, Structural)]
pub enum Probe {
    /// Nothing yet.
    NoData,
    /// The end.
    Eof,
    /// A byte, which is not to be lost.
    Data(u8),
    /// An error.
    Failed,
}

/// Whether an idle work connection is alive: it has not ended. What was read of it
/// is handed back.
pub fn probe_alive(probe: Probe) -> (r: Result<Option<u8>, ()>)
    ensures
        r == (match probe {
            Probe::NoData => Ok::<Option<u8>, ()>(None),
            Probe::Data(b) => Ok(Some(b)),
            Probe::Eof | Probe::Failed => Err(()),
        }),
{
    match probe {
        Probe::NoData => Ok(None),
        Probe::Data(b) => Ok(Some(b)),
        Probe::Eof | Probe::Failed => Err(()),
    }
}

/// How the search for a living idle work connection goes on.
#[derive(Clone, Copy, Debug, PartialEq, Eq, Structural)]
pub enum PoolStep {
    /// See whether this one is alive.
    Probe(u64),
    /// Use this one; put the byte before what it gives.
    Use { work: u64, byte: Option<u8> },
    /// There is none.
    Empty,
}

/// One step of the search for a living idle work connection: the one that was probed
/// is used where it is alive, and else the next one is taken.
pub fn pop_live_pooled(
    state: &mut ServerState,
    key: u64,
    proxy_name: &String,
    probed: Option<(u64, Probe)>,
) -> (r: PoolStep)
    requires
        old(state)@.wf(),
        old(state)@.live.contains_key(key),
    ensures
        match probed {
            Some((work, Probe::NoData)) => r == (PoolStep::Use { work, byte: None })
                && final(state)@ == old(state)@,
            Some((work, Probe::Data(b))) => r == (PoolStep::Use { work, byte: Some(b) })
                && final(state)@ == old(state)@,
            _ => final(state)@ == popped(old(state)@, key, proxy_name@) && r == (if old(
                state,
            )@.live[key].pool(proxy_name@).len() > 0 {
                PoolStep::Probe(old(state)@.live[key].pool(proxy_name@).last())
            } else {
                PoolStep::Empty
            }),
        },
        final(state)@.wf(),
{
    if let Some((work, probe)) = probed {
        if let Ok(byte) = probe_alive(probe) {
            return PoolStep::Use { work, byte };
        }
    }
    match pop_pooled(state, key, proxy_name) {
        Some(work) => PoolStep::Probe(work),
        None => PoolStep::Empty,
    }
}

/// What happened to a user connection.
#[derive(Clone, Copy, Debug, PartialEq, Eq, Structural)]
pub enum DispatchEvent {
    /// It came.
    Arrived,
    /// This idle work connection was probed for it.
    Probed(u64, Probe),
}

/// How a user connection is served.
pub enum DispatchAction {
    /// Not at all: as many are open as may be.
    Reject,
    /// See whether this idle work connection is alive.
    Probe(u64),
    /// Join it with this idle work connection, with the byte that was read of it put
    /// before what it gives, and ask for another one to keep.
    Bridge { work: u64, byte: Option<u8>, request: ReqWorkConn },
    /// Let it wait, and ask for a work connection.
    Wait { request: ReqWorkConn },
}

/// The state after a user connection began to wait.
pub open spec fn waiting(
    v: StateView,
    key: u64,
    name: Seq<char>,
    user: u64,
    now: u128,
) -> StateView {
    let id = (v.work_id + 1) as u64;
    StateView {
        work_id: id,
        pending: v.pending.insert(
            id,
            PendingView {
                proxy_name: name,
                session_id: v.live[key].session_id,
                user: Some(user),
                created: now,
            },
        ),
        ..v
    }
}

/// The state after a work connection was sought for a user connection: the latest
/// idle one is taken, or the user connection waits.
pub open spec fn after_search(
    v: StateView,
    key: u64,
    name: Seq<char>,
    user: u64,
    now: u128,
) -> StateView {
    if v.live[key].pool(name).len() > 0 {
        popped(v, key, name)
    } else {
        waiting(v, key, name, user, now)
    }
}

/// What is done about a user connection when a work connection is sought for it.
pub open spec fn search_action(
    action: DispatchAction,
    v: StateView,
    key: u64,
    name: Seq<char>,
) -> bool {
    if v.live[key].pool(name).len() > 0 {
        action == DispatchAction::Probe(v.live[key].pool(name).last())
    } else {
        action matches DispatchAction::Wait { request } && request.proxy_name@ == name
            && request.work_id == v.work_id + 1
    }
}

/// Whether a step of serving a user connection gives out the id of a work connection
/// that is asked for: no idle one is left for a connection that is to be served.
pub open spec fn needs_work_id(
    v: StateView,
    key: u64,
    name: Seq<char>,
    event: DispatchEvent,
) -> bool {
    &&& v.live[key].pool(name).len() == 0
    &&& match event {
        DispatchEvent::Arrived => v.metrics.active_connections < v.max_active,
        DispatchEvent::Probed(_, probe) => !is_alive(probe),
    }
}

/// The state after a step of serving a user connection.
pub open spec fn after_dispatch(
    v: StateView,
    key: u64,
    name: Seq<char>,
    user: u64,
    event: DispatchEvent,
    now: u128,
) -> StateView {
    match event {
        DispatchEvent::Arrived => if v.metrics.active_connections < v.max_active {
            after_search(admitted(v, name), key, name, user, now)
        } else {
            v
        },
        DispatchEvent::Probed(_, probe) => if is_alive(probe) {
            v
        } else {
            after_search(v, key, name, user, now)
        },
    }
}

/// Whether a probe shows a living work connection.
pub open spec fn is_alive(probe: Probe) -> bool {
    probe == Probe::NoData || probe is Data
}

/// The byte that a probe has read.
pub open spec fn probed_byte(probe: Probe) -> Option<u8> {
    match probe {
        Probe::Data(b) => Some(b),
        _ => None,
    }
}

/// What is done about a user connection in a step of serving it.
pub open spec fn dispatch_action(
    action: DispatchAction,
    v: StateView,
    key: u64,
    name: Seq<char>,
    event: DispatchEvent,
) -> bool {
    match event {
        DispatchEvent::Arrived => if v.metrics.active_connections < v.max_active {
            search_action(action, v, key, name)
        } else {
            action is Reject
        },
        DispatchEvent::Probed(w, probe) => if is_alive(probe) {
            &&& action matches DispatchAction::Bridge { work, byte, request }
            &&& work == w
            &&& byte == probed_byte(probe)
            &&& request.proxy_name@ == name
            &&& request.work_id == WORK_ID_POOL_RESERVED
        } else {
            search_action(action, v, key, name)
        },
    }
}

/// One step of serving the user connection `user`: it is taken on, unless as many
/// are open as may be; then an idle work connection that is alive serves it, or one
/// that is asked for.
pub fn dispatch_user_connection(
    state: &mut ServerState,
    key: u64,
    proxy_name: &String,
    user: u64,
    event: DispatchEvent,
    now: u128,
) -> (r: DispatchAction)
    requires
        old(state)@.wf(),
        old(state)@.live.contains_key(key),
        needs_work_id(old(state)@, key, proxy_name@, event) ==> old(state)@.work_id < u64::MAX,
    ensures
        ({
            let v = old(state)@;
            let name = proxy_name@;
            match event {
                DispatchEvent::Arrived => if v.metrics.active_connections < v.max_active {
                    search_action(r, v, key, name)
                } else {
                    r is Reject
                },
                DispatchEvent::Probed(w, probe) => if is_alive(probe) {
                    &&& r matches DispatchAction::Bridge { work, byte, request }
                    &&& work == w
                    &&& byte == probed_byte(probe)
                    &&& request.proxy_name@ == name
                    &&& request.work_id == WORK_ID_POOL_RESERVED
                } else {
                    search_action(r, v, key, name)
                },
            }
        }),
        dispatch_action(r, old(state)@, key, proxy_name@, event),
        final(state)@ == after_dispatch(old(state)@, key, proxy_name@, user, event, now),
        final(state)@.wf(),
{
    let probed: Option<(u64, Probe)> = match event {
        DispatchEvent::Arrived => {
            if !admit_user(state, proxy_name.as_str()) {
                return DispatchAction::Reject;
            }
            None
        },
        DispatchEvent::Probed(work, probe) => Some((work, probe)),
    };
    match pop_live_pooled(state, key, proxy_name, probed) {
        PoolStep::Probe(work) => DispatchAction::Probe(work),
        PoolStep::Use { work, byte } => DispatchAction::Bridge {
            work,
            byte,
            request: ReqWorkConn {
                proxy_name: proxy_name.clone(),
                work_id: WORK_ID_POOL_RESERVED,
            },
        },
        PoolStep::Empty => {
            let session_id: String = match state.live.get(&key) {
                Some(s) => s.session_id.clone(),
                None => String::new(),
            };
            let work_id: u64 = state.next_work_id();
            state.pending.insert(
                work_id,
                PendingWork {
                    proxy_name: proxy_name.clone(),
                    session_id,
                    user: Some(user),
                    created: now,
                },
            );
            DispatchAction::Wait {
                request: ReqWorkConn { proxy_name: proxy_name.clone(), work_id },
            }
        },
    }
}

/// The state after the work connection `work_id` was given up on.
pub open spec fn given_up(v: StateView, work_id: u64) -> StateView {
    StateView { pending: v.pending.remove(work_id), ..v }
}

/// The user connection that waits for the work connection `work_id`.
pub open spec fn waiting_user(v: StateView, work_id: u64) -> Option<u64> {
    if v.pending.contains_key(work_id) {
        v.pending[work_id].user
    } else {
        None
    }
}

/// Gives up on the work connection `work_id`: it could not be asked for, or did not
/// come in time. What is returned is the user connection to close.
pub fn drop_pending(state: &mut ServerState, work_id: u64) -> (r: Option<u64>)
    requires
        old(state)@.wf(),
    ensures
        r == waiting_user(old(state)@, work_id),
        final(state)@ == given_up(old(state)@, work_id),
        r == (if old(state)@.pending.contains_key(work_id) {
            old(state)@.pending[work_id].user
        } else {
            None
        }),
        final(state)@ == (StateView {
            pending: old(state)@.pending.remove(work_id),
            ..old(state)@
        }),
        final(state)@.wf(),
{
    match state.pending.remove(&work_id) {
        Some(p) => p.user,
        None => None,
    }
}

/// Whether a user connection has not yet waited `timeout` at `now`.
pub open spec fn still_waits(p: PendingView, timeout: u128, now: u128) -> bool {
    since(p.created, now) < timeout
}

/// Whether a user connection has not yet waited `timeout` at `now`.
fn waits_on(p: &PendingWork, timeout: u128, now: u128) -> (r: bool)
    ensures
        r == still_waits(p.deep_view(), timeout, now),
{
    elapsed_since(p.created, now) < timeout
}

/// The state after all work connections were given up on that did not come within
/// `timeout`.
pub open spec fn after_sweep(v: StateView, timeout: u128, now: u128) -> StateView {
    StateView {
        pending: kept(v.pending, |id: u64, p: PendingView| still_waits(p, timeout, now)),
        ..v
    }
}

/// Whether a sweep hands out the entry `p` that waited under `id`.
pub open spec fn swept_out(v: StateView, timeout: u128, now: u128, id: u64, p: PendingView) -> bool {
    v.pending.contains_key(id) && v.pending[id] == p && !still_waits(p, timeout, now)
}

/// Gives up on all work connections that did not come within `timeout`; hands out
/// what waited for them.
pub fn sweep_expired_pending(state: &mut ServerState, timeout: u128, now: u128) -> (r: Vec<
    (u64, PendingWork),
>)
    requires
        old(state)@.wf(),
    ensures
        final(state)@ == (StateView {
            pending: kept(
                old(state)@.pending,
                |id: u64, p: PendingView| still_waits(p, timeout, now),
            ),
            ..old(state)@
        }),
        final(state)@.wf(),
        crate::table::deep_pairs(r@) == dropped_pairs(
            old(state).pending.entries(),
            |id: u64, p: PendingView| still_waits(p, timeout, now),
        ),
        final(state)@ == after_sweep(old(state)@, timeout, now),
        forall|id: u64, p: PendingView| #[trigger]
            crate::table::deep_pairs(r@).contains((id, p)) <==> swept_out(
                old(state)@,
                timeout,
                now,
                id,
                p,
            ),
{
    let _count: usize = state.pending.len();
    proof {
        crate::table::lemma_dropped_pairs(
            state.pending.entries(),
            |id: u64, p: PendingView| still_waits(p, timeout, now),
        );
    }
    state.pending.retain(
        |_id: &u64, p: &PendingWork| -> (b: bool)
            ensures
                b == still_waits(p.deep_view(), timeout, now)
            { waits_on(p, timeout, now) },
        Ghost(|id: u64, p: PendingView| still_waits(p, timeout, now)),
    )
}

/// A port may be used only where the ranges say so: ranges that cannot be read, or do not
/// hold it, allow nothing.
pub proof fn law_ports_are_closed_by_default()
    ensures
        !allowed_by(None),
        !allowed_by(Some(false)),
        allowed_by(Some(true)),
{
}

} // verus!
