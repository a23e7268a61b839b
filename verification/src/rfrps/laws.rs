//! What holds of the server across its operations.

use vstd::prelude::*;
use vstd::utf8::*;

use super::control::{cleaned, finished, is_udp_of, leaves, opened, Cleaned};
use super::dashboard::{route_of as dashboard_route, ParsedHeadView, Route};
use super::listener::{
    admitted, after_dispatch, bind_error, by_domain, domain_taken, lowered_domains, needs_work_id,
    popped, registered, registration_error, waiting, BindOutcome, DispatchEvent,
};
use super::session::{ProxyEntryView, SessionView};
use super::state::{lemma_next_key_free, StateView};
use super::vhost::route_of;
use super::work::{after_work, token_ok, work_action, WorkAction, WorkRefusal};
use crate::addr::PeerIp;
use crate::clock::{since, Clock};
use crate::counter::lowered;
use crate::limits::{Limits, WORK_ID_POOL_RESERVED};
use crate::msg::{NewProxyView, ProxyError, ProxyType};
use crate::text::{ascii_lowered, folded};

verus! {

/// The state after failed logins of `ip` at these times.
pub open spec fn after_failures(v: StateView, ip: PeerIp, times: Seq<u128>) -> StateView
    decreases times.len(),
{
    if times.len() == 0 {
        v
    } else {
        after_failures(v, ip, times.drop_last()).login_failed(ip, times.last())
    }
}

/// Failed logins that fall into one window are counted one by one.
proof fn lemma_failures_counted(v: StateView, ip: PeerIp, times: Seq<u128>)
    requires
        0 < times.len() <= u32::MAX,
        !v.failures_current(ip, times[0]),
        forall|i: int|
            0 <= i < times.len() ==> since(times[0], #[trigger] times[i]) < v.login_window(),
    ensures
        ({
            let w = after_failures(v, ip, times);
            &&& w.limits == v.limits
            &&& w.login_failures.contains_key(ip)
            &&& w.login_failures[ip] == (times.len() as u32, times[0])
        }),
    decreases times.len(),
{
    let before = times.drop_last();
    if before.len() == 0 {
        assert(after_failures(v, ip, before) == v);
        assert(since(times[0], times[0]) < v.login_window());
    } else {
        assert forall|i: int| 0 <= i < before.len() implies since(
            before[0],
            #[trigger] before[i],
        ) < v.login_window() by {
            assert(before[i] == times[i]);
        }
        assert(before[0] == times[0]);
        lemma_failures_counted(v, ip, before);
        assert(since(times[0], times[times.len() - 1]) < v.login_window());
    }
}

/// An address is blocked exactly from the moment on that it has failed to log in as
/// often as the limit says within one window.
pub proof fn law_login_blocked_at_limit(v: StateView, ip: PeerIp, times: Seq<u128>, now: u128)
    requires
        0 < times.len() <= u32::MAX,
        !v.failures_current(ip, times[0]),
        forall|i: int|
            0 <= i < times.len() ==> since(times[0], #[trigger] times[i]) < v.login_window(),
        since(times[0], now) < v.login_window(),
    ensures
        after_failures(v, ip, times).may_log_in(ip, now) <==> times.len()
            < v.limits.login_failure_limit,
{
    lemma_failures_counted(v, ip, times);
}

/// What is done to the record of failed logins.
pub enum LoginCall {
    /// An address asks at a time whether it may log in.
    Asked(PeerIp, u128),
    /// A login of an address fails at a time.
    Failed(PeerIp, u128),
    /// A login of an address succeeds.
    Cleared(PeerIp),
}

/// The state after one of these calls.
pub open spec fn after_call(v: StateView, call: LoginCall) -> StateView {
    match call {
        LoginCall::Asked(ip, t) => v.asked_log_in(ip, t),
        LoginCall::Failed(ip, t) => v.login_failed(ip, t),
        LoginCall::Cleared(ip) => StateView { login_failures: v.login_failures.remove(ip), ..v },
    }
}

/// The state after all calls, in order.
pub open spec fn after_calls(v: StateView, calls: Seq<LoginCall>) -> StateView
    decreases calls.len(),
{
    if calls.len() == 0 {
        v
    } else {
        after_call(after_calls(v, calls.drop_last()), calls.last())
    }
}

/// How many of the calls are failed logins of `ip`.
pub open spec fn failed_calls(calls: Seq<LoginCall>, ip: PeerIp) -> nat
    decreases calls.len(),
{
    if calls.len() == 0 {
        0
    } else {
        let before = failed_calls(calls.drop_last(), ip);
        match calls.last() {
            LoginCall::Failed(a, _) => if a == ip {
                before + 1
            } else {
                before
            },
            _ => before,
        }
    }
}

/// Whether a call falls within the window that begins at `start`, and is no
/// successful login of `ip`.
pub open spec fn within_window(v: StateView, call: LoginCall, ip: PeerIp, start: u128) -> bool {
    match call {
        LoginCall::Asked(_, t) => start <= t && since(start, t) < v.login_window(),
        LoginCall::Failed(_, t) => start <= t && since(start, t) < v.login_window(),
        LoginCall::Cleared(a) => a != ip,
    }
}

/// The record of `ip` after such calls holds its own failed logins, from `start` on.
proof fn lemma_own_failures(v: StateView, ip: PeerIp, start: u128, calls: Seq<LoginCall>)
    requires
        !v.failures_current(ip, start),
        failed_calls(calls, ip) <= u32::MAX,
        forall|i: int|
            0 <= i < calls.len() ==> within_window(v, #[trigger] calls[i], ip, start),
    ensures
        ({
            let w = after_calls(v, calls);
            let n = failed_calls(calls, ip);
            &&& w.limits == v.limits
            &&& n == 0 ==> !w.failures_current(ip, start)
            &&& n > 0 ==> w.login_failures.contains_key(ip) && w.login_failures[ip].0 == n
                && w.login_failures[ip].1 >= start
        }),
    decreases calls.len(),
{
    if calls.len() > 0 {
        let before = calls.drop_last();
        assert forall|i: int| 0 <= i < before.len() implies within_window(
            v,
            #[trigger] before[i],
            ip,
            start,
        ) by {
            assert(before[i] == calls[i]);
        }
        lemma_own_failures(v, ip, start, before);
        assert(within_window(v, calls[calls.len() - 1], ip, start));
    }
}

/// Within one window an address is blocked exactly when it has itself failed to log in
/// as often as the limit says, whatever other addresses do in between.
pub proof fn law_login_limit_among_others(
    v: StateView,
    ip: PeerIp,
    start: u128,
    calls: Seq<LoginCall>,
    now: u128,
)
    requires
        !v.failures_current(ip, start),
        failed_calls(calls, ip) <= u32::MAX,
        forall|i: int|
            0 <= i < calls.len() ==> within_window(v, #[trigger] calls[i], ip, start),
        start <= now,
        since(start, now) < v.login_window(),
    ensures
        after_calls(v, calls).may_log_in(ip, now) <==> failed_calls(calls, ip) == 0
            || failed_calls(calls, ip) < v.limits.login_failure_limit,
{
    lemma_own_failures(v, ip, start, calls);
}

/// A block ends with the window.
pub proof fn law_login_block_ends(v: StateView, ip: PeerIp, now: u128)
    requires
        v.login_failures.contains_key(ip) ==> since(v.login_failures[ip].1, now)
            >= v.login_window(),
    ensures
        v.may_log_in(ip, now),
{
}

/// A successful login ends a block.
pub proof fn law_login_clears_block(v: StateView, ip: PeerIp, now: u128)
    ensures
        (StateView { login_failures: v.login_failures.remove(ip), ..v }).may_log_in(ip, now),
{
}

/// Failed logins of one address do not block another.
pub proof fn law_login_failure_spares_others(
    v: StateView,
    ip: PeerIp,
    now: u128,
    other: PeerIp,
    later: u128,
)
    requires
        ip != other,
        now <= later,
    ensures
        v.login_failed(ip, now).may_log_in(other, later) == v.may_log_in(other, later),
{
}

/// A client that logs in again gets a fresh session, and nothing of its earlier one
/// is left: no proxy, no domain and no waiting user leads to it.
pub proof fn law_relogin_replaces(
    v: StateView,
    run_id: Seq<char>,
    session_id: Seq<char>,
    peer_ip: PeerIp,
    token: Seq<char>,
)
    requires
        v.wf(),
    ensures
        ({
            let w = opened(v, run_id, session_id, peer_ip, token);
            let key = v.next_key();
            &&& w.sessions.contains_key(run_id) && w.sessions[run_id] == key
            &&& w.live.contains_key(key)
            &&& w.live[key] == SessionView::fresh(run_id, session_id, peer_ip, token)
            &&& v.sessions.contains_key(run_id) ==> {
                let old_key = v.sessions[run_id];
                let s = v.live[old_key];
                &&& w.live[old_key].proxies.len() == 0
                &&& w.live[old_key].proxy_domains.len() == 0
                &&& w.live[old_key].pools.len() == 0
                &&& forall|n: Seq<char>| #[trigger]
                    s.proxies.contains_key(n) ==> w.proxy_session(n) is None
                &&& forall|d: Seq<char>| #[trigger]
                    s.proxy_domains.contains_key(d) ==> w.domain_session(d) is None
                &&& forall|id: u64| #[trigger]
                    w.pending.contains_key(id) ==> w.pending[id].session_id != s.session_id
            }
        }),
{
    lemma_next_key_free(v);
}

/// A login leaves the sessions of other clients as they are.
pub proof fn law_login_spares_others(
    v: StateView,
    run_id: Seq<char>,
    session_id: Seq<char>,
    peer_ip: PeerIp,
    token: Seq<char>,
    other: Seq<char>,
)
    requires
        v.wf(),
        other != run_id,
        v.sessions.contains_key(other),
    ensures
        ({
            let w = opened(v, run_id, session_id, peer_ip, token);
            &&& w.sessions.contains_key(other) && w.sessions[other] == v.sessions[other]
            &&& w.live[w.sessions[other]] == v.live[v.sessions[other]]
        }),
{
    let k = v.sessions[other];
    lemma_next_key_free(v);
    assert(v.live.contains_key(k));
    if v.sessions.contains_key(run_id) {
        assert(v.live[v.sessions[run_id]].run_id == run_id);
        assert(v.live[k].run_id == other);
    }
}

/// The control loop of a session that was replaced may end late: the session that
/// took its place stays the client's current one, untouched.
pub proof fn law_late_end_keeps_successor(v: StateView, old_key: u64, run_id: Seq<char>)
    requires
        v.wf(),
        v.live.contains_key(old_key),
        v.live[old_key].run_id == run_id,
        v.sessions.contains_key(run_id),
        v.sessions[run_id] != old_key,
    ensures
        ({
            let w = finished(v, old_key);
            &&& w.sessions == v.sessions
            &&& w.live[v.sessions[run_id]] == v.live[v.sessions[run_id]]
            &&& !w.live.contains_key(old_key)
        }),
{
}

/// A client logs in again, and the control loop of its earlier session ends only
/// after that: the new session is the client's current one and as it was opened,
/// nothing is left of the earlier one, and every other session, proxy and domain
/// is as it was before the login.
pub proof fn law_relogin_then_late_end(
    v: StateView,
    run_id: Seq<char>,
    session_id: Seq<char>,
    peer_ip: PeerIp,
    token: Seq<char>,
)
    requires
        v.wf(),
        v.sessions.contains_key(run_id),
    ensures
        ({
            let old_key = v.sessions[run_id];
            let s = v.live[old_key];
            let key = v.next_key();
            let w = finished(opened(v, run_id, session_id, peer_ip, token), old_key);
            &&& w.sessions == v.sessions.insert(run_id, key)
            &&& w.live == v.live.remove(old_key).insert(
                key,
                SessionView::fresh(run_id, session_id, peer_ip, token),
            )
            &&& forall|n: Seq<char>| #[trigger]
                w.proxy_index.contains_key(n) <==> v.proxy_index.contains_key(n)
                    && !s.proxies.contains_key(n)
            &&& forall|n: Seq<char>| #[trigger]
                w.proxy_index.contains_key(n) ==> w.proxy_index[n] == v.proxy_index[n]
            &&& forall|d: Seq<char>| #[trigger]
                w.domain_index.contains_key(d) <==> v.domain_index.contains_key(d)
                    && !s.proxy_domains.contains_key(d)
            &&& forall|d: Seq<char>| #[trigger]
                w.domain_index.contains_key(d) ==> w.domain_index[d] == v.domain_index[d]
        }),
{
    lemma_next_key_free(v);
    let old_key = v.sessions[run_id];
    assert(v.live.contains_key(old_key) && v.live[old_key].run_id == run_id);
    let o = opened(v, run_id, session_id, peer_ip, token);
    let w = finished(o, old_key);
    assert(o.sessions =~= v.sessions.insert(run_id, v.next_key()));
    assert(w.live =~= v.live.remove(old_key).insert(
        v.next_key(),
        SessionView::fresh(run_id, session_id, peer_ip, token),
    ));
}

/// The end of a client's current session leaves nothing of it: the client has no
/// session, and no proxy, domain, UDP proxy or waiting user is left of it.
pub proof fn law_end_forgets(v: StateView, key: u64)
    requires
        v.wf(),
        v.live.contains_key(key),
        v.sessions.contains_key(v.live[key].run_id),
        v.sessions[v.live[key].run_id] == key,
    ensures
        ({
            let s = v.live[key];
            let w = finished(v, key);
            &&& !w.sessions.contains_key(s.run_id)
            &&& !w.live.contains_key(key)
            &&& forall|n: Seq<char>| #[trigger]
                s.proxies.contains_key(n) ==> w.proxy_session(n) is None
            &&& forall|d: Seq<char>| #[trigger]
                s.proxy_domains.contains_key(d) ==> w.domain_session(d) is None
            &&& forall|n: Seq<char>| #[trigger] w.udp.contains_key(n) ==> !is_udp_of(s, n)
            &&& forall|id: u64| #[trigger]
                w.pending.contains_key(id) ==> w.pending[id].session_id != s.session_id
        }),
{
}

/// The end of a session spares what is not its own: other sessions, the users that
/// wait for them, and proxies, domains and UDP proxies of other names.
pub proof fn law_end_spares_others(v: StateView, key: u64, other: u64, id: u64, name: Seq<char>)
    requires
        v.live.contains_key(key),
        other != key,
    ensures
        ({
            let s = v.live[key];
            let w = cleaned(v, key);
            &&& v.live.contains_key(other) ==> w.live.contains_key(other) && w.live[other]
                == v.live[other]
            &&& v.pending.contains_key(id) && v.pending[id].session_id != s.session_id
                ==> w.pending.contains_key(id) && w.pending[id] == v.pending[id]
            &&& !s.proxies.contains_key(name) ==> w.proxy_session(name) == v.proxy_session(name)
            &&& !s.proxy_domains.contains_key(name) ==> w.domain_session(name) == v.domain_session(
                name,
            )
            &&& v.udp.contains_key(name) && !is_udp_of(s, name) ==> w.udp.contains_key(name)
                && w.udp[name] == v.udp[name]
            &&& w.sessions == v.sessions
        }),
{
}

/// Ending a session twice is ending it once.
pub proof fn law_end_twice(v: StateView, key: u64)
    requires
        v.live.contains_key(key),
    ensures
        cleaned(cleaned(v, key), key) == cleaned(v, key),
{
    let w = cleaned(v, key);
    let z = cleaned(w, key);
    assert(z.live =~= w.live);
    assert(z.udp =~= w.udp);
    assert(z.proxy_index =~= w.proxy_index);
    assert(z.domain_index =~= w.domain_index);
    assert(z.pending =~= w.pending);
}

/// A proxy that was registered for a client's current session is found by its name.
pub proof fn law_registered_is_found_by_name(
    v: StateView,
    key: u64,
    np: NewProxyView,
    handle: u64,
    timeout: u128,
)
    requires
        v.sessions.contains_key(v.live[key].run_id),
        v.sessions[v.live[key].run_id] == key,
    ensures
        registered(v, key, np, handle, timeout).proxy_session(np.proxy_name) == Some(key),
{
}

/// A proxy that was registered for a client's current session is found by each of
/// its domains, for a request of its type and no other.
pub proof fn law_registered_is_found_by_domain(
    v: StateView,
    key: u64,
    np: NewProxyView,
    handle: u64,
    timeout: u128,
    i: int,
)
    requires
        v.sessions.contains_key(v.live[key].run_id),
        v.sessions[v.live[key].run_id] == key,
        0 <= i < lowered_domains(np).len(),
    ensures
        ({
            let w = registered(v, key, np, handle, timeout);
            let d = lowered_domains(np)[i];
            &&& w.domain_session(d) == Some((key, np.proxy_name))
            &&& route_of(w, d, np.kind) == Some((key, np.proxy_name))
            &&& forall|kind: ProxyType| kind != np.kind ==> #[trigger] route_of(w, d, kind) is None
        }),
{
    let d = lowered_domains(np)[i];
    assert(lowered_domains(np).contains(d));
}

/// A domain belongs to one proxy: as long as the session of its owner is its client's
/// current one, no other proxy gets it, whatever its case.
pub proof fn law_domain_has_one_owner(
    v: StateView,
    key: u64,
    np: NewProxyView,
    handle: u64,
    timeout: u128,
    i: int,
    other_key: u64,
    other: NewProxyView,
    j: int,
    allowed: bool,
)
    requires
        v.sessions.contains_key(v.live[key].run_id),
        v.sessions[v.live[key].run_id] == key,
        0 <= i < lowered_domains(np).len(),
        0 <= j < lowered_domains(other).len(),
        lowered_domains(other)[j] == lowered_domains(np)[i],
    ensures
        ({
            let w = registered(v, key, np, handle, timeout);
            let e = registration_error(w, other_key, other, allowed);
            &&& e is Some
            &&& e == Some(ProxyError::DomainConflict) || e == Some(ProxyError::TooManyProxies) || e
                == Some(ProxyError::NameExists)
        }),
{
    let w = registered(v, key, np, handle, timeout);
    law_registered_is_found_by_domain(v, key, np, handle, timeout, i);
    let domains = lowered_domains(other);
    assert(w.domain_session(domains[j]) is Some);
    assert(domain_taken(w, domains));
}

/// As long as a domain leads to a proxy, a session that may have another proxy is
/// refused one with that domain for this reason and no other.
pub proof fn law_owned_domain_is_refused(
    v: StateView,
    key: u64,
    np: NewProxyView,
    allowed: bool,
    j: int,
)
    requires
        v.live[key].proxies.len() < v.limits.max_proxies_per_session,
        !v.live[key].proxies.contains_key(np.proxy_name),
        0 <= j < lowered_domains(np).len(),
        v.domain_session(lowered_domains(np)[j]) is Some,
    ensures
        registration_error(v, key, np, allowed) == Some(ProxyError::DomainConflict),
{
    assert(domain_taken(v, lowered_domains(np)));
}

/// After one client has registered a proxy, the first proxy of any other session is
/// refused for a domain conflict where it asks for a domain of that one, whatever its
/// type and the case of the domain.
pub proof fn law_domain_conflict(
    v: StateView,
    key: u64,
    np: NewProxyView,
    np_allowed: bool,
    handle: u64,
    timeout: u128,
    other_key: u64,
    other: NewProxyView,
    other_allowed: bool,
    i: int,
    j: int,
)
    requires
        v.sessions.contains_key(v.live[key].run_id),
        v.sessions[v.live[key].run_id] == key,
        registration_error(v, key, np, np_allowed) is None,
        other_key != key,
        v.live[other_key].proxies == Map::<Seq<char>, ProxyEntryView>::empty(),
        0 <= i < lowered_domains(np).len(),
        0 <= j < lowered_domains(other).len(),
        lowered_domains(other)[j] == lowered_domains(np)[i],
    ensures
        registration_error(
            registered(v, key, np, handle, timeout),
            other_key,
            other,
            other_allowed,
        ) == Some(ProxyError::DomainConflict),
{
    let w = registered(v, key, np, handle, timeout);
    law_registered_is_found_by_domain(v, key, np, handle, timeout, i);
    law_owned_domain_is_refused(w, other_key, other, other_allowed, j);
}

/// After one client has registered a proxy, the first proxy of any other session is
/// taken on where it is found by domains that nobody has: each of them leads to it, in
/// lower case, its name leads to its client, and the domains of the first proxy lead
/// where they did.
pub proof fn law_free_domains_are_given(
    v: StateView,
    key: u64,
    np: NewProxyView,
    np_allowed: bool,
    handle: u64,
    timeout: u128,
    other_key: u64,
    other: NewProxyView,
    other_allowed: bool,
    bind: BindOutcome,
    other_handle: u64,
    i: int,
    j: int,
)
    requires
        v.sessions.contains_key(v.live[key].run_id),
        v.sessions[v.live[key].run_id] == key,
        registration_error(v, key, np, np_allowed) is None,
        other_key != key,
        v.live[other_key].proxies == Map::<Seq<char>, ProxyEntryView>::empty(),
        by_domain(other.kind),
        0 <= i < lowered_domains(np).len(),
        0 <= j < lowered_domains(other).len(),
        !domain_taken(registered(v, key, np, handle, timeout), lowered_domains(other)),
    ensures
        ({
            let w = registered(v, key, np, handle, timeout);
            let x = registered(w, other_key, other, other_handle, timeout);
            let d = lowered_domains(other)[j];
            let b = x.live[other_key];
            &&& registration_error(w, other_key, other, other_allowed) is None
            &&& bind_error(other.kind, bind) is None
            &&& b.proxies.contains_key(other.proxy_name)
            &&& b.proxies[other.proxy_name].kind == other.kind
            &&& b.proxy_domains.contains_key(d) && b.proxy_domains[d] == other.proxy_name
            &&& x.proxy_index.contains_key(other.proxy_name) && x.proxy_index[other.proxy_name]
                == b.run_id
            &&& lowered_domains(np)[i] != d
            &&& x.domain_session(lowered_domains(np)[i]) == Some((key, np.proxy_name))
        }),
{
    let w = registered(v, key, np, handle, timeout);
    let x = registered(w, other_key, other, other_handle, timeout);
    let domains = lowered_domains(other);
    let c = lowered_domains(np)[i];
    law_registered_is_found_by_domain(v, key, np, handle, timeout, i);
    assert(domains.contains(domains[j]));
    assert(w.domain_session(domains[j]) is None);
    assert(!domains.contains(c)) by {
        if domains.contains(c) {
            let k = choose|k: int| 0 <= k < domains.len() && domains[k] == c;
            assert(w.domain_session(domains[k]) is Some);
        }
    }
}

/// A session has one proxy of each name, and never more than it may.
pub proof fn law_names_unique_and_bounded(
    v: StateView,
    key: u64,
    np: NewProxyView,
    handle: u64,
    timeout: u128,
    allowed: bool,
    again: NewProxyView,
)
    requires
        v.live.contains_key(key),
        v.live[key].proxies.dom().finite(),
        registration_error(v, key, np, allowed) is None,
        again.proxy_name == np.proxy_name,
    ensures
        ({
            let w = registered(v, key, np, handle, timeout);
            let e = registration_error(w, key, again, allowed);
            &&& w.live[key].proxies.len() <= v.limits.max_proxies_per_session
            &&& e == Some(ProxyError::NameExists) || e == Some(ProxyError::TooManyProxies)
        }),
{
}

/// After a client has logged in again, its domains are free: they do not stand in
/// the way of registering the same proxies.
pub proof fn law_relogin_frees_domains(
    v: StateView,
    run_id: Seq<char>,
    session_id: Seq<char>,
    peer_ip: PeerIp,
    token: Seq<char>,
    np: NewProxyView,
    allowed: bool,
)
    requires
        v.wf(),
        v.sessions.contains_key(run_id),
        v.limits.max_proxies_per_session > 0,
        forall|i: int|
            0 <= i < lowered_domains(np).len() ==> v.live[v.sessions[run_id]].proxy_domains.contains_key(
                #[trigger] lowered_domains(np)[i],
            ),
    ensures
        ({
            let w = opened(v, run_id, session_id, peer_ip, token);
            let e = registration_error(w, v.next_key(), np, allowed);
            e != Some(ProxyError::DomainConflict) && e != Some(ProxyError::NameExists) && e != Some(
                ProxyError::TooManyProxies,
            )
        }),
{
    law_relogin_replaces(v, run_id, session_id, peer_ip, token);
    let w = opened(v, run_id, session_id, peer_ip, token);
    let domains = lowered_domains(np);
    assert forall|i: int| 0 <= i < domains.len() implies w.domain_session(#[trigger] domains[i]) is None by {
    }
}

/// A work connection that does not present the session's token is closed and changes
/// nothing.
pub proof fn law_work_needs_token(
    v: StateView,
    name: Seq<char>,
    work_id: u64,
    token: Option<Seq<char>>,
    stream: u64,
    now: u128,
)
    requires
        v.proxy_session(name) matches Some(key) ==> !token_ok(v.live[key], token),
    ensures
        work_action(v, name, work_id, token) is Close,
        after_work(v, name, work_id, token, stream, now) == v,
{
}

/// A user connection is joined only with a work connection of the session and the
/// proxy that it came to, and only once.
pub proof fn law_user_is_claimed_once(
    v: StateView,
    name: Seq<char>,
    work_id: u64,
    token: Option<Seq<char>>,
    stream: u64,
    now: u128,
    user: u64,
)
    requires
        work_action(v, name, work_id, token) == (WorkAction::Bridge { user }),
    ensures
        ({
            let w = after_work(v, name, work_id, token, stream, now);
            &&& v.proxy_session(name) matches Some(key) && v.pending[work_id].session_id
                == v.live[key].session_id && token == Some(v.live[key].work_conn_token)
            &&& v.pending[work_id].proxy_name == name && v.pending[work_id].user == Some(user)
            &&& work_id != WORK_ID_POOL_RESERVED
            &&& !w.pending.contains_key(work_id)
            &&& work_action(w, name, work_id, token) == WorkAction::Close(WorkRefusal::NoMatch)
        }),
{
}

/// A work connection that matches no waiting user of its session and proxy leaves
/// the one that waits under its id where it is.
pub proof fn law_mismatch_keeps_user(
    v: StateView,
    name: Seq<char>,
    work_id: u64,
    token: Option<Seq<char>>,
    stream: u64,
    now: u128,
)
    requires
        work_action(v, name, work_id, token) == WorkAction::Close(WorkRefusal::NoMatch),
    ensures
        after_work(v, name, work_id, token, stream, now) == v,
{
}

/// A user that waits is joined with the work connection that was asked for, when it
/// comes with the session's token.
pub proof fn law_waiting_user_is_served(
    v: StateView,
    key: u64,
    name: Seq<char>,
    user: u64,
    now: u128,
)
    requires
        v.work_id < u64::MAX,
        v.proxy_session(name) == Some(key),
        !v.udp.contains_key(name),
    ensures
        ({
            let w = waiting(v, key, name, user, now);
            work_action(w, name, w.work_id, Some(v.live[key].work_conn_token))
                == (WorkAction::Bridge { user })
        }),
{
}

/// Whether no proxy has more idle work connections than it may.
pub open spec fn pools_bounded(v: StateView) -> bool {
    forall|k: u64, n: Seq<char>|
        #![trigger v.live[k].pool(n)]
        v.live.contains_key(k) ==> v.live[k].pool(n).len() <= v.limits.max_pooled_work_conns
}

/// No proxy ever has more idle work connections than it may: a work connection that
/// comes keeps the bound, and so does taking one out.
pub proof fn law_pools_stay_bounded(
    v: StateView,
    name: Seq<char>,
    work_id: u64,
    token: Option<Seq<char>>,
    stream: u64,
    now: u128,
    key: u64,
)
    requires
        v.wf(),
        pools_bounded(v),
        v.live.contains_key(key),
    ensures
        pools_bounded(after_work(v, name, work_id, token, stream, now)),
        pools_bounded(popped(v, key, name)),
{
    let w = after_work(v, name, work_id, token, stream, now);
    assert forall|k: u64, n: Seq<char>|
        #![trigger w.live[k].pool(n)]
        w.live.contains_key(k) implies w.live[k].pool(n).len() <= w.limits.max_pooled_work_conns by {
        if v.live.contains_key(k) {
            assert(v.live[k].pool(n).len() <= v.limits.max_pooled_work_conns);
        }
    }
    let z = popped(v, key, name);
    assert forall|k: u64, n: Seq<char>|
        #![trigger z.live[k].pool(n)]
        z.live.contains_key(k) implies z.live[k].pool(n).len() <= z.limits.max_pooled_work_conns by {
        assert(v.live.contains_key(k));
        assert(v.live[k].pool(n).len() <= v.limits.max_pooled_work_conns);
    }
}

/// Logins, registrations and the ends of sessions keep that bound too.
pub proof fn law_pools_stay_bounded_otherwise(
    v: StateView,
    run_id: Seq<char>,
    session_id: Seq<char>,
    peer_ip: PeerIp,
    token: Seq<char>,
    key: u64,
    np: NewProxyView,
    handle: u64,
    timeout: u128,
)
    requires
        v.wf(),
        pools_bounded(v),
        v.live.contains_key(key),
    ensures
        pools_bounded(opened(v, run_id, session_id, peer_ip, token)),
        pools_bounded(registered(v, key, np, handle, timeout)),
        pools_bounded(finished(v, key)),
{
    let a = opened(v, run_id, session_id, peer_ip, token);
    assert forall|k: u64, n: Seq<char>|
        #![trigger a.live[k].pool(n)]
        a.live.contains_key(k) implies a.live[k].pool(n).len() <= a.limits.max_pooled_work_conns by {
        if v.live.contains_key(k) {
            assert(v.live[k].pool(n).len() <= v.limits.max_pooled_work_conns);
        }
    }
    let b = registered(v, key, np, handle, timeout);
    assert forall|k: u64, n: Seq<char>|
        #![trigger b.live[k].pool(n)]
        b.live.contains_key(k) implies b.live[k].pool(n).len() <= b.limits.max_pooled_work_conns by {
        assert(v.live[k].pool(n).len() <= v.limits.max_pooled_work_conns);
    }
    let c = finished(v, key);
    assert forall|k: u64, n: Seq<char>|
        #![trigger c.live[k].pool(n)]
        c.live.contains_key(k) implies c.live[k].pool(n).len() <= c.limits.max_pooled_work_conns by {
        assert(v.live[k].pool(n).len() <= v.limits.max_pooled_work_conns);
    }
}

/// The idle work connection that came last is the first to be used.
pub proof fn law_pooled_is_used(
    v: StateView,
    name: Seq<char>,
    token: Option<Seq<char>>,
    stream: u64,
    now: u128,
    key: u64,
)
    requires
        v.proxy_session(name) == Some(key),
        work_action(v, name, WORK_ID_POOL_RESERVED, token) == WorkAction::Pooled,
    ensures
        ({
            let w = after_work(v, name, WORK_ID_POOL_RESERVED, token, stream, now);
            &&& w.live[key].pool(name).len() > 0
            &&& w.live[key].pool(name).last() == stream
            &&& popped(w, key, name).live[key].pool(name) == v.live[key].pool(name)
        }),
{
    let w = after_work(v, name, WORK_ID_POOL_RESERVED, token, stream, now);
    let before = v.live[key].pool(name);
    assert(w.live[key].pool(name) =~= before.push(stream));
    assert(w.live[key].pools[name].drop_last() =~= before);
}

/// Where as many user connections are open as may be, one more is turned away, and
/// nothing changes: no id is needed or given out, no one waits for it, and no idle
/// work connection is taken.
pub proof fn law_turned_away_at_limit(
    v: StateView,
    key: u64,
    name: Seq<char>,
    user: u64,
    now: u128,
)
    requires
        v.metrics.active_connections >= v.max_active,
    ensures
        after_dispatch(v, key, name, user, DispatchEvent::Arrived, now) == v,
        !needs_work_id(v, key, name, DispatchEvent::Arrived),
{
}

/// A step of serving a user connection.
pub struct DispatchCall {
    /// The session that the connection is for.
    pub key: u64,
    /// The proxy that it came to.
    pub name: Seq<char>,
    /// The connection.
    pub user: u64,
    /// What happened to it.
    pub event: DispatchEvent,
    /// When.
    pub now: u128,
}

/// The state after all steps, in order, each for any user connection.
pub open spec fn after_dispatches(v: StateView, calls: Seq<DispatchCall>) -> StateView
    decreases calls.len(),
{
    if calls.len() == 0 {
        v
    } else {
        let w = after_dispatches(v, calls.drop_last());
        let c = calls.last();
        after_dispatch(w, c.key, c.name, c.user, c.event, c.now)
    }
}

/// However many user connections come, and in whatever order they are served, never
/// more are taken on than may be open: where no more were open than may be, so it
/// stays, and where more were, none is added.
pub proof fn law_active_bounded(v: StateView, calls: Seq<DispatchCall>)
    ensures
        v.metrics.active_connections <= v.max_active ==> after_dispatches(
            v,
            calls,
        ).metrics.active_connections <= v.max_active,
        v.metrics.active_connections > v.max_active ==> after_dispatches(
            v,
            calls,
        ).metrics.active_connections == v.metrics.active_connections,
        after_dispatches(v, calls).max_active == v.max_active,
    decreases calls.len(),
{
    if calls.len() > 0 {
        law_active_bounded(v, calls.drop_last());
    }
}

/// Without a login the dashboard shows no more than the health check and ways to log
/// in.
pub proof fn law_dashboard_closed(req: ParsedHeadView)
    ensures
        ({
            let r = dashboard_route(req, false);
            r == Route::Health || r == Route::FormTooLong || r is Form || r == Route::LoginPage || r
                == Route::Unauthorized
        }),
{
}

/// Domains are found whatever their case: a host that differs from a registered
/// domain only in the case of ASCII letters leads to its proxy.
pub proof fn law_domain_case_is_ignored(
    v: StateView,
    key: u64,
    np: NewProxyView,
    handle: u64,
    timeout: u128,
    i: int,
    host: Seq<char>,
)
    requires
        v.sessions.contains_key(v.live[key].run_id),
        v.sessions[v.live[key].run_id] == key,
        np.custom_domains matches Some(d) && 0 <= i < d.len() && is_ascii_chars(d[i])
            && ascii_lowered(host) == ascii_lowered(d[i]),
        is_ascii_chars(host),
    ensures
        route_of(registered(v, key, np, handle, timeout), folded(host), np.kind) == Some(
            (key, np.proxy_name),
        ),
{
    assert(lowered_domains(np)[i] == folded(host));
    law_registered_is_found_by_domain(v, key, np, handle, timeout, i);
}

/// A user that has been joined with a work connection is not closed when the session
/// ends: only those that still wait are.
pub proof fn law_joined_user_outlives_session(
    v: StateView,
    name: Seq<char>,
    work_id: u64,
    token: Option<Seq<char>>,
    stream: u64,
    now: u128,
    user: u64,
    key: u64,
    c: Cleaned,
)
    requires
        work_action(v, name, work_id, token) == (WorkAction::Bridge { user }),
        forall|id: u64|
            id != work_id && #[trigger] v.pending.contains_key(id) ==> v.pending[id].user != Some(
                user,
            ),
        leaves(c, after_work(v, name, work_id, token, stream, now), key),
    ensures
        !c.users@.contains(user),
{
    let w = after_work(v, name, work_id, token, stream, now);
    if c.users@.contains(user) {
        let id = choose|id: u64| #[trigger]
            w.pending.contains_key(id) && w.pending[id].session_id == w.live[key].session_id
                && w.pending[id].user == Some(user);
        assert(v.pending.contains_key(id));
    }
}

/// A user that comes to a proxy and one that leaves it cancel out.
pub proof fn law_admitted_and_released(v: StateView, name: Seq<char>)
    requires
        v.metrics.active_connections < i64::MAX,
    ensures
        lowered(admitted(v, name).metrics.active_connections) == v.metrics.active_connections,
        lowered(admitted(v, name).stats_of(name).active_connections) == v.stats_of(
            name,
        ).active_connections,
{
}

/// Whether every index entry leads somewhere: to the current session of a client,
/// which has the proxy, and the domain for it.
pub open spec fn index_sound(v: StateView) -> bool {
    &&& forall|n: Seq<char>| #[trigger]
        v.proxy_index.contains_key(n) ==> v.sessions.contains_key(v.proxy_index[n])
            && v.live[v.sessions[v.proxy_index[n]]].proxies.contains_key(n)
    &&& forall|d: Seq<char>| #[trigger]
        v.domain_index.contains_key(d) ==> v.sessions.contains_key(v.domain_index[d].0) && {
            let s = v.live[v.sessions[v.domain_index[d].0]];
            &&& s.proxy_domains.contains_key(d)
            &&& s.proxies.contains_key(v.domain_index[d].1)
        }
}

/// No index entry of a server that has just started leads astray: there is none.
pub proof fn law_index_sound_at_start(limits: Limits, started: Clock)
    ensures
        index_sound(StateView::fresh(limits, started)),
{
}

/// A login leaves no index entry that leads nowhere.
pub proof fn law_index_sound_after_login(
    v: StateView,
    run_id: Seq<char>,
    session_id: Seq<char>,
    peer_ip: PeerIp,
    token: Seq<char>,
)
    requires
        v.wf(),
        index_sound(v),
    ensures
        index_sound(opened(v, run_id, session_id, peer_ip, token)),
{
    let w = opened(v, run_id, session_id, peer_ip, token);
    let key = v.next_key();
    lemma_next_key_free(v);
    assert forall|n: Seq<char>| #[trigger] w.proxy_index.contains_key(n) implies w.sessions.contains_key(
        w.proxy_index[n],
    ) && w.live[w.sessions[w.proxy_index[n]]].proxies.contains_key(n) by {
        assert(v.proxy_index.contains_key(n));
        let r = v.proxy_index[n];
        lemma_other_client(v, run_id, r);
    }
    assert forall|d: Seq<char>| #[trigger] w.domain_index.contains_key(d) implies w.sessions.contains_key(
        w.domain_index[d].0,
    ) && w.live[w.sessions[w.domain_index[d].0]].proxy_domains.contains_key(d)
        && w.live[w.sessions[w.domain_index[d].0]].proxies.contains_key(w.domain_index[d].1) by {
        assert(v.domain_index.contains_key(d));
        let r = v.domain_index[d].0;
        lemma_other_client(v, run_id, r);
    }
}

/// Two clients have different sessions.
proof fn lemma_other_client(v: StateView, a: Seq<char>, b: Seq<char>)
    requires
        v.wf(),
    ensures
        a != b && v.sessions.contains_key(a) && v.sessions.contains_key(b) ==> v.sessions[a]
            != v.sessions[b],
        v.sessions.contains_key(b) ==> v.live.contains_key(v.sessions[b]),
{
    if v.sessions.contains_key(a) && v.sessions.contains_key(b) {
        assert(v.live[v.sessions[a]].run_id == a);
        assert(v.live[v.sessions[b]].run_id == b);
    }
    if v.sessions.contains_key(b) {
        assert(v.live.contains_key(v.sessions[b]));
    }
}

/// A registration for a client's current session leaves no index entry that leads
/// nowhere.
pub proof fn law_index_sound_after_registration(
    v: StateView,
    key: u64,
    np: NewProxyView,
    handle: u64,
    timeout: u128,
)
    requires
        index_sound(v),
        v.sessions.contains_key(v.live[key].run_id),
        v.sessions[v.live[key].run_id] == key,
    ensures
        index_sound(registered(v, key, np, handle, timeout)),
{
    let w = registered(v, key, np, handle, timeout);
    assert forall|n: Seq<char>| #[trigger] w.proxy_index.contains_key(n) implies w.sessions.contains_key(
        w.proxy_index[n],
    ) && w.live[w.sessions[w.proxy_index[n]]].proxies.contains_key(n) by {
        if n != np.proxy_name {
            assert(v.proxy_index.contains_key(n));
        }
    }
    assert forall|d: Seq<char>| #[trigger] w.domain_index.contains_key(d) implies w.sessions.contains_key(
        w.domain_index[d].0,
    ) && w.live[w.sessions[w.domain_index[d].0]].proxy_domains.contains_key(d)
        && w.live[w.sessions[w.domain_index[d].0]].proxies.contains_key(w.domain_index[d].1) by {
        if !lowered_domains(np).contains(d) {
            assert(v.domain_index.contains_key(d));
        }
    }
}

/// The end of a session leaves no index entry that leads nowhere: that of a client's
/// current one, and that of one that was replaced and has nothing left.
pub proof fn law_index_sound_after_end(v: StateView, key: u64)
    requires
        v.wf(),
        index_sound(v),
        v.live.contains_key(key),
        v.sessions.contains_key(v.live[key].run_id) && v.sessions[v.live[key].run_id] == key || (
        forall|n: Seq<char>| !#[trigger] v.live[key].proxies.contains_key(n)) && (forall|d: Seq<char>|
            !#[trigger] v.live[key].proxy_domains.contains_key(d)),
    ensures
        index_sound(finished(v, key)),
{
    let s = v.live[key];
    let w = finished(v, key);
    assert forall|n: Seq<char>| #[trigger] w.proxy_index.contains_key(n) implies w.sessions.contains_key(
        w.proxy_index[n],
    ) && w.live[w.sessions[w.proxy_index[n]]].proxies.contains_key(n) by {
        assert(v.proxy_index.contains_key(n));
        lemma_other_client(v, s.run_id, v.proxy_index[n]);
    }
    assert forall|d: Seq<char>| #[trigger] w.domain_index.contains_key(d) implies w.sessions.contains_key(
        w.domain_index[d].0,
    ) && w.live[w.sessions[w.domain_index[d].0]].proxy_domains.contains_key(d)
        && w.live[w.sessions[w.domain_index[d].0]].proxies.contains_key(w.domain_index[d].1) by {
        assert(v.domain_index.contains_key(d));
        lemma_other_client(v, s.run_id, v.domain_index[d].0);
    }
}

/// Where the indexes are sound, a domain that is known leads to a proxy that its
/// session has, so a request of that proxy's type is served.
pub proof fn law_known_domain_is_served(v: StateView, domain: Seq<char>)
    requires
        index_sound(v),
        v.domain_index.contains_key(domain),
    ensures
        v.domain_session(domain) matches Some(p) && v.live[p.0].proxies.contains_key(p.1)
            && route_of(v, domain, v.live[p.0].proxies[p.1].kind) == Some(p),
{
}

} // verus!
