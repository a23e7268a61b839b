//! What the server promises its users: what becomes of a connection or a datagram, from
//! the moment it comes until it is served or given up on.

use vstd::prelude::*;
use vstd::utf8::{encode_utf8, is_ascii_chars};

use super::control::{
    acceptance, control_action, control_ended, domain_ok, ends_loop, finished, is_udp_of, leaves, login_check,
    login_limited, login_noted, login_treated, opened, opened_as, reason_to_close, registration_answer, Cleaned,
    ControlAction, ControlEvent, HeartbeatAction, HeartbeatEvent, HeartbeatWatch, LoginCheck,
    LoginStep, WriterEnd,
};
use super::laws::law_relogin_replaces;
use super::listener::{
    after_dispatch, after_sweep, carried, dispatch_action, domain_taken, given_up,
    lowered_domains, registered, registration_refusal, released, swept_out, waiting_user,
    BindOutcome, DispatchAction, DispatchEvent, Probe,
};
use super::state::{lemma_next_key_free, PendingView, StateView};
use super::udp::{
    after_datagram, counted, datagram_action, swept_id, DatagramAction, UdpSession, UdpView,
};
use super::work::{after_work, work_action, WorkAction, WorkRefusal};
use crate::addr::{PeerAddr, PeerIp};
use crate::clock::{since, Clock};
use crate::config::ServerConfig;
use crate::ident::{is_random_uuid, is_uuid_text};
use crate::limits::Limits;
use crate::msg::{Login, Message, NewProxy, NewProxyView, ProxyError, ProxyType};
use crate::text::{ascii_lowered, has_white_space, is_white_space};

verus! {

/// A datagram of a new user of a UDP proxy asks for a work connection; when that comes
/// with the session's token, it serves this user at this proxy, and from then on the
/// user's datagrams go over it.
pub proof fn law_udp_user_is_served(
    v: StateView,
    key: u64,
    name: Seq<char>,
    peer: PeerAddr,
    data: Seq<u8>,
    first: DatagramAction,
    now: u128,
    later: u128,
    stream: u64,
    more: Seq<u8>,
    second: DatagramAction,
)
    requires
        v.wf(),
        v.proxy_session(name) == Some(key),
        v.udp.contains_key(name),
        !v.udp[name].sessions.contains_key(peer),
        !v.udp[name].pending_client.contains_key(peer),
        v.udp[name].pending_by_id.len() < v.limits.max_pending_udp_sessions,
        v.work_id < u64::MAX,
        datagram_action(
            first,
            v.udp[name].route(peer, v.limits.max_pending_udp_sessions),
            data,
            (v.work_id + 1) as u64,
        ),
        ({
            let w = after_datagram(v, name, peer, data.len(), now);
            let token = Some(v.live[key].work_conn_token);
            let x = after_work(w, name, w.work_id, token, stream, later);
            datagram_action(
                second,
                x.udp[name].route(peer, x.limits.max_pending_udp_sessions),
                more,
                (x.work_id + 1) as u64,
            )
        }),
    ensures
        ({
            let w = after_datagram(v, name, peer, data.len(), now);
            let token = Some(v.live[key].work_conn_token);
            let x = after_work(w, name, w.work_id, token, stream, later);
            &&& first matches DatagramAction::Request { work_id, packet } && work_id == w.work_id
                && packet@ == data
            &&& w.work_id == v.work_id + 1
            &&& w.udp[name].pending_by_id.contains_key(w.work_id)
            &&& w.udp[name].pending_by_id[w.work_id].client == peer
            &&& w.udp[name].pending_by_id[w.work_id].created == now
            &&& work_action(w, name, w.work_id, token) == (WorkAction::ServeUdp {
                proxy_id: v.udp[name].id,
                client: peer,
            })
            &&& x.udp[name].sessions.contains_key(peer)
            &&& x.udp[name].sessions[peer].work_id == w.work_id
            &&& x.udp[name].sessions[peer].last_active == later
            &&& !x.udp[name].pending_by_id.contains_key(w.work_id)
            &&& !x.udp[name].pending_client.contains_key(peer)
            &&& second matches DatagramAction::Forward { work_id, packet } && work_id == w.work_id
                && packet@ == more
        }),
{
}

/// A user that waits at a UDP proxy keeps waiting under the same work id, with all it
/// sends, and asks for no second work connection.
pub proof fn law_udp_user_waits_once(
    v: StateView,
    name: Seq<char>,
    peer: PeerAddr,
    data: Seq<u8>,
    action: DatagramAction,
    now: u128,
)
    requires
        v.wf(),
        v.udp.contains_key(name),
        !v.udp[name].sessions.contains_key(peer),
        v.udp[name].pending_client.contains_key(peer),
        datagram_action(
            action,
            v.udp[name].route(peer, v.limits.max_pending_udp_sessions),
            data,
            (v.work_id + 1) as u64,
        ),
    ensures
        ({
            let w = after_datagram(v, name, peer, data.len(), now);
            &&& action matches DatagramAction::Enqueue { work_id, packet } && work_id
                == v.udp[name].pending_client[peer] && packet@ == data
            &&& w.work_id == v.work_id
            &&& w.udp[name].pending_by_id == v.udp[name].pending_by_id
            &&& w.udp[name].pending_client == v.udp[name].pending_client
            &&& w.udp[name].sessions == v.udp[name].sessions
        }),
{
    assert(v.udp[name].paired());
}

/// A datagram of a paired user goes to its work connection, and the user counts as
/// active at that time; every other user stays as it was.
pub proof fn law_udp_paired_datagram_forwarded(
    v: StateView,
    name: Seq<char>,
    peer: PeerAddr,
    data: Seq<u8>,
    action: DatagramAction,
    now: u128,
    other: PeerAddr,
)
    requires
        v.udp.contains_key(name),
        v.udp[name].sessions.contains_key(peer),
        data.len() <= u64::MAX,
        other != peer,
        datagram_action(
            action,
            v.udp[name].route(peer, v.limits.max_pending_udp_sessions),
            data,
            (v.work_id + 1) as u64,
        ),
    ensures
        ({
            let w = after_datagram(v, name, peer, data.len(), now);
            let u = v.udp[name];
            let x = w.udp[name];
            &&& action matches DatagramAction::Forward { work_id, packet } && work_id
                == u.sessions[peer].work_id && packet@ == data
            &&& x.sessions.contains_key(peer) && x.sessions[peer].work_id
                == u.sessions[peer].work_id && x.sessions[peer].last_active == now
            &&& x.sessions.contains_key(other) == u.sessions.contains_key(other)
            &&& u.sessions.contains_key(other) ==> x.sessions[other] == u.sessions[other]
            &&& w.metrics.bytes_up as int == (v.metrics.bytes_up + data.len())
                % 0x1_0000_0000_0000_0000
            &&& w.metrics.udp_dropped_total == v.metrics.udp_dropped_total
            &&& w.work_id == v.work_id
        }),
{
}

/// Where as many users wait at a UDP proxy as may, a datagram of one more is dropped:
/// the drop is counted, and nothing else changes.
pub proof fn law_udp_dropped_where_full(
    v: StateView,
    name: Seq<char>,
    peer: PeerAddr,
    data: Seq<u8>,
    action: DatagramAction,
    now: u128,
)
    requires
        v.udp.contains_key(name),
        !v.udp[name].sessions.contains_key(peer),
        !v.udp[name].pending_client.contains_key(peer),
        v.udp[name].pending_by_id.len() >= v.limits.max_pending_udp_sessions,
        datagram_action(
            action,
            v.udp[name].route(peer, v.limits.max_pending_udp_sessions),
            data,
            (v.work_id + 1) as u64,
        ),
    ensures
        ({
            let w = after_datagram(v, name, peer, data.len(), now);
            &&& action is Dropped
            &&& w.udp[name] == v.udp[name]
            &&& w.work_id == v.work_id
            &&& w.metrics.bytes_up == v.metrics.bytes_up
            &&& w.metrics.udp_dropped_total as int == (v.metrics.udp_dropped_total + 1)
                % 0x1_0000_0000_0000_0000
        }),
{
}

/// A paired user stays until it has been silent for the session timeout, and goes then;
/// one that waits stays until it has waited for the pending timeout, and goes then, out
/// of both tables. What stays, stays as it was.
pub proof fn law_udp_sweep_takes_the_silent(
    u: UdpView,
    now: u128,
    peer: PeerAddr,
    work_id: u64,
)
    requires
        u.paired(),
    ensures
        ({
            let w = u.swept(now);
            &&& u.sessions.contains_key(peer) && u.sessions[peer].last_active <= now ==> (
            w.sessions.contains_key(peer) <==> now < u.sessions[peer].last_active
                + u.session_timeout)
            &&& w.sessions.contains_key(peer) ==> u.sessions.contains_key(peer)
                && w.sessions[peer] == u.sessions[peer]
            &&& u.pending_by_id.contains_key(work_id) && u.pending_by_id[work_id].created <= now
                ==> (w.pending_by_id.contains_key(work_id) <==> now
                < u.pending_by_id[work_id].created + u.pending_timeout)
            &&& w.pending_by_id.contains_key(work_id) ==> u.pending_by_id.contains_key(work_id)
                && w.pending_by_id[work_id] == u.pending_by_id[work_id]
            &&& u.pending_by_id.contains_key(work_id) ==> w.pending_client.contains_key(
                u.pending_by_id[work_id].client,
            ) == w.pending_by_id.contains_key(work_id)
            &&& w.session_timeout == u.session_timeout && w.pending_timeout == u.pending_timeout
                && w.id == u.id
        }),
{
}

/// A sweep hands out the work id of exactly those users that it drops.
pub proof fn law_udp_sweep_hands_out_the_dropped(u: UdpView, now: u128, work_id: u64)
    ensures
        swept_id(u, now, work_id) <==> (u.pending_by_id.contains_key(work_id) && !u.swept(
            now,
        ).pending_by_id.contains_key(work_id)) || (exists|c: PeerAddr|
            #[trigger] u.sessions.contains_key(c) && u.sessions[c].work_id == work_id && !u.swept(
                now,
            ).sessions.contains_key(c)),
{
    let w = u.swept(now);
    if swept_id(u, now, work_id) {
        if !(u.pending_by_id.contains_key(work_id) && !w.pending_by_id.contains_key(work_id)) {
            let c = choose|c: PeerAddr| #[trigger]
                u.sessions.contains_key(c) && !u.fresh(u.sessions[c], now) && u.sessions[c].work_id
                    == work_id;
            assert(!w.sessions.contains_key(c));
        }
    }
}

/// Data in either direction keeps a paired user: it counts as active at that time, and
/// nothing else about it or about others changes.
pub proof fn law_udp_traffic_keeps_user(u: UdpView, peer: PeerAddr, now: u128, other: PeerAddr)
    requires
        u.sessions.contains_key(peer),
        other != peer,
    ensures
        ({
            let w = u.touched(peer, now);
            &&& w.sessions.contains_key(peer) && w.sessions[peer].last_active == now
                && w.sessions[peer].work_id == u.sessions[peer].work_id
            &&& w.sessions.contains_key(other) == u.sessions.contains_key(other)
            &&& u.sessions.contains_key(other) ==> w.sessions[other] == u.sessions[other]
            &&& w.pending_by_id == u.pending_by_id && w.pending_client == u.pending_client
        }),
{
}

/// When the work connection of a user ends, the user is no longer paired: its next
/// datagram asks for another one. Other users stay as they were.
pub proof fn law_udp_user_asks_again(
    u: UdpView,
    peer: PeerAddr,
    max_pending: usize,
    other: PeerAddr,
)
    requires
        other != peer,
        !u.pending_client.contains_key(peer),
        u.pending_by_id.len() < max_pending,
    ensures
        ({
            let w = u.without_session(peer);
            &&& w.route(peer, max_pending) is New
            &&& w.sessions.contains_key(other) == u.sessions.contains_key(other)
            &&& u.sessions.contains_key(other) ==> w.sessions[other] == u.sessions[other]
            &&& w.pending_by_id == u.pending_by_id && w.pending_client == u.pending_client
        }),
{
}

/// How many bytes the frames hold together.
pub open spec fn total_len(frames: Seq<Vec<u8>>) -> nat
    decreases frames.len(),
{
    if frames.len() == 0 {
        0
    } else {
        total_len(frames.drop_last()) + frames.last()@.len()
    }
}

/// The bytes of all datagrams that go down to users are counted, each once.
pub proof fn law_udp_bytes_down_counted(n: u64, frames: Seq<Vec<u8>>)
    requires
        forall|i: int| 0 <= i < frames.len() ==> (#[trigger] frames[i])@.len() <= u64::MAX,
    ensures
        counted(n, frames) as int == (n + total_len(frames)) % 0x1_0000_0000_0000_0000,
    decreases frames.len(),
{
    if frames.len() > 0 {
        let before = frames.drop_last();
        assert forall|i: int| 0 <= i < before.len() implies (#[trigger] before[i])@.len()
            <= u64::MAX by {
            assert(before[i] == frames[i]);
        }
        law_udp_bytes_down_counted(n, before);
        assert(frames[frames.len() - 1]@.len() <= u64::MAX);
        let a = (n + total_len(before)) as int;
        let k = frames.last()@.len() as int;
        vstd::arithmetic::div_mod::lemma_add_mod_noop(a, k, 0x1_0000_0000_0000_0000);
        vstd::arithmetic::div_mod::lemma_small_mod(k as nat, 0x1_0000_0000_0000_0000);
    }
}

/// A user connection that finds no idle work connection waits for one of its own: one
/// is asked for under a new id, for the proxy that the user came to, and the user is
/// kept under that id, with the time.
pub proof fn law_user_without_idle_waits(
    v: StateView,
    key: u64,
    name: Seq<char>,
    user: u64,
    event: DispatchEvent,
    now: u128,
    action: DispatchAction,
)
    requires
        v.wf(),
        v.work_id < u64::MAX,
        v.live[key].pool(name).len() == 0,
        event == DispatchEvent::Arrived && v.metrics.active_connections < v.max_active || (event
            matches DispatchEvent::Probed(_, probe) && (probe == Probe::Eof || probe
            == Probe::Failed)),
        dispatch_action(action, v, key, name, event),
    ensures
        ({
            let w = after_dispatch(v, key, name, user, event, now);
            let id = (v.work_id + 1) as u64;
            &&& action matches DispatchAction::Wait { request } && request.work_id == id
                && request.proxy_name@ == name
            &&& w.work_id == id
            &&& !v.pending.contains_key(id)
            &&& w.pending == v.pending.insert(
                id,
                PendingView {
                    proxy_name: name,
                    session_id: v.live[key].session_id,
                    user: Some(user),
                    created: now,
                },
            )
            &&& w.live == v.live
        }),
{
}

/// A user connection that finds idle work connections is given the one that came last,
/// to be probed; it leaves the pool, the others stay, and no one waits.
pub proof fn law_user_is_given_latest_idle(
    v: StateView,
    key: u64,
    name: Seq<char>,
    user: u64,
    event: DispatchEvent,
    now: u128,
    action: DispatchAction,
    rest: Seq<u64>,
    work: u64,
    other: Seq<char>,
)
    requires
        v.live[key].pool(name) == rest.push(work),
        event == DispatchEvent::Arrived && v.metrics.active_connections < v.max_active || (event
            matches DispatchEvent::Probed(_, probe) && (probe == Probe::Eof || probe
            == Probe::Failed)),
        dispatch_action(action, v, key, name, event),
        other != name,
    ensures
        ({
            let w = after_dispatch(v, key, name, user, event, now);
            &&& action == DispatchAction::Probe(work)
            &&& w.live[key].pool(name) == rest
            &&& w.live[key].pool(other) == v.live[key].pool(other)
            &&& w.live[key].proxies == v.live[key].proxies
            &&& w.pending == v.pending
            &&& w.work_id == v.work_id
        }),
{
    assert(rest.push(work).drop_last() =~= rest);
}

/// An idle work connection that has not ended serves the user: what was read of it is
/// not lost, and another one is asked for in its place.
pub proof fn law_living_idle_serves(
    v: StateView,
    key: u64,
    name: Seq<char>,
    user: u64,
    work: u64,
    probe: Probe,
    now: u128,
    action: DispatchAction,
)
    requires
        probe == Probe::NoData || probe is Data,
        dispatch_action(action, v, key, name, DispatchEvent::Probed(work, probe)),
    ensures
        action matches DispatchAction::Bridge { work: joined, byte, request } && joined == work
            && byte == (if probe is Data {
            Some(probe->Data_0)
        } else {
            None
        }) && request.proxy_name@ == name && request.work_id == 0,
        after_dispatch(v, key, name, user, DispatchEvent::Probed(work, probe), now) == v,
{
}

/// A user connection is taken on where fewer are open than may be, and is counted, at
/// the server and at its proxy. Probing does not count it again.
pub proof fn law_user_is_counted_once(
    v: StateView,
    key: u64,
    name: Seq<char>,
    user: u64,
    work: u64,
    probe: Probe,
    now: u128,
    other: Seq<char>,
)
    requires
        v.metrics.active_connections < v.max_active,
        v.stats_of(name).active_connections < i64::MAX,
        other != name,
    ensures
        ({
            let w = after_dispatch(v, key, name, user, DispatchEvent::Arrived, now);
            let x = after_dispatch(w, key, name, user, DispatchEvent::Probed(work, probe), now);
            &&& w.metrics.active_connections == v.metrics.active_connections + 1
            &&& w.metrics.total_connections as int == (v.metrics.total_connections + 1)
                % 0x1_0000_0000_0000_0000
            &&& w.stats_of(name).active_connections == v.stats_of(name).active_connections + 1
            &&& w.stats_of(name).connections_total as int == (v.stats_of(name).connections_total
                + 1) % 0x1_0000_0000_0000_0000
            &&& w.stats_of(other) == v.stats_of(other)
            &&& x.metrics == w.metrics
            &&& x.proxy_stats == w.proxy_stats
        }),
{
}

/// A user connection that closes is no longer open, at the server and at its proxy; it
/// still counts as one that was taken on.
pub proof fn law_closed_user_is_released(v: StateView, name: Seq<char>, other: Seq<char>)
    requires
        v.metrics.active_connections > i64::MIN,
        v.stats_of(name).active_connections > i64::MIN,
        other != name,
    ensures
        ({
            let w = released(v, name);
            &&& w.metrics.active_connections == v.metrics.active_connections - 1
            &&& w.metrics.total_connections == v.metrics.total_connections
            &&& w.stats_of(name).active_connections == v.stats_of(name).active_connections - 1
            &&& w.stats_of(name).connections_total == v.stats_of(name).connections_total
            &&& w.stats_of(other) == v.stats_of(other)
            &&& w.pending == v.pending && w.live == v.live
        }),
{
}

/// Bytes that go through a user connection are counted by their direction, at the
/// server and at the proxy, and change nothing else.
pub proof fn law_traffic_is_counted(
    v: StateView,
    name: Seq<char>,
    up: u64,
    down: u64,
    other: Seq<char>,
)
    requires
        other != name,
    ensures
        ({
            let w = carried(v, name, up, down);
            let m: int = 0x1_0000_0000_0000_0000;
            &&& w.metrics.bytes_up as int == (v.metrics.bytes_up + up) % m
            &&& w.metrics.bytes_down as int == (v.metrics.bytes_down + down) % m
            &&& w.stats_of(name).bytes_up as int == (v.stats_of(name).bytes_up + up) % m
            &&& w.stats_of(name).bytes_down as int == (v.stats_of(name).bytes_down + down) % m
            &&& w.stats_of(name).connections_total == v.stats_of(name).connections_total
            &&& w.stats_of(name).active_connections == v.stats_of(name).active_connections
            &&& w.stats_of(other) == v.stats_of(other)
            &&& w.metrics.active_connections == v.metrics.active_connections
            &&& w.metrics.total_connections == v.metrics.total_connections
        }),
{
}

/// A user connection that began to wait keeps waiting for as long as the timeout says,
/// counted from that moment, and is given up on then: it is handed out, to be closed.
pub proof fn law_user_waits_for_the_timeout(
    v: StateView,
    key: u64,
    name: Seq<char>,
    user: u64,
    event: DispatchEvent,
    began: u128,
    timeout: u128,
    now: u128,
)
    requires
        v.wf(),
        v.work_id < u64::MAX,
        v.live[key].pool(name).len() == 0,
        event == DispatchEvent::Arrived && v.metrics.active_connections < v.max_active || (event
            matches DispatchEvent::Probed(_, probe) && (probe == Probe::Eof || probe
            == Probe::Failed)),
        began <= now,
    ensures
        ({
            let w = after_dispatch(v, key, name, user, event, began);
            let id = w.work_id;
            let x = after_sweep(w, timeout, now);
            if now < began + timeout {
                &&& x.pending.contains_key(id) && x.pending[id] == w.pending[id]
                &&& x.pending[id].user == Some(user)
                &&& forall|p: PendingView| !#[trigger] swept_out(w, timeout, now, id, p)
            } else {
                &&& !x.pending.contains_key(id)
                &&& swept_out(w, timeout, now, id, w.pending[id]) && w.pending[id].user == Some(
                    user,
                )
            }
        }),
{
}

/// A sweep hands out exactly what it takes away, and leaves all else as it was.
pub proof fn law_sweep_hands_out_the_late(
    v: StateView,
    timeout: u128,
    now: u128,
    id: u64,
    p: PendingView,
)
    ensures
        ({
            let w = after_sweep(v, timeout, now);
            &&& swept_out(v, timeout, now, id, p) <==> v.pending.contains_key(id) && v.pending[id]
                == p && !w.pending.contains_key(id)
            &&& w.pending.contains_key(id) ==> v.pending.contains_key(id) && w.pending[id]
                == v.pending[id]
            &&& w.live == v.live && w.sessions == v.sessions && w.udp == v.udp && w.metrics
                == v.metrics
        }),
{
}

/// A work connection that was given up on takes its user along, and no other.
pub proof fn law_given_up_frees_one_user(v: StateView, id: u64, other: u64)
    requires
        other != id,
    ensures
        v.pending.contains_key(id) ==> waiting_user(v, id) == v.pending[id].user,
        !v.pending.contains_key(id) ==> waiting_user(v, id) is None,
        !given_up(v, id).pending.contains_key(id),
        given_up(v, id).pending.contains_key(other) == v.pending.contains_key(other),
        v.pending.contains_key(other) ==> given_up(v, id).pending[other] == v.pending[other],
        given_up(v, id).live == v.live,
{
}

/// A user that waits is joined with the work connection that comes for it with the
/// session's token, and with no other; it waits no longer.
pub proof fn law_work_joins_its_user(
    v: StateView,
    key: u64,
    name: Seq<char>,
    id: u64,
    user: u64,
    stream: u64,
    now: u128,
    other: u64,
)
    requires
        v.proxy_session(name) == Some(key),
        !v.udp.contains_key(name),
        id != 0,
        other != id,
        v.pending.contains_key(id),
        v.pending[id].user == Some(user),
        v.pending[id].proxy_name == name,
        v.pending[id].session_id == v.live[key].session_id,
    ensures
        ({
            let token = Some(v.live[key].work_conn_token);
            let w = after_work(v, name, id, token, stream, now);
            &&& work_action(v, name, id, token) == (WorkAction::Bridge { user })
            &&& !w.pending.contains_key(id)
            &&& w.pending.contains_key(other) == v.pending.contains_key(other)
            &&& v.pending.contains_key(other) ==> w.pending[other] == v.pending[other]
            &&& w.live == v.live && w.udp == v.udp
        }),
{
}

/// A work connection of no known proxy, or one that does not present the token of its
/// session, is closed for that reason.
pub proof fn law_work_is_turned_away(
    v: StateView,
    name: Seq<char>,
    id: u64,
    token: Option<Seq<char>>,
)
    ensures
        v.proxy_session(name) is None ==> work_action(v, name, id, token) == WorkAction::Close(
            WorkRefusal::UnknownProxy,
        ),
        v.proxy_session(name) matches Some(key) && token != Some(v.live[key].work_conn_token)
            ==> work_action(v, name, id, token) == WorkAction::Close(WorkRefusal::BadToken),
{
}

/// An idle work connection is kept where its proxy has room for it, behind those that
/// are there, and closed where it has none. UDP proxies keep none.
pub proof fn law_idle_work_is_kept(
    v: StateView,
    key: u64,
    name: Seq<char>,
    stream: u64,
    now: u128,
    other: Seq<char>,
)
    requires
        v.proxy_session(name) == Some(key),
        other != name,
    ensures
        ({
            let token = Some(v.live[key].work_conn_token);
            let a = work_action(v, name, 0, token);
            let w = after_work(v, name, 0, token, stream, now);
            let pool = v.live[key].pool(name);
            &&& v.udp.contains_key(name) ==> a == WorkAction::Close(WorkRefusal::UdpNotPooled) && w
                == v
            &&& !v.udp.contains_key(name) && pool.len() < v.limits.max_pooled_work_conns ==> a
                == WorkAction::Pooled && w.live[key].pool(name) == pool.push(stream)
            &&& !v.udp.contains_key(name) && pool.len() >= v.limits.max_pooled_work_conns ==> a
                == WorkAction::Close(WorkRefusal::PoolFull) && w.live[key].pool(name) == pool
            &&& w.live[key].pool(other) == v.live[key].pool(other)
            &&& w.live[key].proxies == v.live[key].proxies
            &&& w.pending == v.pending && w.udp == v.udp
        }),
{
    let token = Some(v.live[key].work_conn_token);
    let w = after_work(v, name, 0, token, stream, now);
    let pool = v.live[key].pool(name);
    assert(pool + seq![stream] =~= pool.push(stream));
    assert(pool + Seq::<u64>::empty() =~= pool);
}

/// A work connection for a user that does not wait, or waits for another proxy or
/// session, is closed, and all who wait keep waiting.
pub proof fn law_work_without_user_is_closed(
    v: StateView,
    key: u64,
    name: Seq<char>,
    id: u64,
    stream: u64,
    now: u128,
)
    requires
        v.proxy_session(name) == Some(key),
        id != 0,
        v.udp.contains_key(name) ==> !v.udp[name].pending_by_id.contains_key(id),
        !v.udp.contains_key(name) ==> !v.pending.contains_key(id) || v.pending[id].proxy_name
            != name || v.pending[id].session_id != v.live[key].session_id,
    ensures
        ({
            let token = Some(v.live[key].work_conn_token);
            &&& work_action(v, name, id, token) == WorkAction::Close(
                if v.udp.contains_key(name) {
                    WorkRefusal::NoUdpUser
                } else {
                    WorkRefusal::NoMatch
                },
            )
            &&& after_work(v, name, id, token, stream, now) == v
        }),
{
}

/// A proxy that needs a port is registered only where its port may be used and was
/// bound; what stood in the way is what it is refused for.
pub proof fn law_port_must_be_bound(
    v: StateView,
    key: u64,
    np: NewProxyView,
    allowed: bool,
    bind: BindOutcome,
)
    requires
        np.kind == ProxyType::Tcp || np.kind == ProxyType::Udp,
    ensures
        ({
            let e = registration_refusal(v, key, np, allowed, bind);
            let free = forall|i: int|
                0 <= i < lowered_domains(np).len() ==> v.domain_session(
                    #[trigger] lowered_domains(np)[i],
                ) is None;
            let room = v.live[key].proxies.len() < v.limits.max_proxies_per_session
                && !v.live[key].proxies.contains_key(np.proxy_name);
            &&& e is None ==> bind == BindOutcome::Bound && allowed && np.remote_port is Some
                && room && free
            &&& room && free ==> e == (if np.remote_port is None {
                Some(ProxyError::InvalidField)
            } else if !allowed {
                Some(ProxyError::PortNotAllowed)
            } else if bind == BindOutcome::InUse {
                Some(ProxyError::PortOccupied)
            } else if bind == BindOutcome::Failed {
                Some(ProxyError::Internal)
            } else {
                None
            })
        }),
{
    let d = lowered_domains(np);
    if domain_taken(v, d) {
        let i = choose|i: int| 0 <= i < d.len() && v.domain_session(#[trigger] d[i]) is Some;
        assert(v.domain_session(d[i]) is Some);
    }
}

/// A proxy that is found by its domains is registered exactly where it has domains and
/// nobody has any of them; it needs no port.
pub proof fn law_domains_must_be_free(
    v: StateView,
    key: u64,
    np: NewProxyView,
    allowed: bool,
    bind: BindOutcome,
)
    requires
        np.kind == ProxyType::Http || np.kind == ProxyType::Https,
        v.live[key].proxies.len() < v.limits.max_proxies_per_session,
        !v.live[key].proxies.contains_key(np.proxy_name),
    ensures
        ({
            let e = registration_refusal(v, key, np, allowed, bind);
            let d = lowered_domains(np);
            let free = forall|i: int|
                0 <= i < d.len() ==> v.domain_session(#[trigger] d[i]) is None;
            &&& d.len() == 0 ==> e == Some(ProxyError::InvalidField)
            &&& d.len() > 0 && free ==> e is None
            &&& d.len() > 0 && !free ==> e == Some(ProxyError::DomainConflict)
        }),
{
    let d = lowered_domains(np);
    if domain_taken(v, d) {
        let i = choose|i: int| 0 <= i < d.len() && v.domain_session(#[trigger] d[i]) is Some;
        assert(v.domain_session(d[i]) is Some);
    } else {
        assert forall|i: int| 0 <= i < d.len() implies v.domain_session(#[trigger] d[i]) is None by {
        }
    }
}

/// A session that has as many proxies as it may gets no more, and none gets two of one
/// name, whatever the proxy.
pub proof fn law_count_and_name_come_first(
    v: StateView,
    key: u64,
    np: NewProxyView,
    allowed: bool,
    bind: BindOutcome,
)
    ensures
        ({
            let e = registration_refusal(v, key, np, allowed, bind);
            let n = v.live[key].proxies.len();
            &&& n >= v.limits.max_proxies_per_session ==> e == Some(ProxyError::TooManyProxies)
            &&& n < v.limits.max_proxies_per_session && v.live[key].proxies.contains_key(
                np.proxy_name,
            ) ==> e == Some(ProxyError::NameExists)
        }),
{
}

/// What a registered proxy is: what was asked for, with the task that listens, its
/// domains in lower case and, where it is not found by them, its port. Other proxies,
/// sessions and domains stay as they were.
pub proof fn law_registered_as_asked(
    v: StateView,
    key: u64,
    np: NewProxyView,
    handle: u64,
    silence: u128,
    other: Seq<char>,
    other_key: u64,
)
    requires
        other != np.proxy_name,
        other_key != key,
    ensures
        ({
            let w = registered(v, key, np, handle, silence);
            let s = v.live[key];
            let t = w.live[key];
            let e = t.proxies[np.proxy_name];
            &&& w.live.contains_key(key) && t.proxies.contains_key(np.proxy_name)
            &&& e.handle == handle && e.kind == np.kind && e.custom_domains == lowered_domains(np)
            &&& np.kind == ProxyType::Tcp || np.kind == ProxyType::Udp ==> e.remote_port
                == np.remote_port
            &&& np.kind == ProxyType::Http || np.kind == ProxyType::Https ==> e.remote_port is None
            &&& w.proxy_index.contains_key(np.proxy_name) && w.proxy_index[np.proxy_name]
                == s.run_id
            &&& t.run_id == s.run_id && t.session_id == s.session_id && t.work_conn_token
                == s.work_conn_token && t.pools == s.pools
            &&& t.proxies.contains_key(other) == s.proxies.contains_key(other)
            &&& s.proxies.contains_key(other) ==> t.proxies[other] == s.proxies[other]
            &&& w.proxy_index.contains_key(other) == v.proxy_index.contains_key(other)
            &&& w.live.contains_key(other_key) == v.live.contains_key(other_key)
            &&& w.live[other_key] == v.live[other_key]
            &&& w.sessions == v.sessions && w.pending == v.pending
            &&& np.kind == ProxyType::Udp ==> w.udp.contains_key(np.proxy_name)
                && w.udp[np.proxy_name].id == handle && w.udp[np.proxy_name].session_timeout
                == silence && w.udp[np.proxy_name].pending_timeout == v.limits.work_conn_timeout
                * 1_000_000_000 && w.udp[np.proxy_name].sessions
                == Map::<PeerAddr, UdpSession>::empty()
            &&& np.kind != ProxyType::Udp ==> w.udp == v.udp
        }),
{
    assert(v.limits.work_conn_timeout * 1_000_000_000 <= u128::MAX) by (nonlinear_arith)
        requires
            v.limits.work_conn_timeout <= u64::MAX,
    ;
}

/// The client is told that a proxy is registered exactly where it is, and else by the
/// code of the error, under the name of the proxy.
pub proof fn law_registration_is_answered(name: Seq<char>, e: ProxyError)
    ensures
        registration_answer(name, Ok(())).ok,
        registration_answer(name, Ok(())).error is None,
        !registration_answer(name, Err(e)).ok,
        registration_answer(name, Err(e)).error == Some(e.code_text()),
        registration_answer(name, Ok(())).proxy_name == name,
        registration_answer(name, Err(e)).proxy_name == name,
{
}

/// When a session ends, all that it leaves is closed: the task that listens for each of
/// its proxies, its idle work connections, the users that wait for it, and its UDP
/// proxies.
pub proof fn law_end_closes_everything(
    c: Cleaned,
    v: StateView,
    key: u64,
    name: Seq<char>,
    idle: u64,
    id: u64,
    user: u64,
)
    requires
        leaves(c, v, key),
    ensures
        v.live[key].proxies.contains_key(name) ==> c.handles@.contains(
            v.live[key].proxies[name].handle,
        ),
        v.live[key].pools.contains_key(name) && v.live[key].pools[name].contains(idle)
            ==> c.pooled@.contains(idle),
        v.pending.contains_key(id) && v.pending[id].session_id == v.live[key].session_id
            && v.pending[id].user == Some(user) ==> c.users@.contains(user),
        v.udp.contains_key(name) && v.live[key].proxies.contains_key(name)
            && v.live[key].proxies[name].kind == ProxyType::Udp ==> c.udp@.contains(
            v.udp[name].id,
        ),
{
}

/// When a session ends, nothing of others is closed.
pub proof fn law_end_closes_nothing_else(c: Cleaned, v: StateView, key: u64, x: u64)
    requires
        leaves(c, v, key),
    ensures
        c.handles@.contains(x) ==> exists|n: Seq<char>| #[trigger]
            v.live[key].proxies.contains_key(n) && v.live[key].proxies[n].handle == x,
        c.pooled@.contains(x) ==> exists|n: Seq<char>| #[trigger]
            v.live[key].pools.contains_key(n) && v.live[key].pools[n].contains(x),
        c.users@.contains(x) ==> exists|id: u64| #[trigger]
            v.pending.contains_key(id) && v.pending[id].session_id == v.live[key].session_id
                && v.pending[id].user == Some(x),
        c.udp@.contains(x) ==> exists|n: Seq<char>| #[trigger]
            v.udp.contains_key(n) && v.live[key].proxies.contains_key(n)
                && v.live[key].proxies[n].kind == ProxyType::Udp && v.udp[n].id == x,
{
    if c.udp@.contains(x) {
        let n = choose|n: Seq<char>| #[trigger]
            v.udp.contains_key(n) && is_udp_of(v.live[key], n) && v.udp[n].id == x;
        assert(v.udp.contains_key(n));
    }
}

/// When a session ends, no user waits for it, and no proxy, domain, UDP proxy or idle
/// work connection is left of it; and it is gone itself.
pub proof fn law_end_leaves_nothing(v: StateView, key: u64, id: u64, name: Seq<char>)
    requires
        v.live.contains_key(key),
    ensures
        ({
            let s = v.live[key];
            let w = finished(v, key);
            &&& !w.live.contains_key(key)
            &&& w.pending.contains_key(id) <==> v.pending.contains_key(id)
                && v.pending[id].session_id != s.session_id
            &&& w.pending.contains_key(id) ==> w.pending[id] == v.pending[id]
            &&& w.proxy_index.contains_key(name) <==> v.proxy_index.contains_key(name)
                && !s.proxies.contains_key(name)
            &&& w.domain_index.contains_key(name) <==> v.domain_index.contains_key(name)
                && !s.proxy_domains.contains_key(name)
            &&& w.udp.contains_key(name) <==> v.udp.contains_key(name) && !(
            s.proxies.contains_key(name) && s.proxies[name].kind == ProxyType::Udp)
            &&& v.sessions.contains_key(s.run_id) && v.sessions[s.run_id] == key
                ==> !w.sessions.contains_key(s.run_id)
        }),
{
}

/// What comes of the messages and events of a control connection: well-formed proxies
/// are registered and others refused, signs of life are answered with their own clock,
/// and the loop ends exactly when the client leaves, is lost or replaced, or the server
/// shuts down.
pub proof fn law_control_events(r: ControlAction, event: ControlEvent, limits: Limits)
    requires
        control_action(r, event, limits),
    ensures
        event matches ControlEvent::Received(Message::Heartbeat(ts)) ==> r
            == ControlAction::Pong(ts),
        event matches ControlEvent::Received(Message::HeartbeatResp(ts)) ==> r
            == ControlAction::Alive(ts),
        event matches ControlEvent::Received(Message::NewProxy(np)) ==> (r
            == ControlAction::Register(np)) || (r matches ControlAction::RefuseProxy(resp)
            && !resp.ok && resp.proxy_name@ == np.proxy_name@),
        ends_loop(r) <==> !(event is Received) || (event matches ControlEvent::Received(m)
            && m is Close),
        r is Fail <==> event is Undecodable,
{
    if let ControlEvent::Received(Message::NewProxy(np)) = event {
        if let ControlAction::RefuseProxy(resp) = r {
            assert(resp.deep_view().proxy_name == np.proxy_name@);
            assert(!resp.deep_view().ok);
        }
    }
}

/// A proxy is passed on to be registered exactly where its name is not empty, not too
/// long and free of slashes and white space, and its domains are not too many, not
/// empty and not too long.
pub proof fn law_proxy_fields_are_checked(
    r: ControlAction,
    np: NewProxy,
    limits: Limits,
)
    requires
        control_action(
            r,
            ControlEvent::Received(Message::NewProxy(np)),
            limits,
        ),
    ensures
        ({
            let n = np.proxy_name@;
            let name_ok = 0 < n.len() && encode_utf8(n).len()
                <= limits.max_proxy_name_len && forall|i: int|
                0 <= i < n.len() ==> #[trigger] n[i] != '/' && !is_white_space(n[i]);
            let domains_ok = match np.custom_domains.deep_view() {
                None => true,
                Some(d) => d.len() <= limits.max_custom_domains && forall|i: int|
                    0 <= i < d.len() ==> 0 < (#[trigger] d[i]).len() && encode_utf8(
                        d[i],
                    ).len() <= limits.max_domain_len,
            };
            r is Register <==> name_ok && domains_ok
        }),
{
    let n = np.proxy_name@;
    if !n.contains('/') && !has_white_space(n) {
        assert forall|i: int| 0 <= i < n.len() implies #[trigger] n[i] != '/'
            && !is_white_space(n[i]) by {
        }
    }
    let nv = np.deep_view();
    if let Some(d) = nv.custom_domains {
        assert forall|i: int| 0 <= i < d.len() implies domain_ok(
            #[trigger] d[i],
            limits,
        ) == (0 < d[i].len() && encode_utf8(d[i]).len() <= limits.max_domain_len) by {
        }
    }
}

/// A client that answers each sign of life is kept; one that leaves one unanswered
/// until the deadline is disconnected.
pub proof fn law_silent_client_is_disconnected(w: HeartbeatWatch)
    requires
        !w.banked,
    ensures
        ({
            let sent = w.after(HeartbeatEvent::Sent);
            let answered = sent.0.after(HeartbeatEvent::Answered);
            &&& sent.1 == HeartbeatAction::AwaitAnswer
            &&& sent.0.after(HeartbeatEvent::Overdue).1 == HeartbeatAction::Disconnect
            &&& answered.1 == HeartbeatAction::AwaitTick
            &&& answered.0.after(HeartbeatEvent::Overdue).1 != HeartbeatAction::Disconnect
            &&& answered.0.after(HeartbeatEvent::Sent).1 == HeartbeatAction::AwaitAnswer
        }),
{
}

/// Nothing but an overdue answer that is waited for disconnects a client, and only a
/// sign of life that cannot be sent ends the watch. An answer that came early counts
/// for the next sign of life.
pub proof fn law_only_silence_disconnects(w: HeartbeatWatch, event: HeartbeatEvent)
    ensures
        w.after(event).1 == HeartbeatAction::Disconnect <==> event == HeartbeatEvent::Overdue
            && w.waiting,
        w.after(event).1 == HeartbeatAction::Stop <==> event == HeartbeatEvent::SendFailed,
        !w.waiting ==> {
            let early = w.after(HeartbeatEvent::Answered).0.after(HeartbeatEvent::Sent);
            early.1 == HeartbeatAction::AwaitTick && early.0.after(HeartbeatEvent::Overdue).1
                != HeartbeatAction::Disconnect
        },
{
}

/// A client is told why it is disconnected: that its session was replaced, or that the
/// server shuts down. One that has left is told nothing.
pub proof fn law_client_is_told_why(shutting_down: bool)
    ensures
        reason_to_close(WriterEnd::Replaced, shutting_down) == Some("session replaced"@),
        reason_to_close(WriterEnd::Shutdown, shutting_down) == Some("server shutdown"@),
        reason_to_close(WriterEnd::Drained, true) == Some("server shutdown"@),
        reason_to_close(WriterEnd::Drained, false) is None,
{
}

/// A login is accepted exactly where the version is the server's, the identity is a
/// UUID, both texts are within bounds and the token is the server's.
pub proof fn law_login_is_judged(
    login: Login,
    token: Seq<char>,
    limits: Limits,
    uuid: bool,
)
    ensures
        ({
            let r = login_check(login, token, limits, uuid);
            let fits = encode_utf8(login.run_id@).len() <= limits.max_run_id_len
                && encode_utf8(login.token@).len() <= limits.max_token_len;
            &&& r == LoginCheck::Accepted <==> login.version == 1 && uuid && fits && login.token@
                == token
            &&& r == LoginCheck::VersionMismatch <==> login.version != 1
            &&& r == LoginCheck::BadToken <==> login.version == 1 && uuid && fits && login.token@
                != token
        }),
{
}

/// A login that is accepted opens a session of its own: it is the client's current one,
/// empty, and the answer holds its identity and the token that its work connections
/// have to present.
pub proof fn law_accepted_login_opens_session(
    first: Message,
    login: Login,
    v: StateView,
    config: &ServerConfig,
    ip: PeerIp,
    step: LoginStep,
    w: StateView,
)
    requires
        v.wf(),
        first == Message::Login(login),
        login_treated(first, v, config, ip, step, w),
        login.version == 1,
        is_uuid_text(login.run_id@),
        encode_utf8(login.run_id@).len() <= v.limits.max_run_id_len,
        encode_utf8(login.token@).len() <= v.limits.max_token_len,
        login.token@ == config.server.token@,
    ensures
        step matches LoginStep::Opened(o) && {
            let s = w.live[o.key];
            &&& o.resp.ok && o.resp.error is None
            &&& o.resp.session_id.deep_view() == Some(s.session_id)
            &&& o.resp.work_conn_token.deep_view() == Some(s.work_conn_token)
            &&& o.resp.work_conn_tls == Some(config.server.work_conn_tls)
            &&& !v.live.contains_key(o.key) && w.live.contains_key(o.key)
            &&& w.sessions.contains_key(login.run_id@) && w.sessions[login.run_id@] == o.key
            &&& s.run_id == login.run_id@ && s.peer_ip == ip
            &&& s.proxies.len() == 0 && s.proxy_domains.len() == 0 && s.pools.len() == 0
            &&& is_random_uuid(s.session_id) && is_random_uuid(
                s.work_conn_token,
            )
            &&& o.replaced matches Some(p) ==> v.sessions.contains_key(login.run_id@) && p.0
                == v.sessions[login.run_id@]
            &&& v.sessions.contains_key(login.run_id@) ==> o.replaced is Some
        },
{
    lemma_next_key_free(v);
    if let LoginStep::Opened(o) = step {
        let (sid, tok) = choose|sid: Seq<char>, tok: Seq<char>|
            #![trigger is_random_uuid(sid), is_random_uuid(tok)]
            is_random_uuid(sid) && is_random_uuid(tok) && w == opened(
                v,
                login.run_id@,
                sid,
                ip,
                tok,
            ) && opened_as(
                o,
                v,
                login.run_id@,
                acceptance(sid, config.server.work_conn_tls, tok),
            );
        law_relogin_replaces(v, login.run_id@, sid, ip, tok);
        let d = o.resp.deep_view();
        assert(d.session_id == Some(sid) && d.work_conn_token == Some(tok));
    }
}

/// A login that is not accepted opens nothing and changes nothing: the client is told
/// that it is refused, and why only where its version is the reason.
pub proof fn law_refused_login_opens_nothing(
    first: Message,
    login: Login,
    v: StateView,
    config: &ServerConfig,
    ip: PeerIp,
    step: LoginStep,
    w: StateView,
)
    requires
        first == Message::Login(login),
        login_treated(first, v, config, ip, step, w),
        login.version != 1 || !is_uuid_text(login.run_id@) || login.token@
            != config.server.token@,
    ensures
        w == v,
        step matches LoginStep::Refused(resp) && !resp.ok && resp.session_id is None
            && resp.work_conn_token is None && resp.error.deep_view() == (if login.version != 1 {
            Some("version mismatch"@)
        } else {
            None
        }),
{
    if let LoginStep::Refused(resp) = step {
        let d = resp.deep_view();
        assert(!d.ok && d.session_id is None && d.work_conn_token is None);
        assert(d.error == (if login.version != 1 {
            Some("version mismatch"@)
        } else {
            None
        }));
    }
}

/// What a login leaves on record of its address: a wrong token is counted, and a login
/// that is accepted clears the record. A wrong version leaves it as it was.
pub proof fn law_wrong_tokens_are_noted(v: StateView, step: LoginStep, ip: PeerIp, now: u128)
    requires
        v.failures_current(ip, now) ==> v.login_failures[ip].0 < u32::MAX,
        v.login_window() > 0,
    ensures
        ({
            let w = login_noted(v, step, ip, now);
            &&& step is Opened ==> !w.login_failures.contains_key(ip)
            &&& step matches LoginStep::Refused(resp) ==> if resp.error is None {
                w.login_failures.contains_key(ip) && w.login_failures[ip].0 == (
                if v.failures_current(ip, now) {
                    v.login_failures[ip].0 + 1
                } else {
                    1
                })
            } else {
                w == v
            }
            &&& w.live == v.live && w.sessions == v.sessions
        }),
{
}

/// A proxy's name leads to the current session of its client, and to none where the
/// client has no session or the name is not known.
pub proof fn law_name_leads_to_current_session(v: StateView, name: Seq<char>)
    ensures
        v.proxy_index.contains_key(name) && v.sessions.contains_key(v.proxy_index[name])
            ==> v.proxy_session(name) == Some(v.sessions[v.proxy_index[name]]),
        !v.proxy_index.contains_key(name) || !v.sessions.contains_key(v.proxy_index[name])
            ==> v.proxy_session(name) is None,
{
}

/// The domains of a proxy are kept in lower case, each in its place.
pub proof fn law_domains_are_lowered(np: NewProxyView, i: int)
    ensures
        np.custom_domains is None ==> lowered_domains(np).len() == 0,
        np.custom_domains matches Some(d) ==> lowered_domains(np).len() == d.len() && (0 <= i
            < d.len() && is_ascii_chars(d[i]) ==> lowered_domains(np)[i] == ascii_lowered(d[i])),
{
}

/// Failed logins count for as long as the window that is configured, in seconds.
pub proof fn law_login_window_in_seconds(v: StateView, ip: PeerIp, now: u128)
    requires
        v.login_failures.contains_key(ip),
        v.login_failures[ip].1 <= now,
    ensures
        v.may_log_in(ip, now) <==> now >= v.login_failures[ip].1
            + v.limits.login_failure_window * 1_000_000_000 || v.login_failures[ip].0
            < v.limits.login_failure_limit,
{
}

/// While an address is blocked, no login of it is even looked at: no session opens, and
/// the record stays. Otherwise the right token opens a session and wipes the record out,
/// and a wrong one opens nothing and adds to it.
pub proof fn law_token_guessing_is_limited(
    first: Message,
    login: Login,
    v: StateView,
    config: &ServerConfig,
    ip: PeerIp,
    now: u128,
    r: Option<LoginStep>,
    w: StateView,
)
    requires
        v.wf(),
        first == Message::Login(login),
        login_limited(first, v, config, ip, now, r, w),
        login.version == 1,
        is_uuid_text(login.run_id@),
        encode_utf8(login.run_id@).len() <= v.limits.max_run_id_len,
        encode_utf8(login.token@).len() <= v.limits.max_token_len,
        v.limits.login_failure_window > 0,
    ensures
        ({
            let blocked = v.login_failures.contains_key(ip) && since(
                v.login_failures[ip].1,
                now,
            ) < v.limits.login_failure_window * 1_000_000_000 && v.login_failures[ip].0
                >= v.limits.login_failure_limit;
            &&& r is None <==> blocked
            &&& blocked ==> w == v
            &&& !blocked && login.token@ == config.server.token@ ==> (r matches Some(
                LoginStep::Opened(o),
            ) && w.sessions.contains_key(login.run_id@) && w.sessions[login.run_id@] == o.key
                && !w.login_failures.contains_key(ip))
            &&& !blocked && login.token@ != config.server.token@ ==> (r matches Some(
                LoginStep::Refused(resp),
            ) && !resp.ok && w.live == v.live && w.sessions == v.sessions
                && w.login_failures.contains_key(ip) && w.login_failures[ip].0 >= 1 && (
            v.failures_current(ip, now) ==> w.login_failures[ip].0 == v.login_failures[ip].0 + 1))
        }),
{
    let a = v.asked_log_in(ip, now);
    assert(v.limits.login_failure_window * 1_000_000_000 > 0) by (nonlinear_arith)
        requires
            v.limits.login_failure_window > 0,
    ;
    super::state::lemma_asked_keeps_wf(v, ip, now);
    if let Some(step) = r {
        let x = choose|x: StateView|
            #[trigger] login_treated(first, a, config, ip, step, x) && w == login_noted(
                x,
                step,
                ip,
                now,
            );
        if login.token@ == config.server.token@ {
            law_accepted_login_opens_session(first, login, a, config, ip, step, x);
        } else {
            law_refused_login_opens_nothing(first, login, a, config, ip, step, x);
            if let LoginStep::Refused(resp) = step {
                assert(resp.error.deep_view() is None);
                assert(resp.error is None);
            }
            law_wrong_tokens_are_noted(x, step, ip, now);
        }
    }
}

/// However a control connection ends, its session is given up: the tasks of its proxies
/// are ended and the session is gone. As long as it goes on, so does the session.
pub proof fn law_lost_client_is_given_up(
    event: ControlEvent,
    limits: Limits,
    action: ControlAction,
    v: StateView,
    key: u64,
    r: Option<Cleaned>,
    w: StateView,
    name: Seq<char>,
)
    requires
        v.live.contains_key(key),
        control_action(action, event, limits),
        control_ended(v, key, action, r, w),
    ensures
        event is Received ==> (event matches ControlEvent::Received(m) && (m is Close || (w == v
            && r is None))),
        !(event is Received) || (event matches ControlEvent::Received(m) && m is Close) ==> {
            &&& !w.live.contains_key(key)
            &&& r matches Some(c)
            &&& v.live[key].proxies.contains_key(name) ==> c.handles@.contains(
                v.live[key].proxies[name].handle,
            ) && !w.proxy_index.contains_key(name)
        },
{
    law_control_events(action, event, limits);
}

/// Asking whether an address may log in drops its record exactly where that is past the
/// window, and leaves those of others; a failed login adds to the record of its address
/// within the window and begins a new one after it.
pub proof fn law_old_records_are_dropped(v: StateView, ip: PeerIp, now: u128, other: PeerIp)
    requires
        other != ip,
        v.login_failures.contains_key(ip),
        v.login_failures[ip].1 <= now,
    ensures
        ({
            let w = v.asked_log_in(ip, now);
            let current = now < v.login_failures[ip].1 + v.limits.login_failure_window
                * 1_000_000_000;
            &&& w.login_failures.contains_key(ip) <==> current
            &&& current ==> w.login_failures[ip] == v.login_failures[ip]
            &&& w.login_failures.contains_key(other) == v.login_failures.contains_key(other)
            &&& v.login_failures.contains_key(other) ==> w.login_failures[other]
                == v.login_failures[other]
            &&& w.live == v.live && w.sessions == v.sessions
        }),
{
}

/// A server that has just started has no sessions, proxies, domains or users, has counted
/// nothing, counts as healthy, and takes on as many users as is configured.
pub proof fn law_server_starts_empty(
    limits: Limits,
    started: Clock,
    name: Seq<char>,
    ip: PeerIp,
    now: u128,
)
    ensures
        ({
            let v = StateView::fresh(limits, started);
            &&& v.sessions.len() == 0 && v.pending.len() == 0 && v.udp.len() == 0
            &&& v.proxy_session(name) is None && v.domain_session(name) is None
            &&& v.may_log_in(ip, now)
            &&& v.metrics.accepting && v.metrics.active_connections == 0
                && v.metrics.total_connections == 0
            &&& v.metrics.bytes_up == 0 && v.metrics.bytes_down == 0 && v.metrics.rtt_ms == 0
            &&& v.metrics.accepted_total == 0 && v.metrics.accept_errors_total == 0
                && v.metrics.udp_dropped_total == 0
            &&& v.max_active == limits.max_active_connections && v.limits == limits
            &&& v.work_id == 0
        }),
{
}

} // verus!
