//! Work connections: what they present, and what they are joined with.

use vstd::prelude::*;

use super::session::{Session, SessionView};
use super::state::{ServerState, StateView};
use super::udp::{handle_udp_work_conn, is_udp_proxy, UdpSession, UdpView};
use crate::addr::PeerAddr;
use crate::auth::verify_token;
use crate::limits::WORK_ID_POOL_RESERVED;
use crate::msg::{Message, StartWorkConn};

verus! {

/// Whether what a work connection presents is the token of the session.
pub open spec fn token_ok(s: SessionView, provided: Option<Seq<char>>) -> bool {
    provided == Some(s.work_conn_token)
}

/// Executable form of [`token_ok`].
pub fn verify_work_conn_token(session: &Session, provided: &Option<String>) -> (r: bool)
    ensures
        r == token_ok(session.deep_view(), provided.deep_view()),
{
    match provided {
        Some(t) => verify_token(session.work_conn_token.as_str(), t.as_str()),
        None => false,
    }
}

/// Why a work connection is closed.
#[derive(Clone, Copy, Debug, PartialEq, Eq, Structural)]
pub enum WorkRefusal {
    /// No session has the proxy.
    UnknownProxy,
    /// It does not present the session's token.
    BadToken,
    /// UDP proxies keep no idle work connections.
    UdpNotPooled,
    /// No user waits under the work id at the UDP proxy.
    NoUdpUser,
    /// The proxy has as many idle work connections as it may.
    PoolFull,
    /// No user of that session and proxy waits under the work id.
    NoMatch,
    /// The user connection is gone.
    NoUser,
}

/// What becomes of a work connection.
#[derive(Clone, Copy, Debug, PartialEq, Eq, Structural)]
pub enum WorkAction {
    /// Close it.
    Close(WorkRefusal),
    /// It is kept for a later user.
    Pooled,
    /// Join it with this user connection.
    Bridge { user: u64 },
    /// It carries the datagrams of this user, at this UDP proxy.
    ServeUdp { proxy_id: u64, client: PeerAddr },
}

/// What becomes of a work connection for `name` and `work_id` that presents
/// `token`.
pub open spec fn work_action(
    v: StateView,
    name: Seq<char>,
    work_id: u64,
    token: Option<Seq<char>>,
) -> WorkAction {
    match v.proxy_session(name) {
        None => WorkAction::Close(WorkRefusal::UnknownProxy),
        Some(key) => {
            let s = v.live[key];
            if !token_ok(s, token) {
                WorkAction::Close(WorkRefusal::BadToken)
            } else if v.udp.contains_key(name) {
                if work_id == WORK_ID_POOL_RESERVED {
                    WorkAction::Close(WorkRefusal::UdpNotPooled)
                } else if v.udp[name].pending_by_id.contains_key(work_id) {
                    WorkAction::ServeUdp {
                        proxy_id: v.udp[name].id,
                        client: v.udp[name].pending_by_id[work_id].client,
                    }
                } else {
                    WorkAction::Close(WorkRefusal::NoUdpUser)
                }
            } else if work_id == WORK_ID_POOL_RESERVED {
                if s.pool(name).len() >= v.limits.max_pooled_work_conns {
                    WorkAction::Close(WorkRefusal::PoolFull)
                } else {
                    WorkAction::Pooled
                }
            } else if v.pending.contains_key(work_id) && v.pending[work_id].session_id
                == s.session_id && v.pending[work_id].proxy_name == name {
                match v.pending[work_id].user {
                    Some(user) => WorkAction::Bridge { user },
                    None => WorkAction::Close(WorkRefusal::NoUser),
                }
            } else {
                WorkAction::Close(WorkRefusal::NoMatch)
            }
        },
    }
}

/// The state after that. A connection that is turned away changes nothing, except
/// that a waiting entry whose user is gone goes with it, and that a proxy whose pool is
/// full has an entry for it afterwards, which may be empty.
pub open spec fn after_work(
    v: StateView,
    name: Seq<char>,
    work_id: u64,
    token: Option<Seq<char>>,
    stream: u64,
    now: u128,
) -> StateView {
    match work_action(v, name, work_id, token) {
        WorkAction::Pooled => pooled_more(v, name, seq![stream]),
        WorkAction::Close(WorkRefusal::PoolFull) => pooled_more(v, name, Seq::empty()),
        WorkAction::Bridge { user } => StateView { pending: v.pending.remove(work_id), ..v },
        WorkAction::Close(WorkRefusal::NoUser) => StateView {
            pending: v.pending.remove(work_id),
            ..v
        },
        WorkAction::ServeUdp { proxy_id, client } => StateView {
            udp: v.udp.insert(
                name,
                UdpView {
                    sessions: v.udp[name].sessions.insert(
                        client,
                        UdpSession { work_id, last_active: now },
                    ),
                    ..v.udp[name].without_pending(work_id)
                },
            ),
            ..v
        },
        WorkAction::Close(_) => v,
    }
}

/// The state with `more` added to the idle work connections of the proxy.
pub open spec fn pooled_more(v: StateView, name: Seq<char>, more: Seq<u64>) -> StateView {
    match v.proxy_session(name) {
        Some(key) => {
            let s = v.live[key];
            StateView {
                live: v.live.insert(
                    key,
                    SessionView { pools: s.pools.insert(name, s.pool(name) + more), ..s },
                ),
                ..v
            }
        },
        None => v,
    }
}

/// Adds an idle work connection to a session, unless the proxy has `max` of them.
fn pool_stream(session: &mut Session, proxy_name: &String, stream: u64, max: usize) -> (r: bool)
    ensures
        r == (old(session).deep_view().pool(proxy_name@).len() < max),
        final(session).deep_view() == (SessionView {
            pools: old(session).pools@.insert(
                proxy_name@,
                if r {
                    old(session).deep_view().pool(proxy_name@).push(stream)
                } else {
                    old(session).deep_view().pool(proxy_name@)
                },
            ),
            ..old(session).deep_view()
        }),
{
    let ghost p = session.pools@;
    let ghost before = session.deep_view().pool(proxy_name@);
    let mut pool: Vec<u64> = match session.pools.remove(proxy_name) {
        Some(v) => v,
        None => Vec::new(),
    };
    assert(pool.deep_view() =~= pool@);
    assert(pool@ =~= before);
    let room: bool = pool.len() < max;
    if room {
        pool.push(stream);
    }
    assert(pool.deep_view() =~= pool@);
    session.pools.insert(proxy_name.clone(), pool);
    proof {
        assert(p.remove(proxy_name@).insert(proxy_name@, pool@) =~= p.insert(proxy_name@, pool@));
    }
    room
}

/// Treats the first message of the work connection `stream`.
pub fn handle_work_connection(
    state: &mut ServerState,
    first: &Message,
    stream: u64,
    now: u128,
) -> (r: Result<WorkAction, &'static str>)
    requires
        old(state)@.wf(),
    ensures
        match *first {
            Message::StartWorkConn(s) => r == Ok::<WorkAction, &'static str>(
                work_action(
                    old(state)@,
                    s.proxy_name@,
                    s.work_id,
                    s.work_conn_token.deep_view(),
                ),
            ) && final(state)@ == after_work(
                old(state)@,
                s.proxy_name@,
                s.work_id,
                s.work_conn_token.deep_view(),
                stream,
                now,
            ),
            _ => r matches Err(e) && e@ == "expected StartWorkConn on work connection"@
                && final(state)@ == old(state)@,
        },
        final(state)@.wf(),
{
    match first {
        Message::StartWorkConn(s) => Ok(start_work(state, s, stream, now)),
        _ => Err("expected StartWorkConn on work connection"),
    }
}

/// Treats a work connection that has said what it is for.
fn start_work(state: &mut ServerState, start: &StartWorkConn, stream: u64, now: u128) -> (r:
    WorkAction)
    requires
        old(state)@.wf(),
    ensures
        r == work_action(
            old(state)@,
            start.proxy_name@,
            start.work_id,
            start.work_conn_token.deep_view(),
        ),
        final(state)@ == after_work(
            old(state)@,
            start.proxy_name@,
            start.work_id,
            start.work_conn_token.deep_view(),
            stream,
            now,
        ),
        final(state)@.wf(),
{
    let ghost v = state@;
    let ghost name = start.proxy_name@;
    let key: u64 = match state.session_for_proxy(start.proxy_name.as_str()) {
        Some(k) => k,
        None => {
            return WorkAction::Close(WorkRefusal::UnknownProxy);
        },
    };
    let (valid, session_id): (bool, String) = match state.live.get(&key) {
        Some(s) => (
            verify_work_conn_token(s, &start.work_conn_token),
            s.session_id.clone(),
        ),
        None => (false, String::new()),
    };
    if !valid {
        return WorkAction::Close(WorkRefusal::BadToken);
    }
    if is_udp_proxy(state, &start.proxy_name) {
        if start.work_id == WORK_ID_POOL_RESERVED {
            return WorkAction::Close(WorkRefusal::UdpNotPooled);
        }
        return match handle_udp_work_conn(state, &start.proxy_name, start.work_id, now) {
            Some(p) => WorkAction::ServeUdp { proxy_id: p.0, client: p.1 },
            None => WorkAction::Close(WorkRefusal::NoUdpUser),
        };
    }
    if start.work_id == WORK_ID_POOL_RESERVED {
        let max: usize = state.limits.max_pooled_work_conns;
        let found = state.live.remove(&key);
        let mut s: Session = match found {
            Some(s) => s,
            None => {
                return WorkAction::Close(WorkRefusal::BadToken);
            },
        };
        let pooled = pool_stream(&mut s, &start.proxy_name, stream, max);
        state.live.insert(key, s);
        proof {
            let before = v.live[key].pool(name);
            assert(before + seq![stream] =~= before.push(stream));
            assert(before + Seq::<u64>::empty() =~= before);
            assert(state@.live =~= after_work(
                v,
                name,
                start.work_id,
                start.work_conn_token.deep_view(),
                stream,
                now,
            ).live);
        }
        return if pooled {
            WorkAction::Pooled
        } else {
            WorkAction::Close(WorkRefusal::PoolFull)
        };
    }
    let owned: bool = match state.pending.get(&start.work_id) {
        Some(e) => e.session_id == session_id && e.proxy_name == start.proxy_name,
        None => false,
    };
    if !owned {
        return WorkAction::Close(WorkRefusal::NoMatch);
    }
    let user: Option<u64> = match state.pending.remove(&start.work_id) {
        Some(p) => p.user,
        None => None,
    };
    match user {
        Some(u) => WorkAction::Bridge { user: u },
        None => WorkAction::Close(WorkRefusal::NoUser),
    }
}

} // verus!
