//! UDP proxies: pairing of user addresses with work connections.

use bytes::BytesMut;
use vstd::prelude::*;

use super::metrics::Metrics;
use super::packet::{
    alloc_udp_packet, pool_after_alloc, pool_after_recycle, recycle_packets, UdpPacket,
};
use super::state::{ServerState, StateView};
use crate::addr::PeerAddr;
use crate::clock::{elapsed_since, from_secs, since, NANOS_PER_SEC};
use crate::counter::{bump_by, law_bump_undone, unbump_by, wrapped_difference, wrapped_sum};
use crate::table::{deep_pairs, dropped_pairs, kept, lemma_dropped_pairs, Table};

verus! {

/// A user address that waits for its work connection. Its datagrams are queued
/// under its `work_id`.
#[derive(Clone, Copy, Debug)]
pub struct PendingUdp {
    /// The user.
    pub client: PeerAddr,
    /// When the first datagram came.
    pub created: u128,
}

/// A user address with a work connection.
#[derive(Clone, Copy, Debug)]
pub struct UdpSession {
    /// Under which id the datagrams are queued.
    pub work_id: u64,
    /// When data last went either way.
    pub last_active: u128,
}

impl DeepView for PendingUdp {
    type V = PendingUdp;

    open spec fn deep_view(&self) -> PendingUdp {
        *self
    }
}

impl DeepView for UdpSession {
    type V = UdpSession;

    open spec fn deep_view(&self) -> UdpSession {
        *self
    }
}

/// One UDP proxy.
pub struct UdpProxy {
    /// Tells this proxy from an earlier one of the same name.
    pub id: u64,
    /// Paired users.
    pub sessions: Table<PeerAddr, UdpSession>,
    /// Waiting users, by work id.
    pub pending_by_id: Table<u64, PendingUdp>,
    /// Work id of each waiting user.
    pub pending_client: Table<PeerAddr, u64>,
    /// Idle packet buffers.
    pub packet_pool: Vec<BytesMut>,
    /// How long a paired user may be silent, in nanoseconds.
    pub session_timeout: u128,
    /// How long a user may wait, in nanoseconds.
    pub pending_timeout: u128,
}

/// What a [`UdpProxy`] stands for.
pub struct UdpView {
    pub id: u64,
    pub sessions: Map<PeerAddr, UdpSession>,
    pub pending_by_id: Map<u64, PendingUdp>,
    pub pending_client: Map<PeerAddr, u64>,
    pub pool: nat,
    pub session_timeout: u128,
    pub pending_timeout: u128,
}

impl DeepView for UdpProxy {
    type V = UdpView;

    open spec fn deep_view(&self) -> UdpView {
        UdpView {
            id: self.id,
            sessions: self.sessions@,
            pending_by_id: self.pending_by_id@,
            pending_client: self.pending_client@,
            pool: self.packet_pool@.len(),
            session_timeout: self.session_timeout,
            pending_timeout: self.pending_timeout,
        }
    }
}

impl UdpView {
    /// The two tables of waiting users say the same: each waiting user has one
    /// work id, and each waiting work id one user.
    pub open spec fn paired(self) -> bool {
        &&& forall|id: u64| #[trigger]
            self.pending_by_id.contains_key(id) ==> self.pending_client.contains_key(
                self.pending_by_id[id].client,
            ) && self.pending_client[self.pending_by_id[id].client] == id
        &&& forall|c: PeerAddr| #[trigger]
            self.pending_client.contains_key(c) ==> self.pending_by_id.contains_key(
                self.pending_client[c],
            ) && self.pending_by_id[self.pending_client[c]].client == c
    }

    /// A waiting user, out of both tables; the address keeps a newer work id.
    pub open spec fn without_pending(self, work_id: u64) -> UdpView {
        if self.pending_by_id.contains_key(work_id) {
            let client = self.pending_by_id[work_id].client;
            UdpView {
                pending_by_id: self.pending_by_id.remove(work_id),
                pending_client: if self.pending_client.contains_key(client)
                    && self.pending_client[client] == work_id {
                    self.pending_client.remove(client)
                } else {
                    self.pending_client
                },
                ..self
            }
        } else {
            self
        }
    }

    /// A paired user was active at `now`.
    pub open spec fn touched(self, client: PeerAddr, now: u128) -> UdpView {
        if self.sessions.contains_key(client) {
            UdpView {
                sessions: self.sessions.insert(
                    client,
                    UdpSession { last_active: now, ..self.sessions[client] },
                ),
                ..self
            }
        } else {
            self
        }
    }

    /// A paired user whose work connection has ended.
    pub open spec fn without_session(self, client: PeerAddr) -> UdpView {
        UdpView { sessions: self.sessions.remove(client), ..self }
    }

    /// A user that waits under `work_id` is paired with its work connection, at `now`.
    pub open spec fn started(self, work_id: u64, now: u128) -> UdpView {
        UdpView {
            sessions: self.sessions.insert(
                self.pending_by_id[work_id].client,
                UdpSession { work_id, last_active: now },
            ),
            ..self.without_pending(work_id)
        }
    }

    /// Whether the waiting user `p` has waited too long at `now`.
    pub open spec fn expired(self, p: PendingUdp, now: u128) -> bool {
        since(p.created, now) >= self.pending_timeout
    }

    /// Whether the paired user `s` is still fresh at `now`.
    pub open spec fn fresh(self, s: UdpSession, now: u128) -> bool {
        since(s.last_active, now) < self.session_timeout
    }

    /// Whether the address `c` keeps its work id `id` in a sweep at `now`.
    pub open spec fn keeps_client(self, c: PeerAddr, id: u64, now: u128) -> bool {
        !(self.pending_by_id.contains_key(id) && self.pending_by_id[id].client == c
            && self.expired(self.pending_by_id[id], now))
    }

    /// After a sweep at `now`: silent users and those that waited too long are
    /// gone, the others stay as they are.
    pub open spec fn swept(self, now: u128) -> UdpView {
        UdpView {
            sessions: kept(self.sessions, |c: PeerAddr, s: UdpSession| self.fresh(s, now)),
            pending_by_id: kept(
                self.pending_by_id,
                |id: u64, p: PendingUdp| !self.expired(p, now),
            ),
            pending_client: kept(
                self.pending_client,
                |c: PeerAddr, id: u64| self.keeps_client(c, id, now),
            ),
            ..self
        }
    }
}

/// What is to be done with a datagram.
pub enum DatagramAction {
    /// Queue it for the work connection of a paired user; see [`note_queueing`].
    Forward { work_id: u64, packet: UdpPacket },
    /// Queue it for the work connection that was asked for; see [`note_queueing`].
    Enqueue { work_id: u64, packet: UdpPacket },
    /// Queue it as the first one and ask for a work connection.
    Request { work_id: u64, packet: UdpPacket },
    /// Too many users wait: it was dropped and counted.
    Dropped,
    /// It was let go.
    Ignored,
}

/// How a datagram is treated.
pub enum DatagramRoute {
    /// The user is paired, under this work id.
    Paired(u64),
    /// The user waits, under this work id.
    Waiting(u64),
    /// The user's work id has no entry any more.
    Lost,
    /// The user is new, and too many wait.
    Full,
    /// The user is new.
    New,
}

impl UdpView {
    /// How a datagram of `peer` is treated.
    pub open spec fn route(self, peer: PeerAddr, max_pending: usize) -> DatagramRoute {
        if self.sessions.contains_key(peer) {
            DatagramRoute::Paired(self.sessions[peer].work_id)
        } else if self.pending_client.contains_key(peer) {
            if self.pending_by_id.contains_key(self.pending_client[peer]) {
                DatagramRoute::Waiting(self.pending_client[peer])
            } else {
                DatagramRoute::Lost
            }
        } else if self.pending_by_id.len() >= max_pending {
            DatagramRoute::Full
        } else {
            DatagramRoute::New
        }
    }

    /// The proxy after a datagram of `peer` at `now`, where `next` is the work id
    /// that is given out next.
    pub open spec fn after_datagram(
        self,
        peer: PeerAddr,
        max_pending: usize,
        next: u64,
        now: u128,
    ) -> UdpView {
        let lent = UdpView { pool: pool_after_alloc(self.pool), ..self };
        match self.route(peer, max_pending) {
            DatagramRoute::Paired(_) => lent.touched(peer, now),
            DatagramRoute::Waiting(_) => lent,
            DatagramRoute::New => UdpView {
                pending_by_id: self.pending_by_id.insert(
                    next,
                    PendingUdp { client: peer, created: now },
                ),
                pending_client: self.pending_client.insert(peer, next),
                ..lent
            },
            DatagramRoute::Full | DatagramRoute::Lost => self,
        }
    }
}

/// The metrics after a datagram of `len` bytes that was treated as `route` says,
/// before it is queued.
pub open spec fn datagram_metrics(m: Metrics, route: DatagramRoute, len: nat) -> Metrics {
    match route {
        DatagramRoute::Paired(_) | DatagramRoute::Waiting(_) | DatagramRoute::New => Metrics {
            bytes_up: wrapped_sum(m.bytes_up, len as u64),
            ..m
        },
        DatagramRoute::Full => Metrics {
            udp_dropped_total: wrapped_sum(m.udp_dropped_total, 1),
            ..m
        },
        DatagramRoute::Lost => m,
    }
}

/// The action for a datagram that was treated as `route` says.
pub open spec fn datagram_action(
    a: DatagramAction,
    route: DatagramRoute,
    data: Seq<u8>,
    next: u64,
) -> bool {
    match route {
        DatagramRoute::Paired(id) => a matches DatagramAction::Forward { work_id, packet }
            && work_id == id && packet@ == data,
        DatagramRoute::Waiting(id) => a matches DatagramAction::Enqueue { work_id, packet }
            && work_id == id && packet@ == data,
        DatagramRoute::New => a matches DatagramAction::Request { work_id, packet } && work_id
            == next && packet@ == data,
        DatagramRoute::Full => a is Dropped,
        DatagramRoute::Lost => a is Ignored,
    }
}

/// Whether a paired user was active within `timeout` before `now`.
fn is_fresh(s: &UdpSession, timeout: u128, now: u128) -> (r: bool)
    ensures
        r == (since(s.last_active, now) < timeout),
{
    elapsed_since(s.last_active, now) < timeout
}

/// Whether a waiting user has waited `timeout` at `now`.
fn is_late(p: &PendingUdp, timeout: u128, now: u128) -> (r: bool)
    ensures
        r == (since(p.created, now) >= timeout),
{
    elapsed_since(p.created, now) >= timeout
}

impl UdpProxy {
    /// A proxy without users.
    pub fn new(id: u64, session_timeout: u128, pending_timeout: u128) -> (r: UdpProxy)
        ensures
            r.deep_view() == (UdpView {
                id,
                sessions: Map::empty(),
                pending_by_id: Map::empty(),
                pending_client: Map::empty(),
                pool: 0,
                session_timeout,
                pending_timeout,
            }),
    {
        UdpProxy {
            id,
            sessions: Table::new(),
            pending_by_id: Table::new(),
            pending_client: Table::new(),
            packet_pool: Vec::new(),
            session_timeout,
            pending_timeout,
        }
    }

    /// Treats a datagram of `peer` that came at `now`. `last_work_id` is the work
    /// id that was given out last; a new user takes the next one.
    pub fn take_datagram(
        &mut self,
        metrics: &mut Metrics,
        last_work_id: &mut u64,
        max_pending: usize,
        peer: PeerAddr,
        data: &[u8],
        now: u128,
    ) -> (r: DatagramAction)
        requires
            data@.len() <= isize::MAX / 4,
            old(self).deep_view().route(peer, max_pending) is New ==> *old(last_work_id)
                < u64::MAX,
        ensures
            final(self).deep_view() == old(self).deep_view().after_datagram(
                peer,
                max_pending,
                (*old(last_work_id) + 1) as u64,
                now,
            ),
            *final(metrics) == datagram_metrics(
                *old(metrics),
                old(self).deep_view().route(peer, max_pending),
                data@.len(),
            ),
            *final(last_work_id) == (if old(self).deep_view().route(peer, max_pending) is New {
                (*old(last_work_id) + 1) as u64
            } else {
                *old(last_work_id)
            }),
            datagram_action(
                r,
                old(self).deep_view().route(peer, max_pending),
                data@,
                (*old(last_work_id) + 1) as u64,
            ),
    {
        let len: u64 = data.len() as u64;
        let paired: Option<UdpSession> = match self.sessions.get(&peer) {
            Some(s) => Some(*s),
            None => None,
        };
        if let Some(s) = paired {
            self.sessions.insert(peer, UdpSession { work_id: s.work_id, last_active: now });
            metrics.bytes_up = bump_by(metrics.bytes_up, len);
            let packet = alloc_udp_packet(&mut self.packet_pool, data);
            return DatagramAction::Forward { work_id: s.work_id, packet };
        }
        let waiting: Option<u64> = match self.pending_client.get(&peer) {
            Some(id) => Some(*id),
            None => None,
        };
        if let Some(id) = waiting {
            if self.pending_by_id.contains_key(&id) {
                metrics.bytes_up = bump_by(metrics.bytes_up, len);
                let packet = alloc_udp_packet(&mut self.packet_pool, data);
                return DatagramAction::Enqueue { work_id: id, packet };
            }
            return DatagramAction::Ignored;
        }
        if self.pending_by_id.len() >= max_pending {
            metrics.inc_udp_dropped();
            return DatagramAction::Dropped;
        }
        *last_work_id = *last_work_id + 1;
        let work_id: u64 = *last_work_id;
        metrics.bytes_up = bump_by(metrics.bytes_up, len);
        let packet = alloc_udp_packet(&mut self.packet_pool, data);
        self.pending_by_id.insert(work_id, PendingUdp { client: peer, created: now });
        self.pending_client.insert(peer, work_id);
        DatagramAction::Request { work_id, packet }
    }

    /// Takes a waiting user out, by work id. The address keeps its entry where it
    /// has been given to a newer work id.
    pub fn remove_pending(&mut self, work_id: u64) -> (r: Option<PendingUdp>)
        ensures
            final(self).deep_view() == old(self).deep_view().without_pending(work_id),
            match r {
                Some(p) => old(self).pending_by_id@.contains_key(work_id) && p == old(
                    self,
                ).pending_by_id@[work_id],
                None => !old(self).pending_by_id@.contains_key(work_id),
            },
    {
        let pending: PendingUdp = match self.pending_by_id.remove(&work_id) {
            Some(p) => p,
            None => {
                assert(self.pending_by_id@ =~= old(self).pending_by_id@);
                return None;
            },
        };
        let current: bool = match self.pending_client.get(&pending.client) {
            Some(id) => *id == work_id,
            None => false,
        };
        if current {
            self.pending_client.remove(&pending.client);
        }
        Some(pending)
    }

    /// Drops silent users and users that waited too long; hands out both.
    pub fn sweep(&mut self, now: u128) -> (r: (Vec<(PeerAddr, UdpSession)>, Vec<
        (u64, PendingUdp),
    >))
        ensures
            final(self).deep_view() == old(self).deep_view().swept(now),
            deep_pairs(r.0@) == dropped_pairs(
                old(self).sessions.entries(),
                |c: PeerAddr, s: UdpSession| old(self).deep_view().fresh(s, now),
            ),
            deep_pairs(r.1@) == dropped_pairs(
                old(self).pending_by_id.entries(),
                |id: u64, p: PendingUdp| !old(self).deep_view().expired(p, now),
            ),
    {
        let ghost v = self.deep_view();
        let session_timeout: u128 = self.session_timeout;
        let pending_timeout: u128 = self.pending_timeout;
        let silent = self.sessions.retain(
            |_c: &PeerAddr, s: &UdpSession| -> (b: bool)
                ensures
                    b == v.fresh(*s, now)
                { is_fresh(s, session_timeout, now) },
            Ghost(|c: PeerAddr, s: UdpSession| v.fresh(s, now)),
        );
        let by_id = &self.pending_by_id;
        let _gone = self.pending_client.retain(
            |c: &PeerAddr, id: &u64| -> (b: bool)
                ensures
                    b == v.keeps_client(*c, *id, now)
                {
                    match by_id.get(id) {
                        Some(p) => p.client != *c || !is_late(p, pending_timeout, now),
                        None => true,
                    }
                },
            Ghost(|c: PeerAddr, id: u64| v.keeps_client(c, id, now)),
        );
        let late = self.pending_by_id.retain(
            |_id: &u64, p: &PendingUdp| -> (b: bool)
                ensures
                    b == !v.expired(*p, now)
                { !is_late(p, pending_timeout, now) },
            Ghost(|id: u64, p: PendingUdp| !v.expired(p, now)),
        );
        (silent, late)
    }

    /// Pairs a user with the work connection `work_id`.
    pub fn register_session(&mut self, client: PeerAddr, work_id: u64, now: u128)
        ensures
            final(self).deep_view() == (UdpView {
                sessions: old(self).sessions@.insert(
                    client,
                    UdpSession { work_id, last_active: now },
                ),
                ..old(self).deep_view()
            }),
    {
        self.sessions.insert(client, UdpSession { work_id, last_active: now });
    }

    /// Notes that a paired user was active.
    pub fn touch_session(&mut self, client: PeerAddr, now: u128)
        ensures
            final(self).deep_view() == old(self).deep_view().touched(client, now),
    {
        let found: Option<UdpSession> = match self.sessions.get(&client) {
            Some(s) => Some(*s),
            None => None,
        };
        if let Some(s) = found {
            self.sessions.insert(client, UdpSession { work_id: s.work_id, last_active: now });
        }
    }

    /// A work connection came for `work_id`: the user that waits under it is
    /// paired with it. `None` exactly where none waits; nothing changes.
    pub fn start_work_conn(&mut self, work_id: u64, now: u128) -> (r: Option<PeerAddr>)
        ensures
            match r {
                Some(client) => final(self).deep_view() == old(self).deep_view().started(
                    work_id,
                    now,
                ) && old(self).pending_by_id@.contains_key(work_id) && client == old(
                    self,
                ).pending_by_id@[work_id].client && final(self).deep_view() == (UdpView {
                    sessions: old(self).sessions@.insert(
                        client,
                        UdpSession { work_id, last_active: now },
                    ),
                    ..old(self).deep_view().without_pending(work_id)
                }),
                None => !old(self).pending_by_id@.contains_key(work_id)
                    && final(self).deep_view() == old(self).deep_view(),
            },
    {
        match self.remove_pending(work_id) {
            Some(p) => {
                self.register_session(p.client, work_id, now);
                Some(p.client)
            },
            None => None,
        }
    }

    /// The work connection of `client` ended.
    pub fn end_work_conn(&mut self, client: PeerAddr)
        ensures
            final(self).deep_view() == old(self).deep_view().without_session(client),
            final(self).deep_view() == (UdpView {
                sessions: old(self).sessions@.remove(client),
                ..old(self).deep_view()
            }),
    {
        self.sessions.remove(&client);
    }

    /// Seconds between two sweeps: a quarter of the session timeout, at least one.
    pub fn sweep_period_secs(&self) -> (r: u128)
        ensures
            r == sweep_period(self.session_timeout),
            r == (if self.session_timeout / 1_000_000_000 / 4 > 1 {
                self.session_timeout / 1_000_000_000 / 4
            } else {
                1
            }),
    {
        let quarter: u128 = self.session_timeout / 1_000_000_000 / 4;
        if quarter > 1 {
            quarter
        } else {
            1
        }
    }
}

/// Seconds between two sweeps, for a session timeout in nanoseconds.
pub open spec fn sweep_period(session_timeout: u128) -> int {
    let quarter = session_timeout as int / 1_000_000_000 / 4;
    if quarter > 1 {
        quarter
    } else {
        1
    }
}

/// Counts the bytes of datagrams that go down to a user.
pub fn count_down(metrics: &mut Metrics, frames: &Vec<Vec<u8>>)
    ensures
        *final(metrics) == (Metrics {
            bytes_down: counted(old(metrics).bytes_down, frames@),
            ..*old(metrics)
        }),
{
    let mut i: usize = 0;
    while i < frames.len()
        invariant
            i <= frames@.len(),
            *metrics == (Metrics {
                bytes_down: counted(old(metrics).bytes_down, frames@.take(i as int)),
                ..*old(metrics)
            }),
        decreases frames@.len() - i,
    {
        let len: u64 = frames[i].len() as u64;
        metrics.bytes_down = bump_by(metrics.bytes_down, len);
        assert(frames@.take(i + 1).drop_last() =~= frames@.take(i as int));
        i += 1;
    }
    assert(frames@.take(i as int) =~= frames@);
}

/// The counter `n` after the bytes of `frames` were counted.
pub open spec fn counted(n: u64, frames: Seq<Vec<u8>>) -> u64
    decreases frames.len(),
{
    if frames.len() == 0 {
        n
    } else {
        wrapped_sum(counted(n, frames.drop_last()), frames.last()@.len() as u64)
    }
}

/// Whether the proxy `name` is there, and is the one with this id.
pub open spec fn is_current(v: StateView, name: Seq<char>, id: u64) -> bool {
    v.udp.contains_key(name) && v.udp[name].id == id
}

/// The state with another value for the proxy `name`.
pub open spec fn with_proxy(v: StateView, name: Seq<char>, u: UdpView) -> StateView {
    StateView { udp: v.udp.insert(name, u), ..v }
}

/// The proxy `name`, taken out of the state, where it is there and has this id.
fn take_proxy(state: &mut ServerState, name: &String, id: u64) -> (r: Option<UdpProxy>)
    ensures
        match r {
            Some(p) => is_current(old(state)@, name@, id) && p.deep_view() == old(
                state,
            )@.udp[name@] && final(state)@ == (StateView {
                udp: old(state)@.udp.remove(name@),
                ..old(state)@
            }),
            None => !is_current(old(state)@, name@, id) && final(state)@ == old(state)@,
        },
{
    let current: bool = match state.udp.get(name) {
        Some(p) => p.id == id,
        None => false,
    };
    if current {
        state.udp.remove(name)
    } else {
        None
    }
}

/// Puts the proxy `name` back.
fn put_proxy(state: &mut ServerState, name: &String, proxy: UdpProxy, Ghost(v): Ghost<StateView>)
    requires
        v.wf(),
        v.udp.contains_key(name@),
        proxy.deep_view().paired(),
        old(state)@.udp == v.udp.remove(name@),
        old(state)@.work_id >= v.work_id,
        old(state)@.live == v.live,
        old(state)@.sessions == v.sessions,
        old(state)@.last_session == v.last_session,
        old(state)@.pending == v.pending,
        forall|x: u64| #[trigger]
            proxy.deep_view().pending_by_id.contains_key(x) ==> 1 <= x <= old(state)@.work_id,
    ensures
        final(state)@ == (StateView {
            udp: v.udp.insert(name@, proxy.deep_view()),
            ..old(state)@
        }),
        final(state)@.wf(),
{
    let ghost u = proxy.deep_view();
    state.udp.insert(name.clone(), proxy);
    proof {
        assert(state@.udp =~= v.udp.insert(name@, u));
        assert forall|n: Seq<char>, x: u64|
            #![trigger state@.udp[n].pending_by_id.contains_key(x)]
            state@.udp.contains_key(n) && state@.udp[n].pending_by_id.contains_key(x) implies 1 <= x
            <= state@.work_id by {
            if n != name@ {
                assert(v.udp[n].pending_by_id.contains_key(x));
            }
        }
    }
}

/// The state after a datagram of `peer` came to the proxy `name`.
pub open spec fn after_datagram(
    v: StateView,
    name: Seq<char>,
    peer: PeerAddr,
    len: nat,
    now: u128,
) -> StateView {
    let u = v.udp[name];
    let max = v.limits.max_pending_udp_sessions;
    let next = (v.work_id + 1) as u64;
    StateView {
        udp: v.udp.insert(name, u.after_datagram(peer, max, next, now)),
        metrics: datagram_metrics(v.metrics, u.route(peer, max), len),
        work_id: if u.route(peer, max) is New {
            next
        } else {
            v.work_id
        },
        ..v
    }
}

/// What a datagram of `peer` brings about that came to the proxy `name` under `id`: the
/// state `v` turns into `w`, and `r` is to be done with it.
pub open spec fn datagram_handled(
    v: StateView,
    name: Seq<char>,
    id: u64,
    peer: PeerAddr,
    data: Seq<u8>,
    now: u128,
    r: DatagramAction,
    w: StateView,
) -> bool {
    if is_current(v, name, id) {
        &&& w == after_datagram(v, name, peer, data.len(), now)
        &&& datagram_action(
            r,
            v.udp[name].route(peer, v.limits.max_pending_udp_sessions),
            data,
            (v.work_id + 1) as u64,
        )
    } else {
        w == v && r is Ignored
    }
}

/// Treats a datagram of `peer` that came to the proxy `name` at `now`. One that
/// comes to a proxy that has been taken away is let go.
pub fn handle_datagram(
    state: &mut ServerState,
    name: &String,
    id: u64,
    peer: PeerAddr,
    data: &[u8],
    now: u128,
) -> (r: DatagramAction)
    requires
        old(state)@.wf(),
        is_current(old(state)@, name@, id) && old(state)@.udp[name@].route(
            peer,
            old(state)@.limits.max_pending_udp_sessions,
        ) is New ==> old(state)@.work_id < u64::MAX,
        data@.len() <= isize::MAX / 4,
    ensures
        datagram_handled(old(state)@, name@, id, peer, data@, now, r, final(state)@),
        if is_current(old(state)@, name@, id) {
            &&& final(state)@ == after_datagram(old(state)@, name@, peer, data@.len(), now)
            &&& datagram_action(
                r,
                old(state)@.udp[name@].route(peer, old(state)@.limits.max_pending_udp_sessions),
                data@,
                (old(state)@.work_id + 1) as u64,
            )
        } else {
            final(state)@ == old(state)@ && r is Ignored
        },
        final(state)@.wf(),
{
    let ghost v = state@;
    let mut proxy: UdpProxy = match take_proxy(state, name, id) {
        Some(p) => p,
        None => {
            return DatagramAction::Ignored;
        },
    };
    let max: usize = state.limits.max_pending_udp_sessions;
    let ghost u = v.udp[name@];
    assert(u.route(peer, max) is New ==> !u.pending_by_id.contains_key((v.work_id + 1) as u64));
    let r = proxy.take_datagram(&mut state.metrics, &mut state.work_id, max, peer, data, now);
    proof {
        law_datagram_keeps_pairing(u, peer, max, (v.work_id + 1) as u64, now);
        assert forall|x: u64| #[trigger]
            proxy.deep_view().pending_by_id.contains_key(x) implies 1 <= x <= state@.work_id by {
            if u.pending_by_id.contains_key(x) {
                assert(v.udp[name@].pending_by_id.contains_key(x));
            }
        }
    }
    put_proxy(state, name, proxy, Ghost(v));
    r
}

/// How queueing a datagram for a work connection went.
#[derive(Clone, Copy, Debug, PartialEq, Eq, Structural)]
pub enum Queueing {
    /// The queue took it.
    Taken,
    /// The queue is full, or no one reads it any more.
    Refused,
    /// There is no queue.
    Missing,
}

/// The metrics after a datagram of `len` bytes was to be queued, and that went as
/// `outcome` says. One that its queue did not take is a drop; without a queue it is
/// one only for a paired user. Bytes for a user that still waits count only where the
/// queue took them; those for a paired user have been on their way.
pub open spec fn queueing_metrics(
    m: Metrics,
    waiting: bool,
    outcome: Queueing,
    len: u64,
) -> Metrics {
    Metrics {
        bytes_up: if waiting && outcome != Queueing::Taken {
            wrapped_difference(m.bytes_up, len)
        } else {
            m.bytes_up
        },
        udp_dropped_total: if outcome == Queueing::Refused || outcome == Queueing::Missing
            && !waiting {
            wrapped_sum(m.udp_dropped_total, 1)
        } else {
            m.udp_dropped_total
        },
        ..m
    }
}

/// Notes how queueing a datagram went that [`handle_datagram`] said to forward, or to
/// enqueue for a user that is `waiting`.
pub fn note_queueing(metrics: &mut Metrics, waiting: bool, outcome: Queueing, len: u64)
    ensures
        *final(metrics) == queueing_metrics(*old(metrics), waiting, outcome, len),
{
    if waiting && outcome != Queueing::Taken {
        metrics.bytes_up = unbump_by(metrics.bytes_up, len);
    }
    if outcome == Queueing::Refused || (outcome == Queueing::Missing && !waiting) {
        metrics.inc_udp_dropped();
    }
}

/// A datagram of a user that waits is counted in bytes where its queue took it; where
/// the queue did not, only the drop is counted; where there is no queue, nothing is.
pub proof fn law_waiting_datagram_counts_once(m: Metrics, work_id: u64, len: u64)
    ensures
        ({
            let counted = datagram_metrics(m, DatagramRoute::Waiting(work_id), len as nat);
            &&& queueing_metrics(counted, true, Queueing::Taken, len) == (Metrics {
                bytes_up: wrapped_sum(m.bytes_up, len),
                ..m
            })
            &&& queueing_metrics(counted, true, Queueing::Refused, len) == (Metrics {
                udp_dropped_total: wrapped_sum(m.udp_dropped_total, 1),
                ..m
            })
            &&& queueing_metrics(counted, true, Queueing::Missing, len) == m
        }),
{
    law_bump_undone(m.bytes_up, len);
}

/// A datagram of a paired user is counted in bytes, and as a drop too where its queue
/// did not take it.
pub proof fn law_paired_datagram_is_counted(
    m: Metrics,
    work_id: u64,
    len: u64,
    outcome: Queueing,
)
    ensures
        ({
            let counted = datagram_metrics(m, DatagramRoute::Paired(work_id), len as nat);
            queueing_metrics(counted, false, outcome, len) == (Metrics {
                bytes_up: wrapped_sum(m.bytes_up, len),
                udp_dropped_total: if outcome == Queueing::Taken {
                    m.udp_dropped_total
                } else {
                    wrapped_sum(m.udp_dropped_total, 1)
                },
                ..m
            })
        }),
{
}

/// Gives up on the work connection `work_id`, which could not be asked for.
pub fn remove_pending(state: &mut ServerState, name: &String, id: u64, work_id: u64)
    requires
        old(state)@.wf(),
    ensures
        final(state)@ == (if is_current(old(state)@, name@, id) {
            with_proxy(old(state)@, name@, old(state)@.udp[name@].without_pending(work_id))
        } else {
            old(state)@
        }),
        final(state)@.wf(),
{
    let ghost v = state@;
    if let Some(mut proxy) = take_proxy(state, name, id) {
        let _gone = proxy.remove_pending(work_id);
        proof {
            law_remove_keeps_pairing(v.udp[name@], work_id);
            assert forall|x: u64| #[trigger]
                proxy.deep_view().pending_by_id.contains_key(x) implies 1 <= x <= state@.work_id by {
                assert(v.udp[name@].pending_by_id.contains_key(x));
            }
        }
        put_proxy(state, name, proxy, Ghost(v));
    }
}

/// Drops the silent users of a proxy and those that waited too long; hands out the
/// work ids of both, whose queues are to be closed.
pub fn sweep(state: &mut ServerState, name: &String, id: u64, now: u128) -> (r: Vec<u64>)
    requires
        old(state)@.wf(),
    ensures
        final(state)@ == (if is_current(old(state)@, name@, id) {
            with_proxy(old(state)@, name@, old(state)@.udp[name@].swept(now))
        } else {
            old(state)@
        }),
        final(state)@.wf(),
        forall|x: u64| #[trigger]
            r@.contains(x) <==> is_current(old(state)@, name@, id) && swept_id(
                old(state)@.udp[name@],
                now,
                x,
            ),
{
    let ghost v = state@;
    let ghost u = v.udp[name@];
    let mut ids: Vec<u64> = Vec::new();
    if let Some(mut proxy) = take_proxy(state, name, id) {
        let ghost es = proxy.sessions.entries();
        let ghost ep = proxy.pending_by_id.entries();
        let _s: usize = proxy.sessions.len();
        let _p: usize = proxy.pending_by_id.len();
        let (silent, late) = proxy.sweep(now);
        let ghost ds = deep_pairs(silent@);
        let ghost dp = deep_pairs(late@);
        let ghost fs = |c: PeerAddr, s: UdpSession| u.fresh(s, now);
        let ghost fp = |x: u64, p: PendingUdp| !u.expired(p, now);
        proof {
            lemma_dropped_pairs(es, fs);
            lemma_dropped_pairs(ep, fp);
            law_sweep_keeps_pairing(u, now);
            assert forall|x: u64| #[trigger]
                proxy.deep_view().pending_by_id.contains_key(x) implies 1 <= x <= state@.work_id by {
                assert(v.udp[name@].pending_by_id.contains_key(x));
            }
        }
        put_proxy(state, name, proxy, Ghost(v));
        let mut i: usize = 0;
        while i < silent.len()
            invariant
                i <= silent@.len(),
                ds == deep_pairs(silent@),
                ids@.len() == i,
                forall|j: int| 0 <= j < i ==> #[trigger] ids@[j] == ds[j].1.work_id,
            decreases silent@.len() - i,
        {
            ids.push(silent[i].1.work_id);
            i += 1;
        }
        let mut k: usize = 0;
        while k < late.len()
            invariant
                k <= late@.len(),
                i == ds.len(),
                dp == deep_pairs(late@),
                ids@.len() == i + k,
                forall|j: int| 0 <= j < i ==> #[trigger] ids@[j] == ds[j].1.work_id,
                forall|j: int| i <= j < i + k ==> #[trigger] ids@[j] == dp[j - i].0,
            decreases late@.len() - k,
        {
            ids.push(late[k].0);
            k += 1;
        }
        proof {
            assert forall|x: u64| #[trigger] ids@.contains(x) <==> swept_id(u, now, x) by {
                if ids@.contains(x) {
                    let j = choose|j: int| 0 <= j < ids@.len() && ids@[j] == x;
                    if j < i {
                        assert(ds.contains((ds[j].0, ds[j].1)));
                        assert(u.sessions.contains_key(ds[j].0));
                    } else {
                        assert(dp.contains((dp[j - i].0, dp[j - i].1)));
                    }
                }
                if swept_id(u, now, x) {
                    if u.pending_by_id.contains_key(x) && u.expired(u.pending_by_id[x], now) {
                        assert(dp.contains((x, u.pending_by_id[x])));
                        let j = choose|j: int| 0 <= j < dp.len() && dp[j] == (
                            x,
                            u.pending_by_id[x],
                        );
                        assert(ids@[i + j] == x);
                    } else {
                        let c = choose|c: PeerAddr| #[trigger]
                            u.sessions.contains_key(c) && !u.fresh(u.sessions[c], now)
                                && u.sessions[c].work_id == x;
                        assert(ds.contains((c, u.sessions[c])));
                        let j = choose|j: int| 0 <= j < ds.len() && ds[j] == (c, u.sessions[c]);
                        assert(ids@[j] == x);
                    }
                }
            }
        }
    }
    ids
}

/// Whether a sweep at `now` drops the user under the work id `x`.
pub open spec fn swept_id(u: UdpView, now: u128, x: u64) -> bool {
    ||| u.pending_by_id.contains_key(x) && u.expired(u.pending_by_id[x], now)
    ||| exists|c: PeerAddr| #[trigger]
        u.sessions.contains_key(c) && !u.fresh(u.sessions[c], now) && u.sessions[c].work_id == x
}

/// Notes that data went through the work connection of `client`.
pub fn touch_session(
    state: &mut ServerState,
    name: &String,
    id: u64,
    client: PeerAddr,
    now: u128,
)
    requires
        old(state)@.wf(),
    ensures
        final(state)@ == (if is_current(old(state)@, name@, id) {
            with_proxy(old(state)@, name@, old(state)@.udp[name@].touched(client, now))
        } else {
            old(state)@
        }),
        final(state)@.wf(),
{
    let ghost v = state@;
    if let Some(mut proxy) = take_proxy(state, name, id) {
        proxy.touch_session(client, now);
        proof {
            assert forall|x: u64| #[trigger]
                proxy.deep_view().pending_by_id.contains_key(x) implies 1 <= x <= state@.work_id by {
                assert(v.udp[name@].pending_by_id.contains_key(x));
            }
        }
        put_proxy(state, name, proxy, Ghost(v));
    }
}

/// Takes packet buffers back. Those of a proxy that has been taken away are let go.
pub fn recycle(state: &mut ServerState, name: &String, id: u64, packets: &mut Vec<UdpPacket>)
    requires
        old(state)@.wf(),
    ensures
        final(state)@ == (if is_current(old(state)@, name@, id) {
            with_proxy(
                old(state)@,
                name@,
                UdpView {
                    pool: pool_after_recycle(
                        old(state)@.udp[name@].pool,
                        old(packets)@.len(),
                    ),
                    ..old(state)@.udp[name@]
                },
            )
        } else {
            old(state)@
        }),
        final(packets)@.len() == 0,
        final(state)@.wf(),
{
    let ghost v = state@;
    match take_proxy(state, name, id) {
        Some(mut proxy) => {
            recycle_packets(&mut proxy.packet_pool, packets);
            proof {
                assert forall|x: u64| #[trigger]
                    proxy.deep_view().pending_by_id.contains_key(x) implies 1 <= x
                    <= state@.work_id by {
                    assert(v.udp[name@].pending_by_id.contains_key(x));
                }
            }
            put_proxy(state, name, proxy, Ghost(v));
        },
        None => {
            packets.clear();
        },
    }
}

/// Notes that the work connection of `client` has ended.
pub fn end_work_conn(state: &mut ServerState, name: &String, id: u64, client: PeerAddr)
    requires
        old(state)@.wf(),
    ensures
        final(state)@ == (if is_current(old(state)@, name@, id) {
            with_proxy(old(state)@, name@, old(state)@.udp[name@].without_session(client))
        } else {
            old(state)@
        }),
        final(state)@ == (if is_current(old(state)@, name@, id) {
            with_proxy(
                old(state)@,
                name@,
                UdpView {
                    sessions: old(state)@.udp[name@].sessions.remove(client),
                    ..old(state)@.udp[name@]
                },
            )
        } else {
            old(state)@
        }),
        final(state)@.wf(),
{
    let ghost v = state@;
    if let Some(mut proxy) = take_proxy(state, name, id) {
        proxy.end_work_conn(client);
        proof {
            assert forall|x: u64| #[trigger]
                proxy.deep_view().pending_by_id.contains_key(x) implies 1 <= x <= state@.work_id by {
                assert(v.udp[name@].pending_by_id.contains_key(x));
            }
        }
        put_proxy(state, name, proxy, Ghost(v));
    }
}

/// A UDP proxy without users, under this id.
pub open spec fn fresh_udp(v: StateView, id: u64, session_timeout: u128) -> UdpView {
    UdpView {
        id,
        sessions: Map::empty(),
        pending_by_id: Map::empty(),
        pending_client: Map::empty(),
        pool: 0,
        session_timeout,
        pending_timeout: (v.limits.work_conn_timeout * NANOS_PER_SEC) as u128,
    }
}

/// Registers a UDP proxy whose port is bound.
pub fn register_udp_proxy(
    state: &mut ServerState,
    proxy_name: &String,
    id: u64,
    session_timeout: u128,
)
    ensures
        final(state)@ == (StateView {
            udp: old(state)@.udp.insert(
                proxy_name@,
                fresh_udp(old(state)@, id, session_timeout),
            ),
            ..old(state)@
        }),
        old(state)@.wf() ==> final(state)@.wf(),
{
    let waiting: u128 = from_secs(state.limits.work_conn_timeout);
    let proxy = UdpProxy::new(id, session_timeout, waiting);
    state.udp.insert(proxy_name.clone(), proxy);
}

/// A work connection for the UDP proxy `proxy_name`: the user that waits under
/// `work_id` is paired with it. `None` exactly where there is none.
pub fn handle_udp_work_conn(
    state: &mut ServerState,
    proxy_name: &String,
    work_id: u64,
    now: u128,
) -> (r: Option<(u64, PeerAddr)>)
    requires
        old(state)@.wf(),
    ensures
        ({
            let v = old(state)@;
            let u = v.udp[proxy_name@];
            if v.udp.contains_key(proxy_name@) && u.pending_by_id.contains_key(work_id) {
                let client = u.pending_by_id[work_id].client;
                r == Some((u.id, client)) && final(state)@ == (StateView {
                    udp: v.udp.insert(
                        proxy_name@,
                        UdpView {
                            sessions: u.sessions.insert(
                                client,
                                UdpSession { work_id, last_active: now },
                            ),
                            ..u.without_pending(work_id)
                        },
                    ),
                    ..v
                })
            } else {
                r is None && final(state)@ == v
            }
        }),
        final(state)@.wf(),
{
    let ghost v = state@;
    let mut proxy: UdpProxy = match state.udp.remove(proxy_name) {
        Some(p) => p,
        None => {
            assert(state@.udp =~= v.udp);
            return None;
        },
    };
    let id: u64 = proxy.id;
    let client: Option<PeerAddr> = proxy.start_work_conn(work_id, now);
    let ghost u = proxy.deep_view();
    state.udp.insert(proxy_name.clone(), proxy);
    proof {
        assert(state@.udp =~= v.udp.insert(proxy_name@, u));
        law_remove_keeps_pairing(v.udp[proxy_name@], work_id);
        assert(u.paired());
        if client is None {
            assert(state@.udp =~= v.udp);
        }
        assert forall|n: Seq<char>, x: u64|
            #![trigger state@.udp[n].pending_by_id.contains_key(x)]
            state@.udp.contains_key(n) && state@.udp[n].pending_by_id.contains_key(x) implies 1 <= x
            <= state@.work_id by {
            assert(v.udp[n].pending_by_id.contains_key(x));
        }
    }
    match client {
        Some(c) => Some((id, c)),
        None => None,
    }
}

/// Whether the proxy is a UDP proxy.
pub fn is_udp_proxy(state: &ServerState, proxy_name: &String) -> (r: bool)
    ensures
        r == state@.udp.contains_key(proxy_name@),
{
    state.udp.contains_key(proxy_name)
}

/// The UDP proxy of that name.
pub fn get_udp_proxy<'a>(state: &'a ServerState, proxy_name: &String) -> (r: Option<&'a UdpProxy>)
    ensures
        match r {
            Some(p) => state@.udp.contains_key(proxy_name@) && p.deep_view()
                == state@.udp[proxy_name@],
            None => !state@.udp.contains_key(proxy_name@),
        },
{
    state.udp.get(proxy_name)
}

/// A datagram keeps the two tables of waiting users in step, as long as the next
/// work id is new.
pub proof fn law_datagram_keeps_pairing(
    u: UdpView,
    peer: PeerAddr,
    max_pending: usize,
    next: u64,
    now: u128,
)
    requires
        u.paired(),
        u.route(peer, max_pending) is New ==> !u.pending_by_id.contains_key(next),
    ensures
        u.after_datagram(peer, max_pending, next, now).paired(),
{
}

/// Taking a waiting user out keeps the two tables in step.
pub proof fn law_remove_keeps_pairing(u: UdpView, work_id: u64)
    requires
        u.paired(),
    ensures
        u.without_pending(work_id).paired(),
        !u.without_pending(work_id).pending_by_id.contains_key(work_id),
{
}

/// Taking one waiting user out leaves every other one as it was, and leaves an
/// address to the work id that it was given to later.
pub proof fn law_remove_keeps_others(u: UdpView, work_id: u64, other: u64, c: PeerAddr)
    requires
        other != work_id,
    ensures
        u.without_pending(work_id).pending_by_id.contains_key(other)
            == u.pending_by_id.contains_key(other),
        u.pending_by_id.contains_key(other) ==> u.without_pending(work_id).pending_by_id[other]
            == u.pending_by_id[other],
        u.pending_client.contains_key(c) && u.pending_client[c] == other ==> u.without_pending(
            work_id,
        ).pending_client.contains_key(c) && u.without_pending(work_id).pending_client[c] == other,
{
}

/// A sweep keeps the two tables in step.
pub proof fn law_sweep_keeps_pairing(u: UdpView, now: u128)
    requires
        u.paired(),
    ensures
        u.swept(now).paired(),
{
    let w = u.swept(now);
    assert forall|id: u64| #[trigger]
        w.pending_by_id.contains_key(id) implies w.pending_client.contains_key(
        w.pending_by_id[id].client,
    ) && w.pending_client[w.pending_by_id[id].client] == id by {
        assert(u.pending_by_id.contains_key(id));
    }
    assert forall|c: PeerAddr| #[trigger]
        w.pending_client.contains_key(c) implies w.pending_by_id.contains_key(w.pending_client[c])
        && w.pending_by_id[w.pending_client[c]].client == c by {
        assert(u.pending_client.contains_key(c));
    }
}

/// What a sweep has left, a second sweep at the same time leaves too.
pub proof fn law_sweep_twice(u: UdpView, now: u128)
    requires
        u.paired(),
    ensures
        u.swept(now).swept(now) == u.swept(now),
{
    let w = u.swept(now);
    let z = w.swept(now);
    assert(z.sessions =~= w.sessions);
    assert(z.pending_by_id =~= w.pending_by_id);
    assert forall|c: PeerAddr| w.pending_client.contains_key(c) implies w.keeps_client(
        c,
        w.pending_client[c],
        now,
    ) by {
        assert(u.pending_client.contains_key(c));
    }
    assert(z.pending_client =~= w.pending_client);
}

/// Where the two tables are in step, no datagram is let go unseen: it is
/// forwarded, queued, or counted as dropped.
pub proof fn law_no_datagram_lost(u: UdpView, peer: PeerAddr, max_pending: usize)
    requires
        u.paired(),
    ensures
        !(u.route(peer, max_pending) is Lost),
{
}

/// No more users wait than may.
pub proof fn law_waiting_bounded(
    u: UdpView,
    peer: PeerAddr,
    max_pending: usize,
    next: u64,
    now: u128,
)
    requires
        u.pending_by_id.dom().finite(),
        u.pending_by_id.len() <= max_pending,
    ensures
        u.after_datagram(peer, max_pending, next, now).pending_by_id.len() <= max_pending,
{
}

/// A user that waits, and whose work connection comes, is served under the same
/// work id from then on.
pub proof fn law_paired_after_start(u: UdpView, work_id: u64, max_pending: usize, now: u128)
    requires
        u.pending_by_id.contains_key(work_id),
    ensures
        ({
            let client = u.pending_by_id[work_id].client;
            let after = UdpView {
                sessions: u.sessions.insert(client, UdpSession { work_id, last_active: now }),
                ..u.without_pending(work_id)
            };
            after.route(client, max_pending) == DatagramRoute::Paired(work_id)
        }),
{
}

/// No datagram of a proxy that is there is let go in silence, and none of a proxy that has
/// been taken away, or replaced by another of its name, changes anything.
pub proof fn law_datagram_reaches_its_proxy(
    v: StateView,
    name: Seq<char>,
    id: u64,
    peer: PeerAddr,
    data: Seq<u8>,
    now: u128,
    r: DatagramAction,
    w: StateView,
)
    requires
        v.wf(),
        datagram_handled(v, name, id, peer, data, now, r, w),
    ensures
        !v.udp.contains_key(name) || v.udp[name].id != id ==> w == v && r is Ignored,
        v.udp.contains_key(name) && v.udp[name].id == id ==> !(r is Ignored),
        r matches DatagramAction::Forward { work_id, packet } ==> packet@ == data,
        r matches DatagramAction::Enqueue { work_id, packet } ==> packet@ == data,
        r matches DatagramAction::Request { work_id, packet } ==> packet@ == data,
        r is Dropped <==> v.udp.contains_key(name) && v.udp[name].id == id
            && !v.udp[name].sessions.contains_key(peer) && !v.udp[name].pending_client.contains_key(
            peer,
        ) && v.udp[name].pending_by_id.len() >= v.limits.max_pending_udp_sessions,
        w.live == v.live && w.sessions == v.sessions && w.pending == v.pending,
        forall|n: Seq<char>|
            n != name ==> w.udp.contains_key(n) == #[trigger] v.udp.contains_key(n) && (
            v.udp.contains_key(n) ==> w.udp[n] == v.udp[n]),
{
    if v.udp.contains_key(name) {
        assert(v.udp[name].paired());
        law_no_datagram_lost(v.udp[name], peer, v.limits.max_pending_udp_sessions);
    }
}

/// Within the time in which a user may be silent there are four sweeps, but never more
/// than one in a second.
pub proof fn law_sweeps_are_frequent(session_timeout: u128)
    ensures
        sweep_period(session_timeout) >= 1,
        session_timeout >= 4_000_000_000 ==> sweep_period(session_timeout) * 4_000_000_000
            <= session_timeout < (sweep_period(session_timeout) + 1) * 4_000_000_000,
        session_timeout < 4_000_000_000 ==> sweep_period(session_timeout) == 1,
{
}

} // verus!
