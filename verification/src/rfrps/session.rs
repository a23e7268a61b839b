//! Control sessions and the proxies that they registered.

use vstd::prelude::*;

use crate::addr::PeerIp;
use crate::msg::ProxyType;
use crate::table::Table;

verus! {

/// A registered proxy.
#[derive(Clone, Debug)]
pub struct ProxyEntry {
    /// The task that listens for it; ended with the session.
    pub handle: u64,
    /// What it carries.
    pub kind: ProxyType,
    /// Public port, for TCP and UDP.
    pub remote_port: Option<u16>,
    /// Domains, in lower case.
    pub custom_domains: Vec<String>,
}

/// What a [`ProxyEntry`] stands for.
pub struct ProxyEntryView {
    pub handle: u64,
    pub kind: ProxyType,
    pub remote_port: Option<u16>,
    pub custom_domains: Seq<Seq<char>>,
}

impl DeepView for ProxyEntry {
    type V = ProxyEntryView;

    open spec fn deep_view(&self) -> ProxyEntryView {
        ProxyEntryView {
            handle: self.handle,
            kind: self.kind,
            remote_port: self.remote_port,
            custom_domains: self.custom_domains.deep_view(),
        }
    }
}

/// One control connection between a client and the server.
pub struct Session {
    /// Identity of the client across reconnects.
    pub run_id: String,
    /// Identity of this session.
    pub session_id: String,
    /// Where the client connects from.
    pub peer_ip: PeerIp,
    /// What work connections of the session must present.
    pub work_conn_token: String,
    /// Registered proxies, by name.
    pub proxies: Table<String, ProxyEntry>,
    /// Which proxy each domain belongs to.
    pub proxy_domains: Table<String, String>,
    /// Idle work connections of each proxy, the latest last.
    pub pools: Table<String, Vec<u64>>,
}

/// What a [`Session`] stands for.
#[verifier::ext_equal]
pub struct SessionView {
    pub run_id: Seq<char>,
    pub session_id: Seq<char>,
    pub peer_ip: PeerIp,
    pub work_conn_token: Seq<char>,
    pub proxies: Map<Seq<char>, ProxyEntryView>,
    pub proxy_domains: Map<Seq<char>, Seq<char>>,
    pub pools: Map<Seq<char>, Seq<u64>>,
}

impl DeepView for Session {
    type V = SessionView;

    open spec fn deep_view(&self) -> SessionView {
        SessionView {
            run_id: self.run_id@,
            session_id: self.session_id@,
            peer_ip: self.peer_ip,
            work_conn_token: self.work_conn_token@,
            proxies: self.proxies@,
            proxy_domains: self.proxy_domains@,
            pools: self.pools@,
        }
    }
}

impl SessionView {
    /// A session of which nothing is registered.
    pub open spec fn fresh(
        run_id: Seq<char>,
        session_id: Seq<char>,
        peer_ip: PeerIp,
        work_conn_token: Seq<char>,
    ) -> SessionView {
        SessionView {
            run_id,
            session_id,
            peer_ip,
            work_conn_token,
            proxies: Map::empty(),
            proxy_domains: Map::empty(),
            pools: Map::empty(),
        }
    }

    /// The idle work connections of `proxy`.
    pub open spec fn pool(self, proxy: Seq<char>) -> Seq<u64> {
        if self.pools.contains_key(proxy) {
            self.pools[proxy]
        } else {
            Seq::empty()
        }
    }
}

impl Session {
    /// A session of which nothing is registered.
    pub fn new(
        run_id: String,
        session_id: String,
        peer_ip: PeerIp,
        work_conn_token: String,
    ) -> (r: Session)
        ensures
            r.deep_view() == SessionView::fresh(
                run_id@,
                session_id@,
                peer_ip,
                work_conn_token@,
            ),
    {
        Session {
            run_id,
            session_id,
            peer_ip,
            work_conn_token,
            proxies: Table::new(),
            proxy_domains: Table::new(),
            pools: Table::new(),
        }
    }
}

} // verus!
