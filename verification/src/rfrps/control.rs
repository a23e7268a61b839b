//! Control connections: login, the messages of a session, and its end.

use vstd::prelude::*;
use vstd::utf8::*;

use super::metrics::Metrics;
use super::session::{Session, SessionView};
use super::state::{remove_names, ServerState, StateView};
use crate::addr::PeerIp;
use crate::auth::verify_token;
use crate::config::ServerConfig;
use crate::counter::{less, take_away};
use crate::ident::{is_random_uuid, is_uuid, is_uuid_text, new_uuid};
use crate::limits::{Limits, PROTOCOL_VERSION};
use crate::msg::{
    Login, LoginResp, LoginRespView, Message, NewProxy, NewProxyResp, NewProxyRespView,
    NewProxyView, ProxyError, ProxyType,
};
use crate::table::{kept, lemma_map_of, Table};
use crate::text::{has_white_space, is_white_space, to_chars, white_space};

verus! {

/// How a login is judged.
#[derive(Clone, Copy, Debug, PartialEq, Eq, Structural)]
pub enum LoginCheck {
    /// The client speaks another protocol version.
    VersionMismatch,
    /// The `run_id` is no UUID, or a field is too long.
    InvalidFields,
    /// The token is wrong.
    BadToken,
    /// Nothing is wrong.
    Accepted,
}

/// How a login is judged, the version first and the token last. `uuid` says
/// whether the `run_id` is a UUID.
pub open spec fn login_check(
    login: Login,
    token: Seq<char>,
    limits: Limits,
    uuid: bool,
) -> LoginCheck {
    if login.version != PROTOCOL_VERSION {
        LoginCheck::VersionMismatch
    } else if !uuid || encode_utf8(login.run_id@).len() > limits.max_run_id_len || encode_utf8(
        login.token@,
    ).len() > limits.max_token_len {
        LoginCheck::InvalidFields
    } else if token != login.token@ {
        LoginCheck::BadToken
    } else {
        LoginCheck::Accepted
    }
}

/// Judges a login.
pub fn check_login(login: &Login, config: &ServerConfig, limits: &Limits) -> (r: LoginCheck)
    ensures
        r == login_check(*login, config.server.token@, *limits, is_uuid_text(login.run_id@)),
{
    if login.version != PROTOCOL_VERSION {
        return LoginCheck::VersionMismatch;
    }
    if !is_uuid(login.run_id.as_str()) || login.run_id.as_str().as_bytes().len()
        > limits.max_run_id_len || login.token.as_str().as_bytes().len() > limits.max_token_len {
        return LoginCheck::InvalidFields;
    }
    if !verify_token(config.server.token.as_str(), login.token.as_str()) {
        return LoginCheck::BadToken;
    }
    LoginCheck::Accepted
}

/// The answer to a login that was refused: only a version mismatch is named.
pub open spec fn refusal(check: LoginCheck) -> LoginRespView {
    LoginRespView {
        ok: false,
        error: if check == LoginCheck::VersionMismatch {
            Some("version mismatch"@)
        } else {
            None
        },
        session_id: None,
        work_conn_tls: None,
        work_conn_token: None,
    }
}

/// The answer to a login that was refused; `None` exactly where it was not.
pub fn refuse_login(check: LoginCheck) -> (r: Option<LoginResp>)
    ensures
        match r {
            Some(resp) => check != LoginCheck::Accepted && resp.deep_view() == refusal(check),
            None => check == LoginCheck::Accepted,
        },
{
    let error: Option<String> = match check {
        LoginCheck::Accepted => {
            return None;
        },
        LoginCheck::VersionMismatch => Some("version mismatch".to_owned()),
        LoginCheck::InvalidFields | LoginCheck::BadToken => None,
    };
    Some(
        LoginResp {
            ok: false,
            error,
            session_id: None,
            work_conn_tls: None,
            work_conn_token: None,
        },
    )
}

/// The login that a first message holds, or the error of a message that is none.
pub fn expect_login(first: Message) -> (r: Result<Login, &'static str>)
    ensures
        match r {
            Ok(l) => first == Message::Login(l),
            Err(e) => !(first is Login) && e@ == "first frame must be Login"@,
        },
{
    match first {
        Message::Login(l) => Ok(l),
        _ => Err("first frame must be Login"),
    }
}

/// Whether the fields of a proxy are within bounds: a name without slash and
/// white space, and not too many, empty or too long domains.
pub open spec fn proxy_fields_ok(np: NewProxyView, limits: Limits) -> bool {
    &&& np.proxy_name.len() > 0
    &&& encode_utf8(np.proxy_name).len() <= limits.max_proxy_name_len
    &&& !np.proxy_name.contains('/')
    &&& !has_white_space(np.proxy_name)
    &&& match np.custom_domains {
        Some(d) => d.len() <= limits.max_custom_domains && forall|i: int|
            0 <= i < d.len() ==> domain_ok(#[trigger] d[i], limits),
        None => true,
    }
}

/// Whether a domain is neither empty nor too long.
pub open spec fn domain_ok(d: Seq<char>, limits: Limits) -> bool {
    d.len() > 0 && encode_utf8(d).len() <= limits.max_domain_len
}

/// Checks the fields of a proxy: an error exactly where they are out of bounds.
pub fn new_proxy_invalid(np: &NewProxy, limits: &Limits) -> (r: Option<&'static str>)
    ensures
        match r {
            Some(e) => !proxy_fields_ok(np.deep_view(), *limits) && e@ == "invalid field"@,
            None => proxy_fields_ok(np.deep_view(), *limits),
        },
{
    let name = to_chars(np.proxy_name.as_str());
    if name.len() == 0 || np.proxy_name.as_str().as_bytes().len() > limits.max_proxy_name_len {
        return Some("invalid field");
    }
    let mut i: usize = 0;
    while i < name.len()
        invariant
            i <= name@.len(),
            name@ == np.proxy_name@,
            forall|j: int| 0 <= j < i ==> name@[j] != '/' && !is_white_space(#[trigger] name@[j]),
        decreases name@.len() - i,
    {
        if name[i] == '/' || white_space(name[i]) {
            assert(name@[i as int] == np.proxy_name@[i as int]);
            return Some("invalid field");
        }
        i += 1;
    }
    if let Some(domains) = &np.custom_domains {
        if domains.len() > limits.max_custom_domains {
            return Some("invalid field");
        }
        let ghost dv = domains.deep_view();
        let mut k: usize = 0;
        while k < domains.len()
            invariant
                k <= domains@.len(),
                dv == domains.deep_view(),
                np.custom_domains.deep_view() == Some(dv),
                forall|j: int| 0 <= j < k ==> domain_ok(#[trigger] dv[j], *limits),
            decreases domains@.len() - k,
        {
            let d = domains[k].as_str();
            assert(d@ == dv[k as int]);
            if d.is_empty() || d.as_bytes().len() > limits.max_domain_len {
                assert(!domain_ok(dv[k as int], *limits));
                return Some("invalid field");
            }
            k += 1;
        }
    }
    None
}

/// What the end of a session leaves to be closed.
pub struct Cleaned {
    /// Listening tasks to end.
    pub handles: Vec<u64>,
    /// Idle work connections to close.
    pub pooled: Vec<u64>,
    /// Waiting user connections to close.
    pub users: Vec<u64>,
    /// UDP proxies to stop.
    pub udp: Vec<u64>,
}

/// The state after the end of the session under `key`: its proxies, domains and
/// idle work connections are gone, and so are the user connections that wait for
/// one of its work connections. The session itself is still held.
pub open spec fn cleaned(v: StateView, key: u64) -> StateView {
    let s = v.live[key];
    StateView {
        live: v.live.insert(
            key,
            SessionView {
                proxies: Map::empty(),
                proxy_domains: Map::empty(),
                pools: Map::empty(),
                ..s
            },
        ),
        udp: kept(v.udp, |n: Seq<char>, u: super::udp::UdpView| !is_udp_of(s, n)),
        proxy_index: kept(v.proxy_index, |n: Seq<char>, r: Seq<char>| !s.proxies.contains_key(n)),
        domain_index: kept(
            v.domain_index,
            |d: Seq<char>, o: (Seq<char>, Seq<char>)| !s.proxy_domains.contains_key(d),
        ),
        pending: kept(
            v.pending,
            |id: u64, p: super::state::PendingView| p.session_id != s.session_id,
        ),
        ..v
    }
}

/// Whether `name` is a UDP proxy of the session.
pub open spec fn is_udp_of(s: SessionView, name: Seq<char>) -> bool {
    s.proxies.contains_key(name) && s.proxies[name].kind == ProxyType::Udp
}

/// What the end of the session under `key` leaves to be closed: the tasks of all
/// its proxies, its idle work connections, the users that wait for it and the UDP
/// proxies that are taken away.
pub open spec fn leaves(c: Cleaned, v: StateView, key: u64) -> bool {
    let s = v.live[key];
    &&& forall|h: u64| #[trigger]
        c.handles@.contains(h) <==> exists|n: Seq<char>| #[trigger]
            s.proxies.contains_key(n) && s.proxies[n].handle == h
    &&& forall|x: u64| #[trigger]
        c.pooled@.contains(x) <==> exists|n: Seq<char>| #[trigger]
            s.pools.contains_key(n) && s.pools[n].contains(x)
    &&& forall|x: u64| #[trigger]
        c.users@.contains(x) <==> exists|id: u64| #[trigger]
            v.pending.contains_key(id) && v.pending[id].session_id == s.session_id
                && v.pending[id].user == Some(x)
    &&& forall|x: u64| #[trigger]
        c.udp@.contains(x) <==> exists|n: Seq<char>| #[trigger]
            v.udp.contains_key(n) && is_udp_of(s, n) && v.udp[n].id == x
}

/// The names, the tasks and the names of the UDP proxies among the proxies of a
/// session.
fn list_proxies(s: &Session) -> (r: (Vec<String>, Vec<u64>, Vec<String>))
    ensures
        forall|n: Seq<char>| #[trigger]
            r.0.deep_view().contains(n) <==> s.proxies@.contains_key(n),
        forall|h: u64| #[trigger]
            r.1@.contains(h) <==> exists|n: Seq<char>| #[trigger]
                s.proxies@.contains_key(n) && s.proxies@[n].handle == h,
        forall|n: Seq<char>| #[trigger]
            r.2.deep_view().contains(n) <==> is_udp_of(s.deep_view(), n),
{
    let ghost e = s.proxies.entries();
    let count: usize = s.proxies.len();
    let mut names: Vec<String> = Vec::new();
    let mut handles: Vec<u64> = Vec::new();
    let mut udp: Vec<String> = Vec::new();
    proof {
        lemma_map_of(e);
    }
    let mut i: usize = 0;
    while i < count
        invariant
            i <= count == e.len(),
            e == s.proxies.entries(),
            names.deep_view().len() == i,
            handles@.len() == i,
            forall|j: int| 0 <= j < i ==> #[trigger] names.deep_view()[j] == e[j].0,
            forall|j: int| 0 <= j < i ==> #[trigger] handles@[j] == e[j].1.handle,
            forall|n: Seq<char>| #[trigger]
                udp.deep_view().contains(n) <==> exists|j: int|
                    0 <= j < i && (#[trigger] e[j]).0 == n && e[j].1.kind == ProxyType::Udp,
        decreases count - i,
    {
        let (name, entry) = s.proxies.nth(i);
        let ghost n0 = names.deep_view();
        let ghost u0 = udp.deep_view();
        names.push(name.clone());
        assert(names.deep_view() =~= n0.push(name@));
        handles.push(entry.handle);
        if entry.kind == ProxyType::Udp {
            udp.push(name.clone());
            assert(udp.deep_view() =~= u0.push(name@));
        }
        proof {
            assert forall|n: Seq<char>| #[trigger] udp.deep_view().contains(n) <==> exists|j: int|
                0 <= j < i + 1 && (#[trigger] e[j]).0 == n && e[j].1.kind == ProxyType::Udp by {
                if udp.deep_view().contains(n) {
                    if u0.contains(n) {
                        let j = choose|j: int|
                            0 <= j < i && (#[trigger] e[j]).0 == n && e[j].1.kind
                                == ProxyType::Udp;
                        assert(e[j].0 == n);
                    } else {
                        assert(e[i as int].0 == n);
                    }
                }
                if exists|j: int|
                    0 <= j < i + 1 && (#[trigger] e[j]).0 == n && e[j].1.kind == ProxyType::Udp {
                    let j = choose|j: int|
                        0 <= j < i + 1 && (#[trigger] e[j]).0 == n && e[j].1.kind
                            == ProxyType::Udp;
                    if j < i {
                        assert(u0.contains(n));
                        let k = choose|k: int| 0 <= k < u0.len() && u0[k] == n;
                        assert(udp.deep_view()[k] == n);
                    } else {
                        assert(udp.deep_view()[u0.len() as int] == n);
                    }
                }
            }
        }
        i += 1;
    }
    proof {
        assert forall|n: Seq<char>| #[trigger]
            names.deep_view().contains(n) <==> s.proxies@.contains_key(n) by {
            if names.deep_view().contains(n) {
                let j = choose|j: int|
                    0 <= j < names.deep_view().len() && names.deep_view()[j] == n;
                assert(e[j].0 == n);
            }
            if s.proxies@.contains_key(n) {
                let j = choose|j: int| 0 <= j < e.len() && (#[trigger] e[j]).0 == n;
                assert(names.deep_view()[j] == n);
            }
        }
        assert forall|h: u64| #[trigger] handles@.contains(h) <==> exists|n: Seq<char>| #[trigger]
            s.proxies@.contains_key(n) && s.proxies@[n].handle == h by {
            if handles@.contains(h) {
                let j = choose|j: int| 0 <= j < handles@.len() && handles@[j] == h;
                assert(s.proxies@.contains_key(e[j].0));
            }
            if exists|n: Seq<char>| #[trigger]
                s.proxies@.contains_key(n) && s.proxies@[n].handle == h {
                let n = choose|n: Seq<char>| #[trigger]
                    s.proxies@.contains_key(n) && s.proxies@[n].handle == h;
                let j = choose|j: int| 0 <= j < e.len() && (#[trigger] e[j]).0 == n;
                assert(handles@[j] == h);
            }
        }
        assert forall|n: Seq<char>| #[trigger]
            udp.deep_view().contains(n) <==> is_udp_of(s.deep_view(), n) by {
            if is_udp_of(s.deep_view(), n) {
                let j = choose|j: int| 0 <= j < e.len() && (#[trigger] e[j]).0 == n;
                assert(e[j].1.kind == ProxyType::Udp);
            }
        }
    }
    (names, handles, udp)
}

/// The keys of a table.
pub(crate) fn list_keys<V: DeepView>(table: &Table<String, V>) -> (r: Vec<String>)
    ensures
        forall|n: Seq<char>| #[trigger] r.deep_view().contains(n) <==> table@.contains_key(n),
{
    let ghost e = table.entries();
    let count: usize = table.len();
    let mut names: Vec<String> = Vec::new();
    proof {
        lemma_map_of(e);
    }
    let mut i: usize = 0;
    while i < count
        invariant
            i <= count == e.len(),
            e == table.entries(),
            names.deep_view().len() == i,
            forall|j: int| 0 <= j < i ==> #[trigger] names.deep_view()[j] == e[j].0,
        decreases count - i,
    {
        let (name, _) = table.nth(i);
        let ghost n0 = names.deep_view();
        names.push(name.clone());
        assert(names.deep_view() =~= n0.push(name@));
        i += 1;
    }
    proof {
        assert forall|n: Seq<char>| #[trigger]
            names.deep_view().contains(n) <==> table@.contains_key(n) by {
            if names.deep_view().contains(n) {
                let j = choose|j: int|
                    0 <= j < names.deep_view().len() && names.deep_view()[j] == n;
                assert(e[j].0 == n);
            }
            if table@.contains_key(n) {
                let j = choose|j: int| 0 <= j < e.len() && (#[trigger] e[j]).0 == n;
                assert(names.deep_view()[j] == n);
            }
        }
    }
    names
}

/// All values of a table of lists, in one list.
fn list_pooled(pools: &Table<String, Vec<u64>>) -> (r: Vec<u64>)
    ensures
        forall|x: u64| #[trigger]
            r@.contains(x) <==> exists|n: Seq<char>| #[trigger]
                pools@.contains_key(n) && pools@[n].contains(x),
{
    let ghost e = pools.entries();
    let count: usize = pools.len();
    let mut out: Vec<u64> = Vec::new();
    proof {
        lemma_map_of(e);
    }
    let mut i: usize = 0;
    while i < count
        invariant
            i <= count == e.len(),
            e == pools.entries(),
            forall|x: u64| #[trigger]
                out@.contains(x) <==> exists|j: int| 0 <= j < i && (#[trigger] e[j]).1.contains(x),
        decreases count - i,
    {
        let (_, pool) = pools.nth(i);
        let ghost o0 = out@;
        let mut k: usize = 0;
        while k < pool.len()
            invariant
                k <= pool@.len(),
                out@ == o0 + pool@.take(k as int),
            decreases pool@.len() - k,
        {
            out.push(pool[k]);
            k += 1;
            assert(out@ =~= o0 + pool@.take(k as int));
        }
        proof {
            assert(pool@.take(k as int) =~= pool@);
            assert(pool.deep_view() =~= pool@);
            assert(e[i as int].1 == pool@);
            assert forall|x: u64| #[trigger] out@.contains(x) <==> exists|j: int|
                0 <= j < i + 1 && (#[trigger] e[j]).1.contains(x) by {
                if out@.contains(x) {
                    let a = choose|a: int| 0 <= a < out@.len() && out@[a] == x;
                    if a < o0.len() {
                        assert(o0[a] == x);
                        assert(o0.contains(x));
                    } else {
                        assert(pool@[a - o0.len()] == x);
                        assert(e[i as int].1.contains(x));
                    }
                }
                if exists|j: int| 0 <= j < i + 1 && (#[trigger] e[j]).1.contains(x) {
                    let j = choose|j: int| 0 <= j < i + 1 && (#[trigger] e[j]).1.contains(x);
                    if j < i {
                        assert(o0.contains(x));
                        let a = choose|a: int| 0 <= a < o0.len() && o0[a] == x;
                        assert(out@[a] == x);
                    } else {
                        let a = choose|a: int| 0 <= a < pool@.len() && pool@[a] == x;
                        assert(out@[o0.len() + a] == x);
                    }
                }
            }
        }
        i += 1;
    }
    proof {
        assert forall|x: u64| #[trigger] out@.contains(x) <==> exists|n: Seq<char>| #[trigger]
            pools@.contains_key(n) && pools@[n].contains(x) by {
            if out@.contains(x) {
                let j = choose|j: int| 0 <= j < e.len() && (#[trigger] e[j]).1.contains(x);
                assert(pools@.contains_key(e[j].0));
            }
            if exists|n: Seq<char>| #[trigger] pools@.contains_key(n) && pools@[n].contains(x) {
                let n = choose|n: Seq<char>| #[trigger]
                    pools@.contains_key(n) && pools@[n].contains(x);
                let j = choose|j: int| 0 <= j < e.len() && (#[trigger] e[j]).0 == n;
                assert(e[j].1.contains(x));
            }
        }
    }
    out
}

/// Whether `name` is in the list.
pub(crate) fn has_name(list: &Vec<String>, name: &String) -> (r: bool)
    ensures
        r == list.deep_view().contains(name@),
{
    let mut i: usize = 0;
    while i < list.len()
        invariant
            i <= list@.len(),
            forall|j: int| 0 <= j < i ==> #[trigger] list.deep_view()[j] != name@,
        decreases list@.len() - i,
    {
        if list[i] == *name {
            assert(list.deep_view()[i as int] == name@);
            return true;
        }
        assert(list.deep_view()[i as int] != name@);
        i += 1;
    }
    false
}

/// Takes the named UDP proxies away and lists their ids.
fn remove_udp(state: &mut ServerState, names: &Vec<String>) -> (r: Vec<u64>)
    ensures
        final(state)@ == (StateView {
            udp: kept(
                old(state)@.udp,
                |n: Seq<char>, u: super::udp::UdpView| !names.deep_view().contains(n),
            ),
            ..old(state)@
        }),
        forall|x: u64| #[trigger]
            r@.contains(x) <==> exists|n: Seq<char>| #[trigger]
                old(state)@.udp.contains_key(n) && names.deep_view().contains(n) && old(
                    state,
                )@.udp[n].id == x,
{
    let ghost listed = names.deep_view();
    let ghost p = |n: Seq<char>, u: super::udp::UdpView| !listed.contains(n);
    let ghost e = state.udp.entries();
    let _count: usize = state.udp.len();
    let gone = state.udp.retain(
        |n: &String, _u: &super::udp::UdpProxy| -> (b: bool)
            ensures
                b == !listed.contains(n@)
            { !has_name(names, n) },
        Ghost(p),
    );
    proof {
        crate::table::lemma_dropped_pairs(e, p);
    }
    let ghost d = crate::table::deep_pairs(gone@);
    let mut ids: Vec<u64> = Vec::new();
    let mut i: usize = 0;
    while i < gone.len()
        invariant
            i <= gone@.len(),
            ids@.len() == i,
            d == crate::table::deep_pairs(gone@),
            forall|j: int| 0 <= j < i ==> #[trigger] ids@[j] == d[j].1.id,
        decreases gone@.len() - i,
    {
        ids.push(gone[i].1.id);
        i += 1;
    }
    proof {
        let m = old(state)@.udp;
        assert forall|x: u64| #[trigger] ids@.contains(x) <==> exists|n: Seq<char>| #[trigger]
            m.contains_key(n) && listed.contains(n) && m[n].id == x by {
            if ids@.contains(x) {
                let j = choose|j: int| 0 <= j < ids@.len() && ids@[j] == x;
                assert(d.contains((d[j].0, d[j].1)));
                assert(m.contains_key(d[j].0));
            }
            if exists|n: Seq<char>| #[trigger]
                m.contains_key(n) && listed.contains(n) && m[n].id == x {
                let n = choose|n: Seq<char>| #[trigger]
                    m.contains_key(n) && listed.contains(n) && m[n].id == x;
                assert(d.contains((n, m[n])));
                let j = choose|j: int| 0 <= j < d.len() && d[j] == (n, m[n]);
                assert(ids@[j] == x);
            }
        }
    }
    ids
}

/// Takes the waiting users of a session away and lists their streams.
fn remove_pending_of(state: &mut ServerState, session_id: &String) -> (r: Vec<u64>)
    ensures
        final(state)@ == (StateView {
            pending: kept(
                old(state)@.pending,
                |id: u64, p: super::state::PendingView| p.session_id != session_id@,
            ),
            ..old(state)@
        }),
        forall|x: u64| #[trigger]
            r@.contains(x) <==> exists|id: u64| #[trigger]
                old(state)@.pending.contains_key(id) && old(state)@.pending[id].session_id
                    == session_id@ && old(state)@.pending[id].user == Some(x),
{
    let ghost sid = session_id@;
    let ghost p = |id: u64, w: super::state::PendingView| w.session_id != sid;
    let ghost e = state.pending.entries();
    let _count: usize = state.pending.len();
    let gone = state.pending.retain(
        |_id: &u64, w: &super::state::PendingWork| -> (b: bool)
            ensures
                b == (w.session_id@ != sid)
            { w.session_id != *session_id },
        Ghost(p),
    );
    proof {
        crate::table::lemma_dropped_pairs(e, p);
    }
    let ghost d = crate::table::deep_pairs(gone@);
    let mut users: Vec<u64> = Vec::new();
    let mut i: usize = 0;
    while i < gone.len()
        invariant
            i <= gone@.len(),
            d == crate::table::deep_pairs(gone@),
            forall|x: u64| #[trigger]
                users@.contains(x) <==> exists|j: int|
                    0 <= j < i && (#[trigger] d[j]).1.user == Some(x),
        decreases gone@.len() - i,
    {
        let ghost u0 = users@;
        if let Some(u) = gone[i].1.user {
            users.push(u);
            assert(d[i as int].1.user == Some(u));
        }
        proof {
            assert forall|x: u64| #[trigger] users@.contains(x) <==> exists|j: int|
                0 <= j < i + 1 && (#[trigger] d[j]).1.user == Some(x) by {
                if users@.contains(x) {
                    if u0.contains(x) {
                        let j = choose|j: int| 0 <= j < i && (#[trigger] d[j]).1.user == Some(x);
                        assert(d[j].1.user == Some(x));
                    } else {
                        assert(d[i as int].1.user == Some(x));
                    }
                }
                if exists|j: int| 0 <= j < i + 1 && (#[trigger] d[j]).1.user == Some(x) {
                    let j = choose|j: int| 0 <= j < i + 1 && (#[trigger] d[j]).1.user == Some(x);
                    if j < i {
                        assert(u0.contains(x));
                        let a = choose|a: int| 0 <= a < u0.len() && u0[a] == x;
                        assert(users@[a] == x);
                    } else {
                        assert(users@[u0.len() as int] == x);
                    }
                }
            }
        }
        i += 1;
    }
    proof {
        let m = old(state)@.pending;
        assert forall|x: u64| #[trigger] users@.contains(x) <==> exists|id: u64| #[trigger]
            m.contains_key(id) && m[id].session_id == sid && m[id].user == Some(x) by {
            if users@.contains(x) {
                let j = choose|j: int| 0 <= j < d.len() && (#[trigger] d[j]).1.user == Some(x);
                assert(d.contains((d[j].0, d[j].1)));
                assert(m.contains_key(d[j].0));
            }
            if exists|id: u64| #[trigger]
                m.contains_key(id) && m[id].session_id == sid && m[id].user == Some(x) {
                let id = choose|id: u64| #[trigger]
                    m.contains_key(id) && m[id].session_id == sid && m[id].user == Some(x);
                assert(d.contains((id, m[id])));
                let j = choose|j: int| 0 <= j < d.len() && d[j] == (id, m[id]);
                assert(d[j].1.user == Some(x));
            }
        }
    }
    users
}

/// Ends the session under `key`: see [`cleaned`] for the state and [`leaves`] for
/// what is to be closed.
pub fn cleanup(state: &mut ServerState, key: u64) -> (r: Cleaned)
    requires
        old(state)@.live.contains_key(key),
    ensures
        final(state)@ == cleaned(old(state)@, key),
        leaves(r, old(state)@, key),
        old(state)@.wf() ==> final(state)@.wf(),
{
    let ghost v = state@;
    let found = state.live.remove(&key);
    let mut s = match found {
        Some(s) => s,
        None => {
            return Cleaned {
                handles: Vec::new(),
                pooled: Vec::new(),
                users: Vec::new(),
                udp: Vec::new(),
            };
        },
    };
    let ghost sv = v.live[key];
    assert(s.deep_view() == sv);
    let (names, handles, udp_names) = list_proxies(&s);
    let domains = list_keys(&s.proxy_domains);
    let pooled = list_pooled(&s.pools);
    let ghost pools = s.pools@;
    let udp = remove_udp(state, &udp_names);
    remove_names(&mut state.proxy_index, &names);
    remove_names(&mut state.domain_index, &domains);
    let users = remove_pending_of(state, &s.session_id);
    s.proxies = Table::new();
    s.proxy_domains = Table::new();
    s.pools = Table::new();
    state.live.insert(key, s);
    let r = Cleaned { handles, pooled, users, udp };
    proof {
        let w = cleaned(v, key);
        assert(state@.live =~= w.live);
        assert(state@.udp =~= w.udp);
        assert(state@.proxy_index =~= w.proxy_index);
        assert(state@.domain_index =~= w.domain_index);
        assert(state@.pending =~= w.pending);
        assert forall|x: u64| #[trigger] pooled@.contains(x) <==> exists|n: Seq<char>| #[trigger]
            sv.pools.contains_key(n) && sv.pools[n].contains(x) by {
            if pooled@.contains(x) {
                let n = choose|n: Seq<char>| #[trigger]
                    pools.contains_key(n) && pools[n].contains(x);
                assert(sv.pools.contains_key(n));
            }
            if exists|n: Seq<char>| #[trigger]
                sv.pools.contains_key(n) && sv.pools[n].contains(x) {
                let n = choose|n: Seq<char>| #[trigger]
                    sv.pools.contains_key(n) && sv.pools[n].contains(x);
                assert(pools.contains_key(n));
            }
        }
        assert forall|x: u64| #[trigger] udp@.contains(x) <==> exists|n: Seq<char>| #[trigger]
            v.udp.contains_key(n) && is_udp_of(sv, n) && v.udp[n].id == x by {
            if udp@.contains(x) {
                let n = choose|n: Seq<char>| #[trigger]
                    v.udp.contains_key(n) && udp_names.deep_view().contains(n) && v.udp[n].id == x;
                assert(is_udp_of(sv, n));
            }
            if exists|n: Seq<char>| #[trigger]
                v.udp.contains_key(n) && is_udp_of(sv, n) && v.udp[n].id == x {
                let n = choose|n: Seq<char>| #[trigger]
                    v.udp.contains_key(n) && is_udp_of(sv, n) && v.udp[n].id == x;
                assert(udp_names.deep_view().contains(n));
            }
        }
    }
    r
}

/// The state after a login of `run_id` was accepted: a fresh session is the
/// client's current one, and the earlier one, where there was one, has ended.
pub open spec fn opened(
    v: StateView,
    run_id: Seq<char>,
    session_id: Seq<char>,
    peer_ip: PeerIp,
    work_conn_token: Seq<char>,
) -> StateView {
    let added = v.with_session(
        SessionView::fresh(run_id, session_id, peer_ip, work_conn_token),
    );
    let base = if v.sessions.contains_key(run_id) {
        cleaned(added, v.sessions[run_id])
    } else {
        added
    };
    StateView { sessions: base.sessions.insert(run_id, v.next_key()), ..base }
}

/// A session that was opened.
pub struct Opened {
    /// Its key.
    pub key: u64,
    /// The session of the same client that it took the place of, and what that one
    /// leaves to be closed.
    pub replaced: Option<(u64, Cleaned)>,
    /// The answer to the login.
    pub resp: LoginResp,
}

/// The answer to a login that was accepted.
pub open spec fn acceptance(
    session_id: Seq<char>,
    work_conn_tls: bool,
    work_conn_token: Seq<char>,
) -> LoginRespView {
    LoginRespView {
        ok: true,
        error: None,
        session_id: Some(session_id),
        work_conn_tls: Some(work_conn_tls),
        work_conn_token: Some(work_conn_token),
    }
}

/// What [`Opened`] says of a login of `run_id` in the state `v`.
pub open spec fn opened_as(
    o: Opened,
    v: StateView,
    run_id: Seq<char>,
    resp: LoginRespView,
) -> bool {
    &&& o.key == v.next_key()
    &&& o.resp.deep_view() == resp
    &&& match o.replaced {
        Some(p) => v.sessions.contains_key(run_id) && p.0 == v.sessions[run_id] && leaves(
            p.1,
            v,
            p.0,
        ),
        None => !v.sessions.contains_key(run_id),
    }
}

/// Opens a session for a login that was accepted.
pub fn open_session(
    state: &mut ServerState,
    login: &Login,
    config: &ServerConfig,
    peer_ip: PeerIp,
    session_id: String,
    work_conn_token: String,
) -> (r: Opened)
    requires
        old(state)@.wf(),
    ensures
        final(state)@ == opened(
            old(state)@,
            login.run_id@,
            session_id@,
            peer_ip,
            work_conn_token@,
        ),
        final(state)@.wf(),
        opened_as(
            r,
            old(state)@,
            login.run_id@,
            acceptance(session_id@, config.server.work_conn_tls, work_conn_token@),
        ),
{
    let ghost v = state@;
    let session = Session::new(
        login.run_id.clone(),
        session_id.clone(),
        peer_ip,
        work_conn_token.clone(),
    );
    let key: u64 = state.add_session(session);
    let ghost added = state@;
    let earlier: Option<u64> = match state.sessions.get(&login.run_id) {
        Some(k) => Some(*k),
        None => None,
    };
    let replaced: Option<(u64, Cleaned)> = match earlier {
        Some(k) => {
            let c = cleanup(state, k);
            assert(leaves(c, added, k));
            assert(added.live[k] == v.live[k]);
            Some((k, c))
        },
        None => None,
    };
    state.sessions.insert(login.run_id.clone(), key);
    Opened {
        key,
        replaced,
        resp: LoginResp {
            ok: true,
            error: None,
            session_id: Some(session_id),
            work_conn_tls: Some(config.server.work_conn_tls),
            work_conn_token: Some(work_conn_token),
        },
    }
}

/// How a control connection begins.
pub enum LoginStep {
    /// The first message was no login.
    NotLogin(&'static str),
    /// The login was refused: send the answer and close.
    Refused(LoginResp),
    /// A session was opened: send the answer and go on.
    Opened(Opened),
}

/// What the first message of a control connection brings about: the state `v` turns
/// into `w`, and the connection begins as `r` says.
pub open spec fn login_treated(
    first: Message,
    v: StateView,
    config: &ServerConfig,
    peer_ip: PeerIp,
    r: LoginStep,
    w: StateView,
) -> bool {
    match first {
        Message::Login(login) => {
            let check = login_check(
                login,
                config.server.token@,
                v.limits,
                is_uuid_text(login.run_id@),
            );
            if check == LoginCheck::Accepted {
                r matches LoginStep::Opened(o) && exists|sid: Seq<char>, tok: Seq<char>|
                    #![trigger is_random_uuid(sid), is_random_uuid(tok)]
                    is_random_uuid(sid) && is_random_uuid(tok) && w == opened(
                        v,
                        login.run_id@,
                        sid,
                        peer_ip,
                        tok,
                    ) && opened_as(
                        o,
                        v,
                        login.run_id@,
                        acceptance(sid, config.server.work_conn_tls, tok),
                    )
            } else {
                r matches LoginStep::Refused(resp) && resp.deep_view() == refusal(check) && w == v
            }
        },
        _ => r matches LoginStep::NotLogin(e) && e@ == "first frame must be Login"@ && w == v,
    }
}

/// Treats the first message of a control connection. The identity and the work
/// connection token of a new session are random.
pub fn handle_control_login(
    first: Message,
    state: &mut ServerState,
    config: &ServerConfig,
    peer_ip: PeerIp,
) -> (r: LoginStep)
    requires
        old(state)@.wf(),
    ensures
        final(state)@.wf(),
        login_treated(first, old(state)@, config, peer_ip, r, final(state)@),
{
    let login = match expect_login(first) {
        Ok(l) => l,
        Err(e) => {
            return LoginStep::NotLogin(e);
        },
    };
    let limits: Limits = state.limits;
    let check = check_login(&login, config, &limits);
    if let Some(resp) = refuse_login(check) {
        return LoginStep::Refused(resp);
    }
    let session_id = new_uuid();
    let work_conn_token = new_uuid();
    assert(is_random_uuid(session_id@) && is_random_uuid(work_conn_token@));
    LoginStep::Opened(open_session(state, &login, config, peer_ip, session_id, work_conn_token))
}

/// What a login leaves on record of the address that it came from: one that is
/// refused without a reason counts, and a session that was opened wipes the record
/// out.
pub open spec fn login_noted(v: StateView, step: LoginStep, ip: PeerIp, now: u128) -> StateView {
    match step {
        LoginStep::Opened(_) => StateView { login_failures: v.login_failures.remove(ip), ..v },
        LoginStep::Refused(resp) => if resp.error is None {
            v.login_failed(ip, now)
        } else {
            v
        },
        LoginStep::NotLogin(_) => v,
    }
}

/// What the first message of a control connection from `ip` brings about where logins
/// are limited: the state `v` turns into `w`, and the connection begins as `r` says, or
/// not at all.
pub open spec fn login_limited(
    first: Message,
    v: StateView,
    config: &ServerConfig,
    ip: PeerIp,
    now: u128,
    r: Option<LoginStep>,
    w: StateView,
) -> bool {
    match r {
        None => !v.may_log_in(ip, now) && w == v.asked_log_in(ip, now),
        Some(step) => v.may_log_in(ip, now) && exists|x: StateView|
            #[trigger] login_treated(first, v.asked_log_in(ip, now), config, ip, step, x) && w
                == login_noted(x, step, ip, now),
    }
}

/// Treats the first message of a control connection from `ip`, unless too many
/// logins of that address have failed of late: the connection is closed without an
/// answer where they have.
pub fn limited_login(
    first: Message,
    state: &mut ServerState,
    config: &ServerConfig,
    ip: PeerIp,
    now: u128,
) -> (r: Option<LoginStep>)
    requires
        old(state)@.wf(),
    ensures
        final(state)@.wf(),
        login_limited(first, old(state)@, config, ip, now, r, final(state)@),
        match r {
            None => !old(state)@.may_log_in(ip, now) && final(state)@ == old(
                state,
            )@.asked_log_in(ip, now),
            Some(step) => old(state)@.may_log_in(ip, now) && exists|w: StateView|
                #[trigger] login_treated(
                    first,
                    old(state)@.asked_log_in(ip, now),
                    config,
                    ip,
                    step,
                    w,
                ) && final(state)@ == login_noted(w, step, ip, now),
        },
{
    if !state.login_allowed_at(ip, now) {
        return None;
    }
    let step = handle_control_login(first, state, config, ip);
    let ghost w = state@;
    match &step {
        LoginStep::Opened(_) => state.clear_login_failures(ip),
        LoginStep::Refused(resp) => if resp.error.is_none() {
            state.record_login_failure_at(ip, now);
        },
        LoginStep::NotLogin(_) => {},
    }
    assert(state@ == login_noted(w, step, ip, now));
    Some(step)
}

/// The state after the control loop of the session under `key` has ended: the
/// session is no longer its client's current one, unless a later one is.
pub open spec fn finished(v: StateView, key: u64) -> StateView {
    let s = v.live[key];
    let current = v.sessions.contains_key(s.run_id) && v.sessions[s.run_id] == key;
    let c = cleaned(
        StateView {
            sessions: if current {
                v.sessions.remove(s.run_id)
            } else {
                v.sessions
            },
            ..v
        },
        key,
    );
    StateView { live: c.live.remove(key), ..c }
}

/// Ends a control loop: its session is given up.
pub fn finish_session(state: &mut ServerState, key: u64) -> (r: Cleaned)
    requires
        old(state)@.wf(),
        old(state)@.live.contains_key(key),
    ensures
        final(state)@ == finished(old(state)@, key),
        final(state)@.wf(),
        leaves(r, old(state)@, key),
{
    let ghost v = state@;
    let run_id: String = match state.live.get(&key) {
        Some(s) => s.run_id.clone(),
        None => String::new(),
    };
    let current: bool = match state.sessions.get(&run_id) {
        Some(k) => *k == key,
        None => false,
    };
    if current {
        state.sessions.remove(&run_id);
    }
    let ghost before = state@;
    let r = cleanup(state, key);
    assert(leaves(r, before, key));
    state.live.remove(&key);
    proof {
        let w = state@;
        assert forall|x: Seq<char>| #[trigger] w.sessions.contains_key(x) implies w.live.contains_key(
            w.sessions[x],
        ) && w.live[w.sessions[x]].run_id == x by {
            assert(v.sessions.contains_key(x));
        }
        assert(!w.live.contains_key(key));
    }
    r
}

/// What happened on a control connection.
pub enum ControlEvent {
    /// A message came.
    Received(Message),
    /// A frame came that holds no message.
    Undecodable,
    /// The stream is broken.
    FrameError,
    /// The client closed the stream.
    Eof,
    /// The client did not answer a sign of life.
    HeartbeatTimeout,
    /// The session was replaced.
    Stopped,
    /// The server shuts down.
    Shutdown,
}

/// What is to be done about it.
pub enum ControlAction {
    /// Register the proxy and answer with the outcome.
    Register(NewProxy),
    /// Answer that the proxy was refused.
    RefuseProxy(NewProxyResp),
    /// Answer a sign of life, with its clock.
    Pong(u64),
    /// The client answered a sign of life that was sent at this time.
    Alive(u64),
    /// Nothing.
    Ignore,
    /// Leave the loop and give the session up.
    Leave,
    /// Leave with an error, and give the session up.
    Fail,
}

/// Whether the control loop ends there.
pub open spec fn ends_loop(action: ControlAction) -> bool {
    action is Leave || action is Fail
}

/// What comes of the session under `key` where the control loop is to do `action`: the
/// state `v` turns into `w`, and `r` is to be closed.
pub open spec fn control_ended(
    v: StateView,
    key: u64,
    action: ControlAction,
    r: Option<Cleaned>,
    w: StateView,
) -> bool {
    if ends_loop(action) && v.live.contains_key(key) {
        &&& w == finished(v, key)
        &&& r matches Some(c)
        &&& leaves(c, v, key)
    } else {
        w == v && r is None
    }
}

/// Gives the session under `key` up where the control loop ends, with an error or
/// without; what it leaves is to be closed.
pub fn end_control(state: &mut ServerState, key: u64, action: &ControlAction) -> (r: Option<Cleaned>)
    requires
        old(state)@.wf(),
    ensures
        final(state)@.wf(),
        control_ended(old(state)@, key, *action, r, final(state)@),
        if ends_loop(*action) && old(state)@.live.contains_key(key) {
            &&& final(state)@ == finished(old(state)@, key)
            &&& r matches Some(c)
            &&& leaves(c, old(state)@, key)
        } else {
            final(state)@ == old(state)@ && r is None
        },
{
    let ends: bool = match action {
        ControlAction::Leave | ControlAction::Fail => true,
        _ => false,
    };
    if ends && state.live.contains_key(&key) {
        Some(finish_session(state, key))
    } else {
        None
    }
}

/// What is to be done on a control connection.
pub open spec fn control_action(r: ControlAction, event: ControlEvent, limits: Limits) -> bool {
    match event {
        ControlEvent::Received(Message::NewProxy(np)) => if proxy_fields_ok(
            np.deep_view(),
            limits,
        ) {
            r == ControlAction::Register(np)
        } else {
            r matches ControlAction::RefuseProxy(resp) && resp.deep_view() == (NewProxyRespView {
                proxy_name: np.proxy_name@,
                ok: false,
                error: Some("invalid field"@),
            })
        },
        ControlEvent::Received(Message::Heartbeat(ts)) => r == ControlAction::Pong(ts),
        ControlEvent::Received(Message::HeartbeatResp(ts)) => r == ControlAction::Alive(ts),
        ControlEvent::Received(Message::Close(_)) => r is Leave,
        ControlEvent::Received(_) => r is Ignore,
        ControlEvent::Undecodable => r is Fail,
        ControlEvent::FrameError | ControlEvent::Eof | ControlEvent::HeartbeatTimeout
        | ControlEvent::Stopped | ControlEvent::Shutdown => r is Leave,
    }
}

/// What is to be done on a control connection.
pub fn control_step(event: ControlEvent, limits: &Limits) -> (r: ControlAction)
    ensures
        control_action(r, event, *limits),
        match event {
            ControlEvent::Received(Message::NewProxy(np)) => if proxy_fields_ok(
                np.deep_view(),
                *limits,
            ) {
                r == ControlAction::Register(np)
            } else {
                r matches ControlAction::RefuseProxy(resp) && resp.deep_view()
                    == (NewProxyRespView {
                    proxy_name: np.proxy_name@,
                    ok: false,
                    error: Some("invalid field"@),
                })
            },
            ControlEvent::Received(Message::Heartbeat(ts)) => r == ControlAction::Pong(ts),
            ControlEvent::Received(Message::HeartbeatResp(ts)) => r == ControlAction::Alive(ts),
            ControlEvent::Received(Message::Close(_)) => r is Leave,
            ControlEvent::Received(_) => r is Ignore,
            ControlEvent::Undecodable => r is Fail,
            ControlEvent::FrameError | ControlEvent::Eof | ControlEvent::HeartbeatTimeout
            | ControlEvent::Stopped | ControlEvent::Shutdown => r is Leave,
        },
{
    match event {
        ControlEvent::Received(msg) => match msg {
            Message::NewProxy(np) => match new_proxy_invalid(&np, limits) {
                Some(e) => ControlAction::RefuseProxy(
                    NewProxyResp {
                        proxy_name: np.proxy_name,
                        ok: false,
                        error: Some(e.to_owned()),
                    },
                ),
                None => ControlAction::Register(np),
            },
            Message::Heartbeat(ts) => ControlAction::Pong(ts),
            Message::HeartbeatResp(ts) => ControlAction::Alive(ts),
            Message::Close(_) => ControlAction::Leave,
            _ => ControlAction::Ignore,
        },
        ControlEvent::Undecodable => ControlAction::Fail,
        ControlEvent::FrameError | ControlEvent::Eof | ControlEvent::HeartbeatTimeout
        | ControlEvent::Stopped | ControlEvent::Shutdown => ControlAction::Leave,
    }
}

/// Notes how long the answer to a sign of life took that was sent at `ts`, in
/// milliseconds; nothing where the clock has gone back.
pub fn note_answer(metrics: &mut Metrics, ts: u64, now_ms: u64)
    ensures
        *final(metrics) == (Metrics { rtt_ms: less(now_ms, ts), ..*old(metrics) }),
{
    metrics.set_rtt_ms(take_away(now_ms, ts));
}

/// The answer to a registration.
pub open spec fn registration_answer(
    proxy_name: Seq<char>,
    outcome: Result<(), ProxyError>,
) -> NewProxyRespView {
    NewProxyRespView {
        proxy_name,
        ok: outcome is Ok,
        error: match outcome {
            Ok(_) => None,
            Err(e) => Some(e.code_text()),
        },
    }
}

/// The answer to a registration: the code of the error, where there was one.
pub fn registration_reply(proxy_name: String, outcome: Result<(), ProxyError>) -> (r: NewProxyResp)
    ensures
        r.deep_view() == registration_answer(proxy_name@, outcome),
        r.deep_view() == (NewProxyRespView {
            proxy_name: proxy_name@,
            ok: outcome is Ok,
            error: match outcome {
                Ok(_) => None,
                Err(e) => Some(e.code_text()),
            },
        }),
{
    match outcome {
        Ok(_) => NewProxyResp { proxy_name, ok: true, error: None },
        Err(e) => NewProxyResp { proxy_name, ok: false, error: Some(e.code().to_owned()) },
    }
}

/// Why the writer of a control connection stops.
#[derive(Clone, Copy, Debug, PartialEq, Eq, Structural)]
pub enum WriterEnd {
    /// No one sends any more.
    Drained,
    /// The server shuts down.
    Shutdown,
    /// The session was replaced.
    Replaced,
}

/// The reason that the client is given, where it is given one.
pub open spec fn reason_to_close(end: WriterEnd, shutting_down: bool) -> Option<Seq<char>> {
    match end {
        WriterEnd::Replaced => Some("session replaced"@),
        WriterEnd::Shutdown => Some("server shutdown"@),
        WriterEnd::Drained => if shutting_down {
            Some("server shutdown"@)
        } else {
            None
        },
    }
}

/// Executable form of [`reason_to_close`].
pub fn close_reason(end: WriterEnd, shutting_down: bool) -> (r: Option<&'static str>)
    ensures
        match r {
            Some(s) => reason_to_close(end, shutting_down) == Some(s@),
            None => reason_to_close(end, shutting_down) is None,
        },
        match r {
            Some(s) => s@ == (if end == WriterEnd::Replaced {
                "session replaced"@
            } else {
                "server shutdown"@
            }) && (end == WriterEnd::Drained ==> shutting_down),
            None => end == WriterEnd::Drained && !shutting_down,
        },
{
    match end {
        WriterEnd::Drained => if shutting_down {
            Some("server shutdown")
        } else {
            None
        },
        WriterEnd::Shutdown => Some("server shutdown"),
        WriterEnd::Replaced => Some("session replaced"),
    }
}

/// Watches whether the client answers signs of life.
#[derive(Clone, Copy, Debug, PartialEq, Eq, Structural)]
pub struct HeartbeatWatch {
    /// A sign of life was sent and not yet answered.
    pub waiting: bool,
    /// An answer came while none was waited for; it counts for the next one.
    pub banked: bool,
}

/// What happened to the watch.
#[derive(Clone, Copy, Debug, PartialEq, Eq, Structural)]
pub enum HeartbeatEvent {
    /// It is time for a sign of life, which was sent.
    Sent,
    /// It could not be sent.
    SendFailed,
    /// The client answered one.
    Answered,
    /// The answer is overdue.
    Overdue,
}

/// What the watch asks for.
#[derive(Clone, Copy, Debug, PartialEq, Eq, Structural)]
pub enum HeartbeatAction {
    /// Wait for the answer, with a deadline.
    AwaitAnswer,
    /// Wait for the next time.
    AwaitTick,
    /// Go on as before.
    Continue,
    /// The client is gone: disconnect.
    Disconnect,
    /// Stop watching.
    Stop,
}

impl HeartbeatWatch {
    /// A watch that waits for its first time.
    pub fn new() -> (r: HeartbeatWatch)
        ensures
            r == (HeartbeatWatch { waiting: false, banked: false }),
    {
        HeartbeatWatch { waiting: false, banked: false }
    }

    /// The watch after an event, and what it asks for.
    pub open spec fn after(self, event: HeartbeatEvent) -> (HeartbeatWatch, HeartbeatAction) {
        match event {
            HeartbeatEvent::Sent => if self.banked {
                (HeartbeatWatch { waiting: false, banked: false }, HeartbeatAction::AwaitTick)
            } else {
                (HeartbeatWatch { waiting: true, banked: false }, HeartbeatAction::AwaitAnswer)
            },
            HeartbeatEvent::SendFailed => (self, HeartbeatAction::Stop),
            HeartbeatEvent::Answered => if self.waiting {
                (HeartbeatWatch { waiting: false, ..self }, HeartbeatAction::AwaitTick)
            } else {
                (HeartbeatWatch { banked: true, ..self }, HeartbeatAction::Continue)
            },
            HeartbeatEvent::Overdue => if self.waiting {
                (self, HeartbeatAction::Disconnect)
            } else {
                (self, HeartbeatAction::Continue)
            },
        }
    }

    /// One step of the watch.
    pub fn step(&mut self, event: HeartbeatEvent) -> (r: HeartbeatAction)
        ensures
            (*final(self), r) == old(self).after(event),
            match event {
                HeartbeatEvent::Sent => if old(self).banked {
                    r == HeartbeatAction::AwaitTick && *final(self) == (HeartbeatWatch {
                        waiting: false,
                        banked: false,
                    })
                } else {
                    r == HeartbeatAction::AwaitAnswer && *final(self) == (HeartbeatWatch {
                        waiting: true,
                        banked: false,
                    })
                },
                HeartbeatEvent::SendFailed => r == HeartbeatAction::Stop && *final(self) == *old(
                    self,
                ),
                HeartbeatEvent::Answered => if old(self).waiting {
                    r == HeartbeatAction::AwaitTick && *final(self) == (HeartbeatWatch {
                        waiting: false,
                        banked: old(self).banked,
                    })
                } else {
                    r == HeartbeatAction::Continue && *final(self) == (HeartbeatWatch {
                        waiting: false,
                        banked: true,
                    })
                },
                HeartbeatEvent::Overdue => *final(self) == *old(self) && r == (if old(
                    self,
                ).waiting {
                    HeartbeatAction::Disconnect
                } else {
                    HeartbeatAction::Continue
                }),
            },
    {
        match event {
            HeartbeatEvent::Sent => if self.banked {
                self.banked = false;
                self.waiting = false;
                HeartbeatAction::AwaitTick
            } else {
                self.waiting = true;
                HeartbeatAction::AwaitAnswer
            },
            HeartbeatEvent::SendFailed => HeartbeatAction::Stop,
            HeartbeatEvent::Answered => if self.waiting {
                self.waiting = false;
                HeartbeatAction::AwaitTick
            } else {
                self.banked = true;
                HeartbeatAction::Continue
            },
            HeartbeatEvent::Overdue => if self.waiting {
                HeartbeatAction::Disconnect
            } else {
                HeartbeatAction::Continue
            },
        }
    }
}

} // verus!
