//! Proxies that are found by domain.

use vstd::prelude::*;
use vstd::utf8::{decode_utf8, is_ascii_chars, valid_utf8};

use super::state::{ServerState, StateView};
use crate::http::{
    has_header_name, head_view, header_text, is_named, parse_head, parsed_head, plain, respond,
    value_text, Head, HeadView, Response,
};
use crate::msg::ProxyType;
use crate::text::{
    ascii_lowered, find, first_index, fold_case, folded, lemma_first_index, to_chars,
};

verus! {

/// Longest request head that is waited for, in bytes.
pub const MAX_HEAD_LEN: usize = 65536;

/// A `Host` without its port; an IPv6 literal in brackets stays as it is.
pub open spec fn without_port(host: Seq<char>) -> Seq<char> {
    if host.len() > 0 && host[0] == '[' {
        host
    } else {
        match first_index(host, ':') {
            Some(i) => host.take(i),
            None => host,
        }
    }
}

/// Executable form of [`without_port`].
pub fn strip_port(host: &str) -> (r: &str)
    ensures
        r@ == without_port(host@),
{
    let chars = to_chars(host);
    if chars.len() > 0 && chars[0] == '[' {
        return host;
    }
    match find(&chars, ':') {
        Some(i) => {
            let r = host.substring_char(0, i);
            assert(r@ =~= host@.take(i as int));
            r
        },
        None => host,
    }
}

/// The first header of that name.
pub open spec fn first_header(
    headers: Seq<(Seq<char>, Seq<u8>)>,
    lower: Seq<char>,
) -> Option<Seq<u8>>
    decreases headers.len(),
{
    if headers.len() == 0 {
        None
    } else if is_named(headers[0].0, lower) {
        Some(headers[0].1)
    } else {
        first_header(headers.skip(1), lower)
    }
}

/// The host that a request names: its first `Host` header without the port, and
/// nothing where there is none or it is not valid UTF-8.
pub open spec fn host_of(head: HeadView) -> Seq<char> {
    match first_header(head.2, "host"@) {
        Some(value) => match value_text(value) {
            Some(text) => without_port(text),
            None => Seq::empty(),
        },
        None => Seq::empty(),
    }
}

/// Executable form of [`host_of`].
pub fn request_host(head: &Head) -> (r: String)
    ensures
        r@ == host_of(head.deep_view()),
{
    let headers = &head.2;
    let ghost all = head.deep_view().2;
    assert(all == headers.deep_view());
    let mut i: usize = 0;
    assert(all.skip(0) =~= all);
    while i < headers.len()
        invariant
            i <= headers@.len(),
            all == headers.deep_view(),
            all == head.deep_view().2,
            first_header(all, "host"@) == first_header(all.skip(i as int), "host"@),
        decreases headers@.len() - i,
    {
        let ghost rest = all.skip(i as int);
        assert(rest[0] == headers@[i as int].deep_view());
        assert(headers@[i as int].1.deep_view() =~= headers@[i as int].1@);
        if has_header_name(headers[i].0.as_str(), "host") {
            return match header_text(&headers[i].1) {
                Some(text) => strip_port(text.as_str()).to_owned(),
                None => String::new(),
            };
        }
        assert(rest.skip(1) =~= all.skip(i + 1));
        i += 1;
    }
    String::new()
}

/// What a request head that has been read so far leads to.
pub enum HeadStep {
    /// It is complete and names this host.
    Host(String),
    /// More has to be read.
    More,
    /// It is malformed or too long: close.
    Reject,
}

/// What a head leads to that was parsed as `parsed`, after `len` bytes.
pub open spec fn head_step(
    step: HeadStep,
    parsed: Result<Option<HeadView>, ()>,
    len: nat,
) -> bool {
    match parsed {
        Ok(Some(head)) => step matches HeadStep::Host(h) && h@ == host_of(head),
        Ok(None) => if len > MAX_HEAD_LEN {
            step is Reject
        } else {
            step is More
        },
        Err(_) => step is Reject,
    }
}

/// Judges a head that was parsed as `parsed`, after `len` bytes.
pub fn judge_head(parsed: &Result<Option<Head>, ()>, len: usize) -> (r: HeadStep)
    ensures
        head_step(r, head_view(*parsed), len as nat),
{
    match parsed {
        Ok(Some(head)) => HeadStep::Host(request_host(head)),
        Ok(None) => if len > MAX_HEAD_LEN {
            HeadStep::Reject
        } else {
            HeadStep::More
        },
        Err(_) => HeadStep::Reject,
    }
}

/// Judges the bytes of a request head that have been read so far.
pub fn read_request_head(buf: &Vec<u8>) -> (r: HeadStep)
    ensures
        head_step(r, parsed_head(buf@), buf@.len()),
{
    let parsed = parse_head(buf.as_slice());
    judge_head(&parsed, buf.len())
}

/// The session and the proxy that have the domain.
pub fn find_proxy_by_domain(state: &ServerState, host: &str) -> (r: Option<(u64, String)>)
    ensures
        match r {
            Some(p) => state@.domain_session(host@) == Some((p.0, p.1@)),
            None => state@.domain_session(host@) is None,
        },
{
    state.session_for_domain(host)
}

/// The host that an HTTPS request is routed by.
pub open spec fn https_host_of(
    v: StateView,
    sni: Option<Seq<char>>,
    host: Seq<char>,
) -> Seq<char> {
    match sni {
        Some(s) => if v.domain_session(s) is Some {
            s
        } else {
            host
        },
        None => host,
    }
}

/// The host that an HTTPS request is routed by: the name of the TLS handshake
/// where it leads to a proxy, or else the request's own.
pub fn https_host(state: &ServerState, sni: Option<String>, host: String) -> (r: String)
    ensures
        r@ == https_host_of(state@, sni.deep_view(), host@),
        r@ == (match sni {
            Some(s) => if state@.domain_session(s@) is Some {
                s@
            } else {
                host@
            },
            None => host@,
        }),
{
    match sni {
        Some(s) => if find_proxy_by_domain(state, s.as_str()).is_some() {
            s
        } else {
            host
        },
        None => host,
    }
}

/// The session and the proxy that serve a host, in lower case, by this type.
pub open spec fn route_of(v: StateView, host: Seq<char>, kind: ProxyType) -> Option<
    (u64, Seq<char>),
> {
    match v.domain_session(host) {
        Some(p) => if v.live[p.0].proxies.contains_key(p.1) && v.live[p.0].proxies[p.1].kind
            == kind {
            Some(p)
        } else {
            None
        },
        None => None,
    }
}

/// Finds the session and the proxy that serve a host that is in lower case;
/// `None` exactly where the answer is [`not_found`].
pub fn route_lowered(state: &ServerState, host: &str, expected: ProxyType) -> (r: Option<
    (u64, String),
>)
    requires
        state@.wf(),
    ensures
        match r {
            Some(p) => route_of(state@, host@, expected) == Some((p.0, p.1@)),
            None => route_of(state@, host@, expected) is None,
        },
{
    match find_proxy_by_domain(state, host) {
        Some(p) => {
            assert(state@.live.contains_key(p.0));
            let matching: bool = match state.live.get(&p.0) {
                Some(s) => match s.proxies.get(&p.1) {
                    Some(e) => e.kind == expected,
                    None => false,
                },
                None => false,
            };
            if matching {
                Some(p)
            } else {
                None
            }
        },
        None => None,
    }
}

/// The session and the proxy that serve a host, in whatever case, by this type.
pub open spec fn served_by(v: StateView, host: Seq<char>, kind: ProxyType) -> Option<
    (u64, Seq<char>),
> {
    route_of(v, folded(host), kind)
}

/// Finds the session and the proxy that serve a host, in whatever case.
pub fn route(state: &ServerState, host: &str, expected: ProxyType) -> (r: Option<(u64, String)>)
    requires
        state@.wf(),
    ensures
        match r {
            Some(p) => served_by(state@, host@, expected) == Some((p.0, p.1@)),
            None => served_by(state@, host@, expected) is None,
        },
        match r {
            Some(p) => route_of(state@, folded(host@), expected) == Some((p.0, p.1@)),
            None => route_of(state@, folded(host@), expected) is None,
        },
{
    route_lowered(state, fold_case(host).as_str(), expected)
}

/// The answer where no proxy serves a host.
pub fn not_found() -> (r: Response)
    ensures
        r@ == plain(
            404,
            "text/plain; charset=utf-8"@,
            "404 Not Found: no rfrp proxy matched this vhost\n"@,
        ),
{
    respond(
        404,
        "text/plain; charset=utf-8",
        "404 Not Found: no rfrp proxy matched this vhost\n".to_owned(),
    )
}

/// A host without port has none to take off: what is left of one has no colon,
/// unless it is an IPv6 literal in brackets.
pub proof fn law_port_gone(host: Seq<char>)
    ensures
        without_port(without_port(host)) == without_port(host),
        host.len() > 0 && host[0] == '[' ==> without_port(host) == host,
        !(host.len() > 0 && host[0] == '[') ==> !without_port(host).contains(':')
            && without_port(host).is_prefix_of(host),
{
    lemma_first_index(host, ':');
    let w = without_port(host);
    lemma_first_index(w, ':');
    if !(host.len() > 0 && host[0] == '[') {
        match first_index(host, ':') {
            Some(i) => {
                assert forall|j: int| 0 <= j < w.len() implies w[j] != ':' by {
                    assert(w[j] == host[j]);
                }
            },
            None => {
                assert(w =~= host);
            },
        }
    }
}

/// The port behind a host name is left out, and a name without one is left as it is.
pub proof fn law_host_of_host_and_port(name: Seq<char>, port: Seq<char>)
    requires
        !name.contains(':'),
        name.len() > 0 ==> name[0] != '[',
    ensures
        without_port(name + seq![':'] + port) == name,
        without_port(name) == name,
{
    let host = name + seq![':'] + port;
    lemma_first_index(host, ':');
    lemma_first_index(name, ':');
    assert(host[name.len() as int] == ':');
    if name.len() == 0 {
        assert(host[0] == ':');
    } else {
        assert(host[0] == name[0]);
    }
    match first_index(host, ':') {
        Some(i) => {
            if i < name.len() {
                assert(name[i] == ':');
            }
            assert(host.take(i) =~= name);
        },
        None => {},
    }
}

/// The first header of a name counts, whatever stands before it under other names.
pub proof fn law_first_header_counts(
    headers: Seq<(Seq<char>, Seq<u8>)>,
    lower: Seq<char>,
    k: int,
)
    requires
        0 <= k <= headers.len(),
        forall|i: int| 0 <= i < k ==> ascii_lowered((#[trigger] headers[i]).0) != lower,
        k < headers.len() ==> ascii_lowered(headers[k].0) == lower,
    ensures
        first_header(headers, lower) == (if k < headers.len() {
            Some(headers[k].1)
        } else {
            None
        }),
    decreases k,
{
    if k > 0 {
        let rest = headers.skip(1);
        assert forall|i: int| 0 <= i < k - 1 implies ascii_lowered((#[trigger] rest[i]).0)
            != lower by {
            assert(rest[i] == headers[i + 1]);
        }
        if k < headers.len() {
            assert(rest[k - 1] == headers[k]);
        }
        assert(ascii_lowered(headers[0].0) != lower);
        law_first_header_counts(rest, lower, k - 1);
    }
}

/// What comes of a request head: more is read until it is complete or too long; a
/// malformed one is rejected; a complete one names the host of its first `Host` header.
pub proof fn law_head_is_judged(
    step: HeadStep,
    parsed: Result<Option<HeadView>, ()>,
    len: nat,
    k: int,
)
    requires
        head_step(step, parsed, len),
        parsed matches Ok(Some(h)) ==> 0 <= k < h.2.len() && ascii_lowered(h.2[k].0) == "host"@
            && (forall|i: int| 0 <= i < k ==> ascii_lowered((#[trigger] h.2[i]).0) != "host"@),
    ensures
        parsed is Err ==> step is Reject,
        parsed == Ok::<Option<HeadView>, ()>(None) ==> (step is More <==> len <= 65536) && (
        step is Reject <==> len > 65536),
        parsed matches Ok(Some(h)) ==> (step matches HeadStep::Host(host) && (valid_utf8(h.2[k].1)
            ==> host@ == without_port(decode_utf8(h.2[k].1)))),
{
    if let Ok(Some(h)) = parsed {
        law_first_header_counts(h.2, "host"@, k);
    }
}

/// An HTTPS request is routed by the name of its handshake where that is known, and else
/// by its own host.
pub proof fn law_https_is_routed(v: StateView, sni: Seq<char>, host: Seq<char>)
    ensures
        v.domain_session(sni) is Some ==> https_host_of(v, Some(sni), host) == sni,
        v.domain_session(sni) is None ==> https_host_of(v, Some(sni), host) == host,
        https_host_of(v, None, host) == host,
{
}

/// A request is routed exactly where its domain is known, its owner's session is the
/// client's current one, and the proxy is there and of the type that is asked for.
pub proof fn law_route_leads_to_owner(v: StateView, host: Seq<char>, kind: ProxyType)
    ensures
        match route_of(v, host, kind) {
            Some(p) => v.domain_index.contains_key(host) && v.domain_index[host].1 == p.1
                && v.sessions.contains_key(v.domain_index[host].0)
                && v.sessions[v.domain_index[host].0] == p.0 && v.live[p.0].proxies.contains_key(
                p.1,
            ) && v.live[p.0].proxies[p.1].kind == kind,
            None => !v.domain_index.contains_key(host) || !v.sessions.contains_key(
                v.domain_index[host].0,
            ) || {
                let k = v.sessions[v.domain_index[host].0];
                let n = v.domain_index[host].1;
                !v.live[k].proxies.contains_key(n) || v.live[k].proxies[n].kind != kind
            },
        },
{
}

/// Hosts that differ only in the case of ASCII letters are served alike, and one that is
/// in lower case is served by the proxy that has it as a domain.
pub proof fn law_case_of_host_is_ignored(
    v: StateView,
    a: Seq<char>,
    b: Seq<char>,
    kind: ProxyType,
)
    requires
        is_ascii_chars(a),
        is_ascii_chars(b),
        ascii_lowered(a) == ascii_lowered(b),
    ensures
        served_by(v, a, kind) == served_by(v, b, kind),
        ascii_lowered(a) == a ==> served_by(v, a, kind) == route_of(v, a, kind),
{
}

} // verus!
