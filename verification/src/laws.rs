//! What holds between the two sides.

use vstd::prelude::*;
use vstd::utf8::*;

use crate::ident::{is_random_uuid, is_uuid_text};
use crate::limits::{Limits, PROTOCOL_VERSION};
use crate::msg::{law_codes_distinct, Login, ProxyError};
use crate::rfrpc::client::{is_fatal, is_fatal_text, names_one_of, names_retryable};
use crate::rfrps::control::{acceptance, login_check, refusal, LoginCheck};
use crate::rfrps::session::SessionView;
use crate::rfrps::work::token_ok;
use crate::text::{ascii_lowered, folded, has_part, stands_at};

verus! {

/// A client whose identity is a random UUID and whose token is the server's is let
/// in, where both fit the server's bounds.
pub proof fn law_own_client_is_accepted(login: Login, token: Seq<char>, limits: Limits)
    requires
        login.version == PROTOCOL_VERSION,
        is_random_uuid(login.run_id@),
        login.token@ == token,
        limits.max_run_id_len >= 36,
        encode_utf8(token).len() <= limits.max_token_len,
    ensures
        login_check(login, token, limits, is_uuid_text(login.run_id@)) == LoginCheck::Accepted,
{
    crate::ident::law_random_uuid_accepted(login.run_id@);
}

/// No client is let in without the server's token.
pub proof fn law_wrong_token_is_refused(login: Login, token: Seq<char>, limits: Limits)
    requires
        login.token@ != token,
    ensures
        login_check(login, token, limits, is_uuid_text(login.run_id@)) != LoginCheck::Accepted,
{
}

/// The answer to a refused login does not tell a wrong token from a malformed field.
pub proof fn law_refusal_tells_nothing(check: LoginCheck)
    requires
        check != LoginCheck::VersionMismatch,
    ensures
        refusal(check) == refusal(LoginCheck::BadToken),
        refusal(check).error is None,
{
}

/// A client that the server refused does not try again.
pub proof fn law_refusal_is_fatal(check: LoginCheck)
    ensures
        is_fatal(refusal(check).error),
{
    let s = "version mismatch"@;
    reveal_strlit("version mismatch");
    assert(is_ascii_chars(s));
    assert(ascii_lowered(s) =~= s);
    assert(stands_at(s, s, 0)) by {
        assert(s.subrange(0, s.len() as int) =~= s);
    }
    assert(has_part(folded(s), s));
    assert(is_fatal_text(folded(s)));
}

/// The token in the answer to an accepted login is the one that work connections of
/// the session must present.
pub proof fn law_issued_token_opens_work(
    run_id: Seq<char>,
    session_id: Seq<char>,
    peer_ip: crate::addr::PeerIp,
    token: Seq<char>,
    tls: bool,
)
    ensures
        token_ok(
            SessionView::fresh(run_id, session_id, peer_ip, token),
            acceptance(session_id, tls, token).work_conn_token,
        ),
{
}

/// The client takes each registration error for what the server meant: it retries
/// the conflicts, and the curable ones among the others.
pub proof fn law_error_codes_agree(e: ProxyError, curable: Seq<ProxyError>)
    ensures
        names_retryable(Some(e.code_text())) == e.retryable(),
        names_one_of(Some(e.code_text()), curable) == curable.contains(e),
{
    assert forall|x: ProxyError| #[trigger] x.code_text() == e.code_text() implies x == e by {
        law_codes_distinct(x, e);
    }
    let error = Some(e.code_text());
    if e.retryable() {
        assert(error == Some(e.code_text()) && e.retryable());
    }
    if curable.contains(e) {
        assert(error == Some(e.code_text()) && curable.contains(e));
    }
}

} // verus!
