//! Credentials of the dashboard: the `Basic` header and the session cookie.

use base64::Engine;
use vstd::prelude::*;
use vstd::utf8::*;

use crate::auth::verify_token;
use crate::config::DashboardSection;
use crate::text::{
    copy_range, cut, first_index, from_chars, is_white_space, lemma_first_index, pieces, same,
    split, split_once, starts_with, to_chars, trim, trimmed, trimmed_end, trimmed_start, utf8_text,
};

verus! {

/// What base64 decoding makes of a text.
pub uninterp spec fn base64_decoded(s: Seq<char>) -> Option<Seq<u8>>;

/// What base64 encoding makes of some bytes.
pub uninterp spec fn base64_text(bytes: Seq<u8>) -> Seq<char>;

/// Whether `c` occurs in base64 text of the standard alphabet, padding included.
pub open spec fn is_base64_char(c: char) -> bool {
    ||| 'A' <= c && c <= 'Z'
    ||| 'a' <= c && c <= 'z'
    ||| '0' <= c && c <= '9'
    ||| c == '+'
    ||| c == '/'
    ||| c == '='
}

/// `base64::engine::general_purpose::STANDARD.decode`. Its result depends on the
/// text alone.
#[verifier::external_body]
fn base64_decode(s: &str) -> (r: Option<Vec<u8>>)
    ensures
        r.deep_view() == base64_decoded(s@),
{
    match base64::engine::general_purpose::STANDARD.decode(s) {
        Ok(bytes) => Some(bytes),
        Err(_) => None,
    }
}

/// `base64::engine::general_purpose::STANDARD.encode`. Its result depends on the
/// bytes alone, has only characters of the alphabet, and is decoded to the bytes
/// again. It panics where the text would not fit in memory.
#[verifier::external_body]
fn base64_encode(data: &[u8]) -> (r: String)
    requires
        data@.len() <= usize::MAX / 4,
    ensures
        r@ == base64_text(data@),
        base64_decoded(r@) == Some(data@),
        forall|i: int| 0 <= i < r@.len() ==> is_base64_char(#[trigger] r@[i]),
{
    base64::engine::general_purpose::STANDARD.encode(data)
}

/// User name and password in the decoded bytes of a credential: valid UTF-8, cut
/// at the first colon.
pub open spec fn credentials(decoded: Option<Seq<u8>>) -> Option<(Seq<char>, Seq<char>)> {
    match decoded {
        Some(bytes) => if valid_utf8(bytes) {
            cut(decode_utf8(bytes), ':')
        } else {
            None
        },
        None => None,
    }
}

/// Reads user name and password from the decoded bytes of a credential.
pub fn split_credentials(decoded: &Option<Vec<u8>>) -> (r: Option<(String, String)>)
    ensures
        match r {
            Some(p) => credentials(decoded.deep_view()) == Some((p.0@, p.1@)),
            None => credentials(decoded.deep_view()) is None,
        },
{
    match decoded {
        Some(bytes) => {
            assert(bytes.deep_view() =~= bytes@);
            match utf8_text(bytes.as_slice()) {
                Some(text) => match split_once(&to_chars(text.as_str()), ':') {
                    Some((user, pass)) => Some((from_chars(&user), from_chars(&pass))),
                    None => None,
                },
                None => None,
            }
        },
        None => None,
    }
}

/// Reads user name and password from a credential.
pub fn decode_basic(encoded: &str) -> (r: Option<(String, String)>)
    ensures
        match r {
            Some(p) => credentials(base64_decoded(encoded@)) == Some((p.0@, p.1@)),
            None => credentials(base64_decoded(encoded@)) is None,
        },
{
    let decoded = base64_decode(encoded);
    split_credentials(&decoded)
}

/// The value of the first pair of that name.
pub open spec fn first_value(pairs: Seq<Seq<char>>, name: Seq<char>) -> Option<Seq<char>>
    decreases pairs.len(),
{
    if pairs.len() == 0 {
        None
    } else {
        match cut(pairs[0], '=') {
            Some((k, v)) => if trimmed(k) == name {
                Some(trimmed(v))
            } else {
                first_value(pairs.skip(1), name)
            },
            None => first_value(pairs.skip(1), name),
        }
    }
}

/// The value of a cookie in a `Cookie` header.
pub open spec fn cookie_in(header: Seq<char>, name: Seq<char>) -> Option<Seq<char>> {
    first_value(pieces(header, ';'), name)
}

/// Executable form of [`cookie_in`].
pub fn cookie_value(cookie: &str, name: &str) -> (r: Option<String>)
    ensures
        r.deep_view() == cookie_in(cookie@, name@),
{
    let parts = split(&to_chars(cookie), ';');
    let ghost view = |v: Vec<char>| v@;
    let ghost pairs = parts@.map_values(view);
    let mut i: usize = 0;
    assert(pairs.skip(0) =~= pairs);
    while i < parts.len()
        invariant
            i <= parts@.len(),
            view == (|v: Vec<char>| v@),
            pairs == parts@.map_values(view),
            pairs == pieces(cookie@, ';'),
            first_value(pairs, name@) == first_value(pairs.skip(i as int), name@),
        decreases parts@.len() - i,
    {
        let ghost rest = pairs.skip(i as int);
        assert(rest[0] == parts@[i as int]@);
        assert(rest.skip(1) =~= pairs.skip(i + 1));
        if let Some((k, v)) = split_once(&parts[i], '=') {
            let key = from_chars(&trim(&k));
            if same(key.as_str(), name) {
                return Some(from_chars(&trim(&v)));
            }
        }
        i += 1;
    }
    None
}

/// Whether a pair is the configured user name and password.
pub open spec fn are_configured(pair: (Seq<char>, Seq<char>), cfg: DashboardSection) -> bool {
    cfg.user@ == pair.0 && cfg.password@ == pair.1
}

/// Executable form of [`are_configured`].
pub fn check_credentials(cfg: &DashboardSection, user: &str, pass: &str) -> (r: bool)
    ensures
        r == are_configured((user@, pass@), *cfg),
{
    verify_token(cfg.user.as_str(), user) && verify_token(cfg.password.as_str(), pass)
}

/// What a `Basic` authorization header carries.
pub open spec fn basic_payload(authorization: Option<Seq<char>>) -> Option<Seq<char>> {
    match authorization {
        Some(a) => if "Basic "@.is_prefix_of(a) {
            Some(trimmed(a.skip("Basic "@.len() as int)))
        } else {
            None
        },
        None => None,
    }
}

/// Executable form of [`basic_payload`].
pub fn basic_token(authorization: &Option<String>) -> (r: Option<String>)
    ensures
        r.deep_view() == basic_payload(authorization.deep_view()),
{
    match authorization {
        Some(a) => {
            let chars = to_chars(a.as_str());
            if starts_with(&chars, "Basic ") {
                proof {
                    reveal_strlit("Basic ");
                }
                let rest = copy_range(&chars, 6, chars.len());
                assert(rest@ =~= chars@.skip(6));
                Some(from_chars(&trim(&rest)))
            } else {
                None
            }
        },
        None => None,
    }
}

/// The value of a session cookie, where there is a `Cookie` header with one.
pub open spec fn session_payload(cookie: Option<Seq<char>>, name: Seq<char>) -> Option<Seq<char>> {
    match cookie {
        Some(c) => cookie_in(c, name),
        None => None,
    }
}

/// Whether a request is allowed by what its header and its cookie decode to: the
/// header decides where it holds a credential, and else the cookie.
pub open spec fn is_authorized(
    header: Option<(Seq<char>, Seq<char>)>,
    cookie: Option<(Seq<char>, Seq<char>)>,
    cfg: DashboardSection,
) -> bool {
    match header {
        Some(p) => are_configured(p, cfg),
        None => match cookie {
            Some(p) => are_configured(p, cfg),
            None => false,
        },
    }
}

/// What a payload decodes to.
pub open spec fn decoded_payload(payload: Option<Seq<char>>) -> Option<(Seq<char>, Seq<char>)> {
    match payload {
        Some(p) => credentials(base64_decoded(p)),
        None => None,
    }
}

/// What an optional pair of strings stands for.
pub open spec fn pair_view(pair: Option<(String, String)>) -> Option<(Seq<char>, Seq<char>)> {
    match pair {
        Some(p) => Some((p.0@, p.1@)),
        None => None,
    }
}

/// Executable form of [`is_authorized`].
pub fn decide_authorized(
    header: &Option<(String, String)>,
    cookie: &Option<(String, String)>,
    cfg: &DashboardSection,
) -> (r: bool)
    ensures
        r == is_authorized(pair_view(*header), pair_view(*cookie), *cfg),
{
    match header {
        Some(p) => check_credentials(cfg, p.0.as_str(), p.1.as_str()),
        None => match cookie {
            Some(p) => check_credentials(cfg, p.0.as_str(), p.1.as_str()),
            None => false,
        },
    }
}

/// What an optional payload decodes to.
fn decode_payload(payload: &Option<String>) -> (r: Option<(String, String)>)
    ensures
        pair_view(r) == decoded_payload(payload.deep_view()),
{
    match payload {
        Some(p) => decode_basic(p.as_str()),
        None => None,
    }
}

/// Whether a request with these headers is allowed.
pub fn authorized(
    authorization: &Option<String>,
    cookie: &Option<String>,
    cookie_name: &str,
    cfg: &DashboardSection,
) -> (r: bool)
    ensures
        r == is_authorized(
            decoded_payload(basic_payload(authorization.deep_view())),
            decoded_payload(session_payload(cookie.deep_view(), cookie_name@)),
            *cfg,
        ),
{
    let header = decode_payload(&basic_token(authorization));
    let value: Option<String> = match cookie {
        Some(c) => cookie_value(c.as_str(), cookie_name),
        None => None,
    };
    let session = decode_payload(&value);
    decide_authorized(&header, &session, cfg)
}

/// The credential of a user name and a password.
pub fn encode_basic(user: &str, pass: &str) -> (r: String)
    requires
        encode_utf8(user@).len() + encode_utf8(pass@).len() < usize::MAX / 4,
    ensures
        r@ == base64_text(encode_utf8(user@ + seq![':'] + pass@)),
        base64_decoded(r@) == Some(encode_utf8(user@ + seq![':'] + pass@)),
        forall|i: int| 0 <= i < r@.len() ==> is_base64_char(#[trigger] r@[i]),
{
    let mut text = user.to_owned();
    text.push(':');
    text.append(pass);
    assert(text@ =~= user@ + seq![':'] + pass@);
    proof {
        lemma_encode_concat(user@ + seq![':'], pass@);
        lemma_encode_concat(user@, seq![':']);
        assert(is_ascii_chars(seq![':']));
        is_ascii_chars_encode_utf8(seq![':']);
    }
    base64_encode(text.as_str().as_bytes())
}

/// The bytes of two texts in a row are the bytes of the one, then of the other.
pub proof fn lemma_encode_concat(a: Seq<char>, b: Seq<char>)
    ensures
        encode_utf8(a + b) == encode_utf8(a) + encode_utf8(b),
    decreases a.len(),
{
    if a.len() == 0 {
        assert(a + b =~= b);
        assert(encode_utf8(a) =~= Seq::<u8>::empty());
        assert(encode_utf8(a) + encode_utf8(b) =~= encode_utf8(b));
    } else {
        assert((a + b).drop_first() =~= a.drop_first() + b);
        lemma_encode_concat(a.drop_first(), b);
        assert(encode_utf8(a + b) =~= encode_utf8(a) + encode_utf8(b));
    }
}

/// A text without white space at its ends is not trimmed.
proof fn lemma_nothing_to_trim(s: Seq<char>)
    requires
        s.len() > 0 ==> !is_white_space(s[0]) && !is_white_space(s.last()),
    ensures
        trimmed(s) == s,
{
    assert(trimmed_start(s) == s);
    assert(trimmed_end(s) == s);
}

/// A text is cut at the first place of a character.
proof fn lemma_cut_at(a: Seq<char>, c: char, b: Seq<char>)
    requires
        !a.contains(c),
    ensures
        cut(a + seq![c] + b, c) == Some((a, b)),
{
    let s = a + seq![c] + b;
    lemma_first_index(s, c);
    assert(s[a.len() as int] == c);
    match first_index(s, c) {
        Some(i) => {
            if i < a.len() {
                assert(a[i] == c);
            }
            assert(i == a.len());
            assert(s.take(i) =~= a);
            assert(s.skip(i + 1) =~= b);
        },
        None => {},
    }
}

/// The cookie that a successful login sets lets later requests in: a request that
/// sends it back is authorized, for a user name without a colon. `value` is what
/// [`encode_basic`] gives.
pub proof fn law_session_cookie_authorizes(
    name: Seq<char>,
    value: Seq<char>,
    cfg: DashboardSection,
)
    requires
        base64_decoded(value) == Some(encode_utf8(cfg.user@ + seq![':'] + cfg.password@)),
        forall|i: int| 0 <= i < value.len() ==> is_base64_char(#[trigger] value[i]),
        !cfg.user@.contains(':'),
        forall|i: int|
            0 <= i < name.len() ==> !is_white_space(#[trigger] name[i]) && name[i] != ';' && name[i]
                != '=',
    ensures
        is_authorized(
            None,
            decoded_payload(session_payload(Some(name + seq!['='] + value), name)),
            cfg,
        ),
{
    let header = name + seq!['='] + value;
    lemma_first_index(header, ';');
    assert forall|j: int| 0 <= j < header.len() implies header[j] != ';' by {
        if j < name.len() {
            assert(header[j] == name[j]);
        } else if j > name.len() {
            assert(header[j] == value[j - name.len() - 1]);
        }
    }
    assert(pieces(header, ';') =~= seq![header]);
    assert(!name.contains('='));
    lemma_cut_at(name, '=', value);
    assert(seq![header][0] == header);
    if name.len() > 0 {
        assert(!is_white_space(name[0]) && !is_white_space(name[name.len() - 1]));
    }
    if value.len() > 0 {
        assert(is_base64_char(value[0]) && is_base64_char(value[value.len() - 1]));
    }
    lemma_nothing_to_trim(name);
    lemma_nothing_to_trim(value);
    assert(cookie_in(header, name) == Some(value));
    let text = cfg.user@ + seq![':'] + cfg.password@;
    encode_utf8_valid_utf8(text);
    encode_utf8_decode_utf8(text);
    lemma_cut_at(cfg.user@, ':', cfg.password@);
}

/// A cookie is found behind others, as long as none of them has its name.
pub proof fn law_cookie_among_others(
    pairs: Seq<Seq<char>>,
    k: int,
    name: Seq<char>,
    left: Seq<char>,
    right: Seq<char>,
)
    requires
        0 <= k < pairs.len(),
        forall|i: int|
            0 <= i < k ==> match cut(#[trigger] pairs[i], '=') {
                Some((n, v)) => trimmed(n) != name,
                None => true,
            },
        cut(pairs[k], '=') == Some((left, right)),
        trimmed(left) == name,
    ensures
        first_value(pairs, name) == Some(trimmed(right)),
    decreases k,
{
    if k > 0 {
        let rest = pairs.skip(1);
        assert forall|i: int| 0 <= i < k - 1 implies match cut(#[trigger] rest[i], '=') {
            Some((n, v)) => trimmed(n) != name,
            None => true,
        } by {
            assert(rest[i] == pairs[i + 1]);
        }
        assert(rest[k - 1] == pairs[k]);
        assert(match cut(pairs[0], '=') {
            Some((n, v)) => trimmed(n) != name,
            None => true,
        });
        law_cookie_among_others(rest, k - 1, name, left, right);
    }
}

/// A `Basic` header with the configured user name and password lets a request in, for
/// a user name without a colon. `value` is what [`encode_basic`] gives.
pub proof fn law_basic_header_authorizes(
    value: Seq<char>,
    cookie: Option<(Seq<char>, Seq<char>)>,
    cfg: DashboardSection,
)
    requires
        base64_decoded(value) == Some(encode_utf8(cfg.user@ + seq![':'] + cfg.password@)),
        forall|i: int| 0 <= i < value.len() ==> is_base64_char(#[trigger] value[i]),
        !cfg.user@.contains(':'),
    ensures
        is_authorized(decoded_payload(basic_payload(Some("Basic "@ + value))), cookie, cfg),
{
    let header = "Basic "@ + value;
    assert(header.subrange(0, "Basic "@.len() as int) =~= "Basic "@);
    assert("Basic "@.is_prefix_of(header));
    assert(header.skip("Basic "@.len() as int) =~= value);
    if value.len() > 0 {
        assert(is_base64_char(value[0]) && is_base64_char(value[value.len() - 1]));
    }
    lemma_nothing_to_trim(value);
    let text = cfg.user@ + seq![':'] + cfg.password@;
    encode_utf8_valid_utf8(text);
    encode_utf8_decode_utf8(text);
    lemma_cut_at(cfg.user@, ':', cfg.password@);
}

/// A request is let in exactly by the configured user name and password: those of its
/// header where that holds a credential, and else those of its cookie. One without any
/// is not.
pub proof fn law_only_configured_credentials(
    user: Seq<char>,
    pass: Seq<char>,
    cookie: Option<(Seq<char>, Seq<char>)>,
    cfg: DashboardSection,
)
    ensures
        is_authorized(Some((user, pass)), cookie, cfg) <==> user == cfg.user@ && pass
            == cfg.password@,
        is_authorized(None, Some((user, pass)), cfg) <==> user == cfg.user@ && pass
            == cfg.password@,
        !is_authorized(None, None, cfg),
{
}

/// A credential holds the user name before the first colon and the password behind it;
/// bytes that are no text, or hold no colon, hold none.
pub proof fn law_credentials_are_cut(user: Seq<char>, pass: Seq<char>, bytes: Seq<u8>)
    requires
        !user.contains(':'),
    ensures
        credentials(Some(encode_utf8(user + seq![':'] + pass))) == Some((user, pass)),
        credentials(Some(encode_utf8(user))) is None,
        !valid_utf8(bytes) ==> credentials(Some(bytes)) is None,
        credentials(None) is None,
{
    let text = user + seq![':'] + pass;
    encode_utf8_valid_utf8(text);
    encode_utf8_decode_utf8(text);
    encode_utf8_valid_utf8(user);
    encode_utf8_decode_utf8(user);
    crate::text::law_pieces_are_cut(user, ':', pass);
}

/// Only a header that names the scheme holds a credential, without the white space
/// around it.
pub proof fn law_basic_scheme_is_needed(header: Seq<char>, value: Seq<char>)
    ensures
        !"Basic "@.is_prefix_of(header) ==> basic_payload(Some(header)) is None,
        basic_payload(None) is None,
        basic_payload(Some("Basic "@ + value)) == Some(trimmed(value)),
{
    let h = "Basic "@ + value;
    assert(h.subrange(0, "Basic "@.len() as int) =~= "Basic "@);
    assert("Basic "@.is_prefix_of(h));
    assert(h.skip("Basic "@.len() as int) =~= value);
}

} // verus!
