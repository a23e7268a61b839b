//! HTTP request heads and responses, as plain values.

use vstd::prelude::*;
use vstd::utf8::*;

use crate::text::{ascii_lowered, from_chars, same, to_ascii_lowercase, to_chars, utf8_text};

verus! {

/// Method, target and headers of a request, as far as they were read.
pub type Head = (Option<String>, Option<String>, Vec<(String, Vec<u8>)>);

/// What a [`Head`] stands for.
pub type HeadView = (Option<Seq<char>>, Option<Seq<char>>, Seq<(Seq<char>, Seq<u8>)>);

/// What `httparse::Request::parse` makes of some bytes, with room for 32 headers:
/// the head where it is complete, `None` where it is not, and an error where it can
/// never be.
pub uninterp spec fn parsed_head(buf: Seq<u8>) -> Result<Option<HeadView>, ()>;

/// What a result of [`parse_head`] stands for.
pub open spec fn head_view(r: Result<Option<Head>, ()>) -> Result<Option<HeadView>, ()> {
    match r {
        Ok(Some(h)) => Ok(Some(h.deep_view())),
        Ok(None) => Ok(None),
        Err(_) => Err(()),
    }
}

/// `httparse::Request::parse`, with room for 32 headers. Its result depends on the
/// bytes alone; what the grammar of a request is, is left to it.
#[verifier::external_body]
pub(crate) fn parse_head(buf: &[u8]) -> (r: Result<Option<Head>, ()>)
    ensures
        head_view(r) == parsed_head(buf@),
{
    let mut headers = [httparse::EMPTY_HEADER; 32];
    let mut req = httparse::Request::new(&mut headers);
    let status = req.parse(buf);
    let method = req.method.map(str::to_string);
    let path = req.path.map(str::to_string);
    let fields = req.headers.iter().map(|h| (h.name.to_string(), h.value.to_vec()));
    match status {
        Ok(httparse::Status::Complete(_)) => Ok(Some((method, path, fields.collect()))),
        Ok(httparse::Status::Partial) => Ok(None),
        Err(_) => Err(()),
    }
}

/// Whether a header has this name, which is in lower case.
pub open spec fn is_named(name: Seq<char>, lower: Seq<char>) -> bool {
    ascii_lowered(name) == lower
}

/// Executable form of [`is_named`].
pub fn has_header_name(name: &str, lower: &str) -> (r: bool)
    ensures
        r == is_named(name@, lower@),
{
    let low = from_chars(&to_ascii_lowercase(&to_chars(name)));
    same(low.as_str(), lower)
}

/// The text of a header value, where it is valid UTF-8.
pub open spec fn value_text(value: Seq<u8>) -> Option<Seq<char>> {
    if valid_utf8(value) {
        Some(decode_utf8(value))
    } else {
        None
    }
}

/// Executable form of [`value_text`].
pub fn header_text(value: &Vec<u8>) -> (r: Option<String>)
    ensures
        r.deep_view() == value_text(value@),
{
    utf8_text(value.as_slice())
}

/// A response.
#[derive(Clone, Debug)]
pub struct Response {
    /// Status code.
    pub status: u16,
    /// `Content-Type`.
    pub content_type: &'static str,
    /// Body.
    pub body: String,
    /// Further header lines.
    pub headers: Option<String>,
}

/// What a [`Response`] stands for.
pub struct ResponseView {
    pub status: u16,
    pub content_type: Seq<char>,
    pub body: Seq<char>,
    pub headers: Option<Seq<char>>,
}

impl View for Response {
    type V = ResponseView;

    open spec fn view(&self) -> ResponseView {
        ResponseView {
            status: self.status,
            content_type: self.content_type@,
            body: self.body@,
            headers: self.headers.deep_view(),
        }
    }
}

/// A response without further header lines.
pub open spec fn plain(status: u16, content_type: Seq<char>, body: Seq<char>) -> ResponseView {
    ResponseView { status, content_type, body, headers: None }
}

/// Executable form of [`plain`].
pub fn respond(status: u16, content_type: &'static str, body: String) -> (r: Response)
    ensures
        r@ == plain(status, content_type@, body@),
{
    Response { status, content_type, body, headers: None }
}

/// The answer that is a page.
pub fn page_response(page: String) -> (r: Response)
    ensures
        r@ == plain(200, "text/html; charset=utf-8"@, page@),
{
    respond(200, "text/html; charset=utf-8", page)
}

/// The answer that is a state as JSON.
pub fn status_response(json: String) -> (r: Response)
    ensures
        r@ == plain(200, "application/json"@, json@),
{
    respond(200, "application/json", json)
}

} // verus!
