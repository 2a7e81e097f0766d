//! Choosing the handler of a request, and the plain HTTP responses.

use vstd::prelude::*;
use crate::bytes::{decimal_chars, lossy_of, usize_to_string, utf8_lossy};
use crate::common::HTTPVersion;
use crate::header_map::HeaderMap;
use crate::request::{Request, RequestParseError, method_name, status_for_code};
use crate::response::{Response, ResponseBody, ResponseHeaders, ResponseStatus, StatusLine};
use crate::websocket::{WebSocketHandler, lc_header};

verus! {

broadcast use vstd::std_specs::vec::group_vec_axioms;

/// The handlers a connection can be given to, in the order they are tried.
#[derive(Debug, Clone, Copy, PartialEq, Eq, Structural)]
pub enum HandlerKind {
    WebSocket,
    Echo,
}

/// The WebSocket handler takes upgrade requests; the echo handler takes the rest.
pub fn select_handler(request: &Request) -> (r: HandlerKind)
    requires
        request.wf(),
    ensures
        r == (if lc_header(request, "Upgrade"@) == Some("websocket"@) {
            HandlerKind::WebSocket
        } else {
            HandlerKind::Echo
        }),
{
    if WebSocketHandler.accepts(request) {
        HandlerKind::WebSocket
    } else if EchoHandler.accepts(request) {
        HandlerKind::Echo
    } else {
        HandlerKind::Echo
    }
}

/// The answer to a request that failed: its status, `Connection: close`,
/// `Content-Length: 0` and no body.
pub fn error_response(err: &RequestParseError) -> (r: Response)
    ensures
        r.status_line.status == status_for_code(err.0),
        r.status_line.version == HTTPVersion::V1_1,
        r.headers.wf(),
        r.headers.view() == Map::<Seq<char>, Seq<char>>::empty()
            .insert("Connection"@, "close"@)
            .insert("Content-Length"@, "0"@),
        r.body.0@.len() == 0,
{
    let mut headers = HeaderMap::new();
    headers.insert("Connection".to_owned(), "close".to_owned());
    headers.insert("Content-Length".to_owned(), "0".to_owned());
    Response::new(
        StatusLine::new(HTTPVersion::V1_1, err.get_status()),
        ResponseHeaders::new(headers),
        ResponseBody::new(Vec::new()),
    )
}

/// What the echo handler reports about a request.
pub struct EchoResponse {
    pub method: String,
    pub path: String,
    pub headers: Vec<(String, String)>,
    pub data: String,
}

impl EchoResponse {
    pub fn new(method: String, path: String, headers: Vec<(String, String)>, data: String) -> (r: EchoResponse)
        ensures
            r.method == method,
            r.path == path,
            r.headers == headers,
            r.data == data,
    {
        EchoResponse { method, path, headers, data }
    }

    /// The method, path, headers and body (as text) of a request.
    pub fn from_request(request: &Request) -> (r: EchoResponse)
        ensures
            r.method@ == method_name(request.request_line.method),
            r.path@ == request.request_line.path@,
            r.headers@ == request.headers.0.entries_spec(),
            r.data@ == lossy_of(request.body.0@),
    {
        let entries = request.headers.0.entries();
        let mut headers: Vec<(String, String)> = Vec::new();
        let mut i: usize = 0;
        while i < entries.len()
            invariant
                i <= entries@.len(),
                headers@ == entries@.subrange(0, i as int),
            decreases entries@.len() - i,
        {
            let k = entries[i].0.clone();
            let v = entries[i].1.clone();
            headers.push((k, v));
            assert(headers@ =~= entries@.subrange(0, i + 1));
            i = i + 1;
        }
        assert(entries@.subrange(0, entries@.len() as int) =~= entries@);
        EchoResponse::new(
            request.request_line.method.name(),
            request.request_line.path.clone(),
            headers,
            utf8_lossy(request.body.0.as_slice()),
        )
    }
}

/// Answers every request with a JSON description of it.
pub struct EchoHandler;

impl EchoHandler {
    /// The echo handler takes any request.
    pub fn accepts(&self, request: &Request) -> (r: bool)
        ensures
            r,
    {
        true
    }

    /// The response for a serialised description: `200 OK` with a JSON body
    /// and its length, or `500` when there is none.
    pub fn prepare_response(&self, json: Option<Vec<u8>>) -> (r: Response)
        ensures
            r.headers.wf(),
            r.status_line.version == HTTPVersion::V1_1,
            json matches Some(b) ==> {
                &&& r.status_line.status == ResponseStatus::OK
                &&& r.headers.view() == Map::<Seq<char>, Seq<char>>::empty()
                    .insert("Content-Type"@, "application/json"@)
                    .insert("Content-Length"@, decimal_chars(b@.len()))
                &&& r.body.0@ == b@
            },
            json is None ==> {
                &&& r.status_line.status == ResponseStatus::InternalServerError
                &&& r.headers.view() == Map::<Seq<char>, Seq<char>>::empty()
                    .insert("Connection"@, "close"@)
                    .insert("Content-Length"@, "0"@)
                &&& r.body.0@.len() == 0
            },
    {
        match json {
            Some(body) => {
                let mut headers = HeaderMap::new();
                headers.insert("Content-Type".to_owned(), "application/json".to_owned());
                headers.insert("Content-Length".to_owned(), usize_to_string(body.len()));
                Response::new(
                    StatusLine::new(HTTPVersion::V1_1, ResponseStatus::OK),
                    ResponseHeaders::new(headers),
                    ResponseBody::new(body),
                )
            },
            None => {
                let err = RequestParseError::new(ResponseStatus::InternalServerError, "Failed to create response body");
                error_response(&err)
            },
        }
    }
}

} // verus!
