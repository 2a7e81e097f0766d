//! The WebSocket side of the server: the opening handshake and the reply to
//! each frame received once the connection is upgraded.

use vstd::prelude::*;
use vstd::utf8::encode_utf8;
use crate::bytes::lower_of;
use crate::common::HTTPVersion;
use crate::frame::{Frame, FrameError, FrameView, encode_spec, payload_of, encode_limit};
use crate::header_map::HeaderMap;
use crate::request::{Request, RequestMethod, RequestParseError};
use crate::response::{Response, ResponseBody, ResponseHeaders, ResponseStatus, StatusLine};

verus! {

broadcast use vstd::std_specs::vec::group_vec_axioms;

/// The SHA-1 digest of a byte string.
pub uninterp spec fn sha1_of(b: Seq<u8>) -> Seq<u8>;

/// The standard, padded base64 text of a byte string.
pub uninterp spec fn base64_of(b: Seq<u8>) -> Seq<char>;

/// Relies on `sha1::Sha1` through `digest::Digest::digest`: the 20-byte SHA-1
/// digest of the input.
#[verifier::external_body]
fn sha1_digest(b: &[u8]) -> (r: Vec<u8>)
    ensures
        r@ == sha1_of(b@),
        r@.len() == 20,
{
    <sha1::Sha1 as sha1::Digest>::digest(b).to_vec()
}

/// Relies on `base64::encode`: standard alphabet, with padding.
#[verifier::external_body]
fn base64_encode(b: &[u8]) -> (r: String)
    ensures
        r@ == base64_of(b@),
{
    base64::encode(b)
}

/// The GUID that RFC 6455 appends to the client's key.
pub open spec fn ws_guid() -> Seq<char> {
    "258EAFA5-E914-47DA-95CA-C5AB0DC85B11"@
}

/// `Sec-WebSocket-Accept` for a key: base64 of the SHA-1 of the key followed
/// by the GUID.
pub open spec fn accept_of(key: Seq<char>) -> Seq<char> {
    base64_of(sha1_of(encode_utf8(key) + encode_utf8(ws_guid())))
}

/// Computes the `Sec-WebSocket-Accept` value for a client's key.
pub fn accept_key(key: &str) -> (r: String)
    ensures
        r@ == accept_of(key@),
{
    let mut bs: Vec<u8> = vstd::slice::slice_to_vec(key.as_bytes());
    crate::bytes::append_bytes(&mut bs, "258EAFA5-E914-47DA-95CA-C5AB0DC85B11".as_bytes());
    let hashed = sha1_digest(bs.as_slice());
    base64_encode(hashed.as_slice())
}

/// Whether an optional, already lowercased, header value equals `expected`.
pub open spec fn lc_is(v: Option<Seq<char>>, expected: Seq<char>) -> bool {
    v == Some(expected)
}

/// The handshake checks, in order, on the lowercased values of `Upgrade`,
/// `Connection` and `Sec-WebSocket-Version`, the method, and the presence of
/// `Sec-WebSocket-Key`. The first that fails decides the error; all are 400.
pub open spec fn handshake_failure(
    upgrade: Option<Seq<char>>,
    connection: Option<Seq<char>>,
    version: Option<Seq<char>>,
    method: RequestMethod,
    has_key: bool,
) -> Option<Seq<char>> {
    if !lc_is(upgrade, "websocket"@) {
        Some("Illegal Upgrade header"@)
    } else if !lc_is(connection, "upgrade"@) {
        Some("Illegal Connection header"@)
    } else if !lc_is(version, "13"@) {
        Some("Illegal WebSocket version"@)
    } else if method != RequestMethod::GET {
        Some("Illegal request method"@)
    } else if !has_key {
        Some("Missing Sec-WebSocket-Key header"@)
    } else {
        None
    }
}

pub open spec fn opt_string_view(v: Option<String>) -> Option<Seq<char>> {
    match v {
        Some(s) => Some(s@),
        None => None,
    }
}

fn opt_eq(v: &Option<String>, expected: &str) -> (r: bool)
    ensures
        r == lc_is(opt_string_view(*v), expected@),
{
    match v {
        Some(s) => *s == expected.to_owned(),
        None => false,
    }
}

/// Runs the handshake checks on header values that are already lowercased.
pub fn check_handshake(
    upgrade: Option<String>,
    connection: Option<String>,
    version: Option<String>,
    method: RequestMethod,
    has_key: bool,
) -> (r: Result<(), RequestParseError>)
    ensures
        r is Ok <==> handshake_failure(opt_string_view(upgrade), opt_string_view(connection), opt_string_view(version), method, has_key) is None,
        r matches Err(e) ==> e.0 == 400 && Some(e.1@) == handshake_failure(
            opt_string_view(upgrade), opt_string_view(connection), opt_string_view(version), method, has_key),
{
    if !opt_eq(&upgrade, "websocket") {
        return Err(RequestParseError::new(ResponseStatus::BadRequest, "Illegal Upgrade header"));
    }
    if !opt_eq(&connection, "upgrade") {
        return Err(RequestParseError::new(ResponseStatus::BadRequest, "Illegal Connection header"));
    }
    if !opt_eq(&version, "13") {
        return Err(RequestParseError::new(ResponseStatus::BadRequest, "Illegal WebSocket version"));
    }
    if method != RequestMethod::GET {
        return Err(RequestParseError::new(ResponseStatus::BadRequest, "Illegal request method"));
    }
    if !has_key {
        return Err(RequestParseError::new(ResponseStatus::BadRequest, "Missing Sec-WebSocket-Key header"));
    }
    Ok(())
}

/// A header's value, lowercased, when the header is present.
pub open spec fn lc_header(req: &Request, name: Seq<char>) -> Option<Seq<char>> {
    if req.headers.view().contains_key(name) {
        Some(lower_of(req.headers.view()[name]))
    } else {
        None
    }
}

/// A handshake fails when `Upgrade`, `Connection`, `Sec-WebSocket-Version` or
/// `Sec-WebSocket-Key` is missing, or when `Connection` is not `upgrade` in
/// lower case.
pub proof fn lemma_handshake_needs_headers(request: &Request)
    ensures
        ({
            let h = request.headers.view();
            (!h.contains_key("Upgrade"@) || !h.contains_key("Connection"@)
                || !h.contains_key("Sec-WebSocket-Version"@) || !h.contains_key("Sec-WebSocket-Key"@)
                || lower_of(h["Connection"@]) != "upgrade"@)
            ==> handshake_failure(
                lc_header(request, "Upgrade"@),
                lc_header(request, "Connection"@),
                lc_header(request, "Sec-WebSocket-Version"@),
                request.request_line.method,
                h.contains_key("Sec-WebSocket-Key"@),
            ) is Some
        }),
{
}

/// The headers of the response that accepts an upgrade.
pub open spec fn upgrade_headers(accept: Seq<char>) -> Map<Seq<char>, Seq<char>> {
    Map::<Seq<char>, Seq<char>>::empty()
        .insert("Upgrade"@, "websocket"@)
        .insert("Connection"@, "Upgrade"@)
        .insert("Sec-WebSocket-Accept"@, accept)
}

/// Handles WebSocket upgrade requests.
pub struct WebSocketHandler;

impl WebSocketHandler {
    /// Whether the request asks for a WebSocket upgrade.
    pub fn accepts(&self, request: &Request) -> (r: bool)
        requires
            request.wf(),
        ensures
            r == (lc_header(request, "Upgrade"@) == Some("websocket"@)),
    {
        let v = request.get_header_lc("Upgrade");
        opt_eq(&v, "websocket")
    }

    /// Validates an upgrade request and builds the `101 Switching Protocol`
    /// response that accepts it.
    pub fn handshake(&self, request: &Request) -> (r: Result<Response, RequestParseError>)
        requires
            request.wf(),
        ensures
            r is Ok <==> handshake_failure(
                lc_header(request, "Upgrade"@),
                lc_header(request, "Connection"@),
                lc_header(request, "Sec-WebSocket-Version"@),
                request.request_line.method,
                request.headers.view().contains_key("Sec-WebSocket-Key"@),
            ) is None,
            r matches Err(e) ==> e.0 == 400 && Some(e.1@) == handshake_failure(
                lc_header(request, "Upgrade"@),
                lc_header(request, "Connection"@),
                lc_header(request, "Sec-WebSocket-Version"@),
                request.request_line.method,
                request.headers.view().contains_key("Sec-WebSocket-Key"@),
            ),
            r matches Ok(res) ==> {
                &&& res.status_line.status == ResponseStatus::SwitchingProtocol
                &&& res.status_line.version == HTTPVersion::V1_1
                &&& res.headers.wf()
                &&& res.headers.view() == upgrade_headers(accept_of(request.headers.view()["Sec-WebSocket-Key"@]))
                &&& res.body.0@.len() == 0
            },
    {
        let upgrade = request.get_header_lc("Upgrade");
        let connection = request.get_header_lc("Connection");
        let version = request.get_header_lc("Sec-WebSocket-Version");
        let key = request.get_header("Sec-WebSocket-Key");
        check_handshake(upgrade, connection, version, request.request_line.method, key.is_some())?;
        let key = match key {
            Some(k) => k,
            None => {
                return Err(RequestParseError::new(ResponseStatus::BadRequest, "Missing Sec-WebSocket-Key header"));
            },
        };
        let accept = accept_key(key);
        let mut headers = HeaderMap::new();
        headers.insert("Upgrade".to_owned(), "websocket".to_owned());
        headers.insert("Connection".to_owned(), "Upgrade".to_owned());
        headers.insert("Sec-WebSocket-Accept".to_owned(), accept);
        Ok(Response::new(
            StatusLine::new(HTTPVersion::V1_1, ResponseStatus::SwitchingProtocol),
            ResponseHeaders::new(headers),
            ResponseBody::new(Vec::new()),
        ))
    }
}

impl WebSocketHandler {
    /// The answer to an upgrade request, and whether the connection goes on
    /// as a WebSocket: the `101` response when the handshake succeeds, else
    /// the error response for 400, after which the connection ends.
    pub fn upgrade_response(&self, request: &Request) -> (r: (Response, bool))
        requires
            request.wf(),
        ensures
            r.1 <==> handshake_failure(
                lc_header(request, "Upgrade"@),
                lc_header(request, "Connection"@),
                lc_header(request, "Sec-WebSocket-Version"@),
                request.request_line.method,
                request.headers.view().contains_key("Sec-WebSocket-Key"@),
            ) is None,
            r.0.headers.wf(),
            r.0.status_line.version == HTTPVersion::V1_1,
            r.0.body.0@.len() == 0,
            r.1 ==> r.0.status_line.status == ResponseStatus::SwitchingProtocol
                && r.0.headers.view() == upgrade_headers(accept_of(request.headers.view()["Sec-WebSocket-Key"@])),
            !r.1 ==> r.0.status_line.status == ResponseStatus::BadRequest
                && r.0.headers.view() == Map::<Seq<char>, Seq<char>>::empty()
                    .insert("Connection"@, "close"@)
                    .insert("Content-Length"@, "0"@),
    {
        match self.handshake(request) {
            Ok(res) => (res, true),
            Err(err) => (crate::handler::error_response(&err), false),
        }
    }
}

/// What to do after a frame has been received on an upgraded connection.
pub enum SessionAction {
    /// Write these bytes and wait for the next frame.
    Reply(Vec<u8>),
    /// Write these bytes, then close the connection.
    ReplyAndClose(Vec<u8>),
    /// Nothing to write; wait for the next frame.
    Ignore,
}

/// The reply to a frame: text and binary frames are echoed, a ping is
/// answered by a pong with the same payload, a pong is ignored, and a close is
/// echoed before the connection ends.
pub open spec fn reply_spec(f: FrameView) -> Option<(FrameView, bool)> {
    match f {
        FrameView::Text(_) => Some((f, false)),
        FrameView::Binary(_) => Some((f, false)),
        FrameView::Ping(d) => Some((FrameView::Pong(d), false)),
        FrameView::Pong(_) => None,
        FrameView::Close(_, _) => Some((f, true)),
    }
}

/// Decides the reply to one received frame.
pub fn respond_to_frame(frame: Frame) -> (r: Result<SessionAction, FrameError>)
    ensures
        match reply_spec(frame@) {
            None => r matches Ok(SessionAction::Ignore),
            Some((g, close)) => if payload_of(g).len() < encode_limit() {
                if close {
                    (r matches Ok(SessionAction::ReplyAndClose(b)) && b@ == encode_spec(g))
                } else {
                    (r matches Ok(SessionAction::Reply(b)) && b@ == encode_spec(g))
                }
            } else {
                r == Err::<SessionAction, FrameError>(FrameError::TooBigToEncode)
            },
        },
{
    match frame {
        Frame::Ping { data } => {
            let pong = Frame::Pong { data };
            let b = pong.encode()?;
            Ok(SessionAction::Reply(b))
        },
        Frame::Pong { .. } => Ok(SessionAction::Ignore),
        Frame::Close { status_code, message } => {
            let f = Frame::Close { status_code, message };
            let b = f.encode()?;
            Ok(SessionAction::ReplyAndClose(b))
        },
        f => {
            let b = f.encode()?;
            Ok(SessionAction::Reply(b))
        },
    }
}

} // verus!
