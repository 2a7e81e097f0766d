//! HTTP requests: the request line, the header block and the body.

use vstd::prelude::*;
use vstd::utf8::{decode_utf8, encode_utf8, valid_utf8};
use crate::bytes::{bytes_eq, find_pat, find_pattern, is_white_space, lower_of, string_from_utf8, to_lowercase, trim, trim_end, trim_start, trim_str};
use crate::common::{HTTPVersion, version_text};
use crate::header_map::HeaderMap;
use crate::response::{ResponseStatus, status_code_of};

verus! {

broadcast use vstd::std_specs::vec::group_vec_axioms;

/// A request that cannot be served, with the status code to answer it with
/// and a short explanation.
#[derive(Debug, Clone, PartialEq, Eq)]
pub struct RequestParseError(pub u16, pub String);

/// The status that a code stands for; codes outside the table count as an
/// internal error.
pub open spec fn status_for_code(c: u16) -> ResponseStatus {
    if c == 101 {
        ResponseStatus::SwitchingProtocol
    } else if c == 200 {
        ResponseStatus::OK
    } else if c == 400 {
        ResponseStatus::BadRequest
    } else if c == 501 {
        ResponseStatus::NotImplemented
    } else {
        ResponseStatus::InternalServerError
    }
}

impl RequestParseError {
    pub fn new(status: ResponseStatus, message: &str) -> (r: RequestParseError)
        ensures
            r.0 == status_code_of(status),
            r.1@ == message@,
    {
        RequestParseError(status.status_code(), message.to_owned())
    }

    pub fn get_status(&self) -> (r: ResponseStatus)
        ensures
            r == status_for_code(self.0),
    {
        if self.0 == 101 {
            ResponseStatus::SwitchingProtocol
        } else if self.0 == 200 {
            ResponseStatus::OK
        } else if self.0 == 400 {
            ResponseStatus::BadRequest
        } else if self.0 == 501 {
            ResponseStatus::NotImplemented
        } else {
            ResponseStatus::InternalServerError
        }
    }
}

fn bad_request() -> (r: RequestParseError)
    ensures
        r.0 == 400,
{
    RequestParseError::new(ResponseStatus::BadRequest, "Bad Request")
}

/// The methods this server knows.
#[derive(Debug, Clone, Copy, PartialEq, Eq, Structural)]
pub enum RequestMethod {
    GET,
    POST,
    PUT,
    DELETE,
}

pub open spec fn method_name(m: RequestMethod) -> Seq<char> {
    match m {
        RequestMethod::GET => "GET"@,
        RequestMethod::POST => "POST"@,
        RequestMethod::PUT => "PUT"@,
        RequestMethod::DELETE => "DELETE"@,
    }
}

/// The method whose name the token spells, if any.
pub open spec fn method_of(t: Seq<u8>) -> Option<RequestMethod> {
    if t == encode_utf8("GET"@) {
        Some(RequestMethod::GET)
    } else if t == encode_utf8("POST"@) {
        Some(RequestMethod::POST)
    } else if t == encode_utf8("PUT"@) {
        Some(RequestMethod::PUT)
    } else if t == encode_utf8("DELETE"@) {
        Some(RequestMethod::DELETE)
    } else {
        None
    }
}

impl RequestMethod {
    /// Reads a method token; an unknown method is not implemented (501).
    pub fn from_bytes(t: &[u8]) -> (r: Result<RequestMethod, RequestParseError>)
        ensures
            r matches Ok(m) ==> method_of(t@) == Some(m),
            r matches Err(e) ==> method_of(t@) is None && e.0 == 501,
    {
        if bytes_eq(t, "GET".as_bytes()) {
            Ok(RequestMethod::GET)
        } else if bytes_eq(t, "POST".as_bytes()) {
            Ok(RequestMethod::POST)
        } else if bytes_eq(t, "PUT".as_bytes()) {
            Ok(RequestMethod::PUT)
        } else if bytes_eq(t, "DELETE".as_bytes()) {
            Ok(RequestMethod::DELETE)
        } else {
            Err(RequestParseError::new(ResponseStatus::NotImplemented, "Not Implemented"))
        }
    }

    pub fn name(&self) -> (r: String)
        ensures
            r@ == method_name(*self),
    {
        match self {
            RequestMethod::GET => "GET".to_string(),
            RequestMethod::POST => "POST".to_string(),
            RequestMethod::PUT => "PUT".to_string(),
            RequestMethod::DELETE => "DELETE".to_string(),
        }
    }
}

pub open spec fn space() -> Seq<u8> {
    seq![0x20u8]
}

/// What a request line holds.
pub struct RequestLineView {
    pub method: RequestMethod,
    pub path: Seq<char>,
    pub version: HTTPVersion,
}

/// A request line is exactly three tokens separated by single spaces: a known
/// method (else 501), a path in UTF-8 and `HTTP/1.1` (else 400).
pub open spec fn request_line_spec(b: Seq<u8>) -> Result<RequestLineView, u16> {
    match find_pat(b, space(), 0) {
        None => Err(400),
        Some(i) => match find_pat(b, space(), i + 1) {
            None => Err(400),
            Some(j) => if find_pat(b, space(), j + 1) is Some {
                Err(400)
            } else {
                let m = b.subrange(0, i as int);
                let p = b.subrange(i + 1int, j as int);
                let v = b.subrange(j + 1int, b.len() as int);
                match method_of(m) {
                    None => Err(501),
                    Some(method) => if v != encode_utf8(version_text(HTTPVersion::V1_1)) {
                        Err(400)
                    } else if !valid_utf8(p) {
                        Err(400)
                    } else {
                        Ok(RequestLineView { method, path: decode_utf8(p), version: HTTPVersion::V1_1 })
                    },
                }
            },
        },
    }
}

#[derive(Debug, Clone, PartialEq, Eq)]
pub struct RequestLine {
    pub method: RequestMethod,
    pub path: String,
    pub version: HTTPVersion,
}

impl View for RequestLine {
    type V = RequestLineView;

    open spec fn view(&self) -> RequestLineView {
        RequestLineView { method: self.method, path: self.path@, version: self.version }
    }
}

/// Relates a parse result to its specification.
pub open spec fn line_parsed_as(r: Result<RequestLine, RequestParseError>, s: Result<RequestLineView, u16>) -> bool {
    match r {
        Ok(l) => s == Ok::<RequestLineView, u16>(l@),
        Err(e) => s == Err::<RequestLineView, u16>(e.0),
    }
}

impl RequestLine {
    pub fn new(method: RequestMethod, path: &str, version: HTTPVersion) -> (r: RequestLine)
        ensures
            r.method == method,
            r.path@ == path@,
            r.version == version,
    {
        RequestLine { method, path: path.to_owned(), version }
    }

    /// Parses a request line given as text.
    pub fn parse(line: &str) -> (r: Result<RequestLine, RequestParseError>)
        ensures
            line_parsed_as(r, request_line_spec(encode_utf8(line@))),
    {
        Self::parse_bytes(line.as_bytes())
    }

    /// Parses a request line given as bytes, without its CRLF.
    pub fn parse_bytes(b: &[u8]) -> (r: Result<RequestLine, RequestParseError>)
        ensures
            line_parsed_as(r, request_line_spec(b@)),
    {
        let bl = b.len();
        let sp = vec![0x20u8];
        assert(sp@ == space());
        let i = match find_pattern(b, sp.as_slice(), 0) {
            None => {
                return Err(bad_request());
            },
            Some(i) => i,
        };
        proof {
            crate::bytes::lemma_find_pat_found(b@, space(), 0);
        }
        let j = match find_pattern(b, sp.as_slice(), i + 1) {
            None => {
                return Err(bad_request());
            },
            Some(j) => j,
        };
        proof {
            crate::bytes::lemma_find_pat_found(b@, space(), (i + 1) as nat);
        }
        if find_pattern(b, sp.as_slice(), j + 1).is_some() {
            return Err(bad_request());
        }
        let m = vstd::slice::slice_subrange(b, 0, i);
        let p = vstd::slice::slice_subrange(b, i + 1, j);
        let v = vstd::slice::slice_subrange(b, j + 1, b.len());
        let method = RequestMethod::from_bytes(m)?;
        if HTTPVersion::from_bytes(v).is_none() {
            return Err(bad_request());
        }
        match string_from_utf8(vstd::slice::slice_to_vec(p)) {
            None => Err(bad_request()),
            Some(path) => Ok(RequestLine { method, path, version: HTTPVersion::V1_1 }),
        }
    }
}

pub open spec fn colon() -> Seq<u8> {
    seq![0x3au8]
}

/// A header line is `name:value`, both UTF-8 (else 400); the name may not
/// have surrounding white space (else 400), and the value is trimmed of it.
pub open spec fn header_line_spec(b: Seq<u8>) -> Result<(Seq<char>, Seq<char>), u16> {
    match find_pat(b, colon(), 0) {
        None => Err(400),
        Some(c) => {
            let name = b.subrange(0, c as int);
            let value = b.subrange(c + 1int, b.len() as int);
            if !valid_utf8(name) || !valid_utf8(value) || trim(decode_utf8(name)) != decode_utf8(name) {
                Err(400)
            } else {
                Ok((decode_utf8(name), trim(decode_utf8(value))))
            }
        },
    }
}

/// The header map that a sequence of header lines gives, a later line winning
/// over an earlier one with the same name; 400 if any line is malformed.
pub open spec fn headers_spec(lines: Seq<Seq<u8>>) -> Result<Map<Seq<char>, Seq<char>>, u16>
    decreases lines.len(),
{
    if lines.len() == 0 {
        Ok(Map::empty())
    } else {
        match headers_spec(lines.drop_last()) {
            Err(e) => Err(e),
            Ok(m) => match header_line_spec(lines.last()) {
                Err(e) => Err(e),
                Ok((k, v)) => Ok(m.insert(k, v)),
            },
        }
    }
}

/// What trimming leaves does not end in white space.
proof fn lemma_trim_end_no_ws(y: Seq<char>)
    ensures
        trim_end(y).len() == 0 || !is_white_space(trim_end(y).last()),
    decreases y.len(),
{
    if y.len() > 0 && is_white_space(y.last()) {
        lemma_trim_end_no_ws(y.drop_last());
    }
}

/// A header line whose field name ends in white space before the first colon
/// (`Content-Type : text/plain`) is refused with 400.
pub proof fn lemma_space_before_colon_rejected(b: Seq<u8>, c: nat)
    requires
        0 < c < b.len(),
        b[c as int] == 0x3a,
        forall|i: int| 0 <= i < c ==> b[i] != 0x3a,
        b[c - 1] == 0x20 || b[c - 1] == 0x09,
    ensures
        header_line_spec(b) == Err::<(Seq<char>, Seq<char>), u16>(400),
{
    crate::bytes::lemma_find_pat_found(b, colon(), 0);
    assert(b.subrange(c as int, c + 1int) == colon());
    let i = find_pat(b, colon(), 0)->0;
    assert(b.subrange(i as int, i + 1int)[0] == b[i as int]);
    let name = b.subrange(0, c as int);
    if valid_utf8(name) {
        let k = c - 1;
        vstd::utf8::is_char_boundary_iff_not_is_continuation_byte(name, k);
        vstd::utf8::decode_utf8_split(name, k);
        let tail = name.subrange(k, c as int);
        let ch = if b[c - 1] == 0x20 { ' ' } else { '\t' };
        let cs = seq![ch];
        vstd::utf8::is_ascii_chars_encode_utf8(cs);
        assert(encode_utf8(cs) =~= tail);
        vstd::utf8::encode_utf8_decode_utf8(cs);
        assert(decode_utf8(name).last() == ch);
        lemma_trim_end_no_ws(trim_start(decode_utf8(name)));
    }
}

/// Parses one header line.
pub fn parse_header_line(b: &[u8]) -> (r: Result<(String, String), RequestParseError>)
    ensures
        r matches Ok((k, v)) ==> header_line_spec(b@) == Ok::<(Seq<char>, Seq<char>), u16>((k@, v@)),
        r matches Err(e) ==> header_line_spec(b@) == Err::<(Seq<char>, Seq<char>), u16>(e.0),
{
    let bl = b.len();
    let col = vec![0x3au8];
    assert(col@ == colon());
    let c = match find_pattern(b, col.as_slice(), 0) {
        None => {
            return Err(bad_request());
        },
        Some(c) => c,
    };
    proof {
        crate::bytes::lemma_find_pat_found(b@, colon(), 0);
    }
    let name = vstd::slice::slice_subrange(b, 0, c);
    let value = vstd::slice::slice_subrange(b, c + 1, b.len());
    let k = match string_from_utf8(vstd::slice::slice_to_vec(name)) {
        None => {
            return Err(bad_request());
        },
        Some(k) => k,
    };
    let v = match string_from_utf8(vstd::slice::slice_to_vec(value)) {
        None => {
            return Err(bad_request());
        },
        Some(v) => v,
    };
    if trim_str(k.as_str()).to_owned() != k {
        return Err(bad_request());
    }
    let v = trim_str(v.as_str()).to_owned();
    Ok((k, v))
}

/// The header fields of a request.
#[derive(Debug, Clone)]
pub struct RequestHeaders(pub HeaderMap);

/// Relates a header parse result to its specification.
pub open spec fn headers_parsed_as(r: Result<RequestHeaders, RequestParseError>, s: Result<Map<Seq<char>, Seq<char>>, u16>) -> bool {
    match r {
        Ok(h) => h.wf() && s == Ok::<Map<Seq<char>, Seq<char>>, u16>(h.view()),
        Err(e) => s == Err::<Map<Seq<char>, Seq<char>>, u16>(e.0),
    }
}

impl RequestHeaders {
    pub open spec fn wf(&self) -> bool {
        self.0.wf()
    }

    pub open spec fn view(&self) -> Map<Seq<char>, Seq<char>> {
        self.0@
    }

    pub fn new() -> (r: RequestHeaders)
        ensures
            r.wf(),
            r.view() == Map::<Seq<char>, Seq<char>>::empty(),
    {
        RequestHeaders(HeaderMap::new())
    }

    /// Headers from name and value pairs; a later pair wins over an earlier one
    /// with the same name.
    pub fn from<const N: usize>(arr: [(&str, &str); N]) -> (r: RequestHeaders)
        ensures
            r.wf(),
            r.view() == str_pairs_map(arr@),
    {
        let mut headers = HeaderMap::new();
        let mut i: usize = 0;
        while i < N
            invariant
                i <= N,
                arr@.len() == N,
                headers.wf(),
                headers@ == str_pairs_map(arr@.subrange(0, i as int)),
            decreases N - i,
        {
            let k = arr[i].0.to_owned();
            let v = arr[i].1.to_owned();
            headers.insert(k, v);
            assert(arr@.subrange(0, i + 1).drop_last() =~= arr@.subrange(0, i as int));
            i = i + 1;
        }
        assert(arr@.subrange(0, N as int) =~= arr@);
        RequestHeaders(headers)
    }

    pub fn get(&self, key: &str) -> (r: Option<&str>)
        requires
            self.wf(),
        ensures
            r is Some <==> self.view().contains_key(key@),
            r matches Some(v) ==> v@ == self.view()[key@],
    {
        self.0.get(key)
    }

    pub fn insert(&mut self, key: String, value: String) -> (r: Option<String>)
        requires
            old(self).wf(),
        ensures
            final(self).wf(),
            final(self).view() == old(self).view().insert(key@, value@),
            r is Some <==> old(self).view().contains_key(key@),
            r matches Some(v) ==> v@ == old(self).view()[key@],
    {
        self.0.insert(key, value)
    }

    pub fn remove(&mut self, key: &str) -> (r: Option<String>)
        requires
            old(self).wf(),
        ensures
            final(self).wf(),
            final(self).view() == old(self).view().remove(key@),
            r is Some <==> old(self).view().contains_key(key@),
    {
        self.0.remove(key)
    }

    pub fn len(&self) -> (r: usize)
        requires
            self.wf(),
        ensures
            r == self.view().len(),
    {
        self.0.len()
    }

    /// Parses header lines given as text.
    pub fn parse(lines: &[&str]) -> (r: Result<RequestHeaders, RequestParseError>)
        ensures
            headers_parsed_as(r, headers_spec(lines@.map_values(|l: &str| encode_utf8(l@)))),
    {
        let mut byte_lines: Vec<Vec<u8>> = Vec::new();
        let mut i: usize = 0;
        while i < lines.len()
            invariant
                i <= lines@.len(),
                byte_lines@.len() == i,
                forall|j: int| 0 <= j < i ==> (#[trigger] byte_lines@[j])@ == encode_utf8(lines@[j]@),
            decreases lines@.len() - i,
        {
            byte_lines.push(vstd::slice::slice_to_vec(lines[i].as_bytes()));
            i = i + 1;
        }
        assert(byte_lines@.map_values(|l: Vec<u8>| l@) =~= lines@.map_values(|l: &str| encode_utf8(l@)));
        Self::parse_byte_lines(&byte_lines)
    }

    /// Parses header lines given as bytes, each without its CRLF.
    pub fn parse_byte_lines(lines: &Vec<Vec<u8>>) -> (r: Result<RequestHeaders, RequestParseError>)
        ensures
            headers_parsed_as(r, headers_spec(lines@.map_values(|l: Vec<u8>| l@))),
    {
        let ghost all = lines@.map_values(|l: Vec<u8>| l@);
        let mut headers = RequestHeaders::new();
        let mut i: usize = 0;
        while i < lines.len()
            invariant
                i <= lines@.len(),
                all == lines@.map_values(|l: Vec<u8>| l@),
                headers.wf(),
                headers_spec(all.subrange(0, i as int)) == Ok::<Map<Seq<char>, Seq<char>>, u16>(headers.view()),
            decreases lines@.len() - i,
        {
            assert(all.subrange(0, i + 1).drop_last() =~= all.subrange(0, i as int));
            assert(all.subrange(0, i + 1).last() == lines@[i as int]@);
            match parse_header_line(lines[i].as_slice()) {
                Ok((k, v)) => {
                    headers.insert(k, v);
                },
                Err(e) => {
                    proof {
                        lemma_headers_error_sticks(all, i as nat + 1);
                    }
                    assert(all.subrange(0, all.len() as int) =~= all);
                    return Err(e);
                },
            }
            i = i + 1;
        }
        assert(all.subrange(0, all.len() as int) =~= all);
        Ok(headers)
    }
}

/// Once a line fails, the whole block fails with the same code.
proof fn lemma_headers_error_sticks(all: Seq<Seq<u8>>, n: nat)
    requires
        n <= all.len(),
        headers_spec(all.subrange(0, n as int)) is Err,
    ensures
        headers_spec(all.subrange(0, all.len() as int)) == headers_spec(all.subrange(0, n as int)),
    decreases all.len() - n,
{
    if n < all.len() {
        assert(all.subrange(0, n + 1int).drop_last() =~= all.subrange(0, n as int));
        lemma_headers_error_sticks(all, n + 1);
    }
}

/// The map that name and value pairs give, a later pair winning.
pub open spec fn str_pairs_map(s: Seq<(&str, &str)>) -> Map<Seq<char>, Seq<char>>
    decreases s.len(),
{
    if s.len() == 0 {
        Map::empty()
    } else {
        str_pairs_map(s.drop_last()).insert(s.last().0@, s.last().1@)
    }
}

} // verus!

verus! {

/// The bytes of a request body.
#[derive(Debug, Clone, PartialEq, Eq)]
pub struct RequestBody(pub Vec<u8>);

impl RequestBody {
    pub fn new(v: Vec<u8>) -> (r: RequestBody)
        ensures
            r.0@ == v@,
    {
        RequestBody(v)
    }

    /// The body as text, if it is UTF-8.
    pub fn parse(&self) -> (r: Option<String>)
        ensures
            r is Some <==> valid_utf8(self.0@),
            r matches Some(s) ==> s@ == decode_utf8(self.0@),
    {
        string_from_utf8(vstd::slice::slice_to_vec(self.0.as_slice()))
    }
}

/// What a request holds.
pub struct RequestView {
    pub line: RequestLineView,
    pub headers: Map<Seq<char>, Seq<char>>,
    pub body: Seq<u8>,
}

#[derive(Debug, Clone)]
pub struct Request {
    pub request_line: RequestLine,
    pub headers: RequestHeaders,
    pub body: RequestBody,
}

impl View for Request {
    type V = RequestView;

    open spec fn view(&self) -> RequestView {
        RequestView { line: self.request_line@, headers: self.headers.view(), body: self.body.0@ }
    }
}

impl Request {
    pub open spec fn wf(&self) -> bool {
        self.headers.wf()
    }

    pub fn new(request_line: RequestLine, headers: RequestHeaders, body: RequestBody) -> (r: Request)
        ensures
            r.request_line == request_line,
            r.headers == headers,
            r.body == body,
    {
        Request { request_line, headers, body }
    }

    pub fn get_method(&self) -> (r: &RequestMethod)
        ensures
            *r == self.request_line.method,
    {
        &self.request_line.method
    }

    pub fn get_path(&self) -> (r: &str)
        ensures
            r@ == self.request_line.path@,
    {
        self.request_line.path.as_str()
    }

    pub fn get_headers(&self) -> (r: &RequestHeaders)
        ensures
            *r == self.headers,
    {
        &self.headers
    }

    pub fn get_body(&self) -> (r: &[u8])
        ensures
            r@ == self.body.0@,
    {
        self.body.0.as_slice()
    }

    pub fn get_header(&self, key: &str) -> (r: Option<&str>)
        requires
            self.wf(),
        ensures
            r is Some <==> self.headers.view().contains_key(key@),
            r matches Some(v) ==> v@ == self.headers.view()[key@],
    {
        self.headers.get(key)
    }

    /// The value under `key`, lowercased.
    pub fn get_header_lc(&self, key: &str) -> (r: Option<String>)
        requires
            self.wf(),
        ensures
            r is Some <==> self.headers.view().contains_key(key@),
            r matches Some(v) ==> v@ == lower_of(self.headers.view()[key@]),
    {
        match self.headers.get(key) {
            Some(v) => Some(to_lowercase(v)),
            None => None,
        }
    }

    pub fn insert_header(&mut self, key: String, value: String) -> (r: Option<String>)
        requires
            old(self).wf(),
        ensures
            final(self).wf(),
            final(self).headers.view() == old(self).headers.view().insert(key@, value@),
            final(self).request_line == old(self).request_line,
            final(self).body == old(self).body,
            r is Some <==> old(self).headers.view().contains_key(key@),
    {
        self.headers.insert(key, value)
    }

    pub fn remove_header(&mut self, key: &str) -> (r: Option<String>)
        requires
            old(self).wf(),
        ensures
            final(self).wf(),
            final(self).headers.view() == old(self).headers.view().remove(key@),
            final(self).request_line == old(self).request_line,
            final(self).body == old(self).body,
            r is Some <==> old(self).headers.view().contains_key(key@),
    {
        self.headers.remove(key)
    }
}

} // verus!
