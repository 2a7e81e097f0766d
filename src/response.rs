//! HTTP responses and their wire form.

use vstd::prelude::*;
use vstd::utf8::encode_utf8;
use crate::bytes::append_bytes;
use crate::common::{HTTPVersion, IMFDateTime, imf_in_range, imf_text_of, version_text};
use crate::header_map::{HeaderMap, encode_entries};

verus! {

broadcast use vstd::std_specs::vec::group_vec_axioms;

/// The statuses this server answers with.
#[derive(Debug, Clone, Copy, PartialEq, Eq, Structural)]
pub enum ResponseStatus {
    SwitchingProtocol,
    OK,
    BadRequest,
    InternalServerError,
    NotImplemented,
}

pub open spec fn status_code_of(s: ResponseStatus) -> u16 {
    match s {
        ResponseStatus::SwitchingProtocol => 101,
        ResponseStatus::OK => 200,
        ResponseStatus::BadRequest => 400,
        ResponseStatus::InternalServerError => 500,
        ResponseStatus::NotImplemented => 501,
    }
}

pub open spec fn reason_of(s: ResponseStatus) -> Seq<char> {
    match s {
        ResponseStatus::SwitchingProtocol => "Switching Protocol"@,
        ResponseStatus::OK => "OK"@,
        ResponseStatus::BadRequest => "Bad Request"@,
        ResponseStatus::InternalServerError => "Internal Server Error"@,
        ResponseStatus::NotImplemented => "Not Implemented"@,
    }
}

/// The three decimal digits of a status code.
pub open spec fn code_digits(c: u16) -> Seq<u8> {
    seq![(48 + c / 100) as u8, (48 + (c / 10) % 10) as u8, (48 + c % 10) as u8]
}

impl ResponseStatus {
    pub fn status_code(&self) -> (r: u16)
        ensures
            r == status_code_of(*self),
    {
        match self {
            ResponseStatus::SwitchingProtocol => 101,
            ResponseStatus::OK => 200,
            ResponseStatus::BadRequest => 400,
            ResponseStatus::InternalServerError => 500,
            ResponseStatus::NotImplemented => 501,
        }
    }

    pub fn reason_phrase(&self) -> (r: String)
        ensures
            r@ == reason_of(*self),
    {
        match self {
            ResponseStatus::SwitchingProtocol => "Switching Protocol".to_string(),
            ResponseStatus::OK => "OK".to_string(),
            ResponseStatus::BadRequest => "Bad Request".to_string(),
            ResponseStatus::InternalServerError => "Internal Server Error".to_string(),
            ResponseStatus::NotImplemented => "Not Implemented".to_string(),
        }
    }

    /// Whether the status is in the 5xx class.
    pub fn is_server_error(&self) -> (r: bool)
        ensures
            r == (status_code_of(*self) / 100 == 5),
    {
        self.status_code() / 100 == 5
    }
}

/// `<version> <code> <reason>`.
pub open spec fn status_line_bytes(l: StatusLine) -> Seq<u8> {
    encode_utf8(version_text(l.version)) + seq![0x20u8] + code_digits(status_code_of(l.status))
        + seq![0x20u8] + encode_utf8(reason_of(l.status))
}

#[derive(Debug, Clone, Copy)]
pub struct StatusLine {
    pub version: HTTPVersion,
    pub status: ResponseStatus,
}

impl StatusLine {
    pub fn new(version: HTTPVersion, status: ResponseStatus) -> (r: StatusLine)
        ensures
            r.version == version,
            r.status == status,
    {
        StatusLine { version, status }
    }

    pub fn get_status(&self) -> (r: &ResponseStatus)
        ensures
            *r == self.status,
    {
        &self.status
    }

    pub fn encode(&self) -> (r: Vec<u8>)
        ensures
            r@ == status_line_bytes(*self),
    {
        let mut res: Vec<u8> = Vec::new();
        append_bytes(&mut res, self.version.as_str().as_bytes());
        res.push(0x20u8);
        let c = self.status.status_code();
        res.push((48 + c / 100) as u8);
        res.push((48 + (c / 10) % 10) as u8);
        res.push((48 + c % 10) as u8);
        res.push(0x20u8);
        let reason = self.status.reason_phrase();
        append_bytes(&mut res, reason.as_str().as_bytes());
        assert(res@ =~= status_line_bytes(*self));
        res
    }
}

/// The header fields of a response.
#[derive(Debug)]
pub struct ResponseHeaders(pub HeaderMap);

impl ResponseHeaders {
    pub open spec fn wf(&self) -> bool {
        self.0.wf()
    }

    pub open spec fn view(&self) -> Map<Seq<char>, Seq<char>> {
        self.0@
    }

    pub fn new(headers: HeaderMap) -> (r: ResponseHeaders)
        ensures
            r.0 == headers,
    {
        ResponseHeaders(headers)
    }

    /// Headers from name and value pairs; a later pair wins over an earlier one
    /// with the same name.
    pub fn from<const N: usize>(arr: [(&str, String); N]) -> (r: ResponseHeaders)
        ensures
            r.wf(),
            r.view() == pairs_map(arr@),
    {
        let mut headers = HeaderMap::new();
        let mut i: usize = 0;
        while i < N
            invariant
                i <= N,
                arr@.len() == N,
                headers.wf(),
                headers@ == pairs_map(arr@.subrange(0, i as int)),
            decreases N - i,
        {
            let k = arr[i].0.to_owned();
            let v = arr[i].1.clone();
            headers.insert(k, v);
            assert(arr@.subrange(0, i + 1).drop_last() =~= arr@.subrange(0, i as int));
            i = i + 1;
        }
        assert(arr@.subrange(0, N as int) =~= arr@);
        ResponseHeaders(headers)
    }

    pub fn empty() -> (r: ResponseHeaders)
        ensures
            r.wf(),
            r.view() == Map::<Seq<char>, Seq<char>>::empty(),
    {
        ResponseHeaders(HeaderMap::new())
    }

    pub fn get(&self, key: &str) -> (r: Option<&str>)
        requires
            self.wf(),
        ensures
            r is Some <==> self.view().contains_key(key@),
            r matches Some(v) ==> v@ == self.view()[key@],
    {
        self.0.get(key)
    }

    pub fn insert(&mut self, key: String, value: String) -> (r: Option<String>)
        requires
            old(self).wf(),
        ensures
            final(self).wf(),
            final(self).view() == old(self).view().insert(key@, value@),
            r is Some <==> old(self).view().contains_key(key@),
            r matches Some(v) ==> v@ == old(self).view()[key@],
    {
        self.0.insert(key, value)
    }

    pub fn len(&self) -> (r: usize)
        requires
            self.wf(),
        ensures
            r == self.view().len(),
    {
        self.0.len()
    }

    /// One `name: value` line, CRLF-terminated, per header.
    pub fn encode(&self) -> (r: Vec<u8>)
        ensures
            r@ == encode_entries(self.0.entries_spec()),
    {
        let mut res: Vec<u8> = Vec::new();
        self.0.encode_into(&mut res);
        assert(res@ =~= encode_entries(self.0.entries_spec()));
        res
    }
}

/// The map that name and value pairs give, a later pair winning.
pub open spec fn pairs_map(s: Seq<(&str, String)>) -> Map<Seq<char>, Seq<char>>
    decreases s.len(),
{
    if s.len() == 0 {
        Map::empty()
    } else {
        pairs_map(s.drop_last()).insert(s.last().0@, s.last().1@)
    }
}

/// The bytes of a response body.
#[derive(Debug)]
pub struct ResponseBody(pub Vec<u8>);

impl ResponseBody {
    pub fn new(data: Vec<u8>) -> (r: ResponseBody)
        ensures
            r.0@ == data@,
    {
        ResponseBody(data)
    }

    /// Size in bytes.
    pub fn len(&self) -> (r: usize)
        ensures
            r == self.0@.len(),
    {
        self.0.len()
    }

    pub fn encode(&self) -> (r: Vec<u8>)
        ensures
            r@ == self.0@,
    {
        vstd::slice::slice_to_vec(self.0.as_slice())
    }
}

/// Status line, CRLF, header lines, CRLF, body.
pub open spec fn response_bytes(r: &Response) -> Seq<u8> {
    status_line_bytes(r.status_line) + seq![0x0du8, 0x0au8] + encode_entries(r.headers.0.entries_spec())
        + seq![0x0du8, 0x0au8] + r.body.0@
}

#[derive(Debug)]
pub struct Response {
    pub status_line: StatusLine,
    pub headers: ResponseHeaders,
    pub body: ResponseBody,
}

impl Response {
    pub fn new(status_line: StatusLine, headers: ResponseHeaders, body: ResponseBody) -> (r: Response)
        ensures
            r.status_line == status_line,
            r.headers == headers,
            r.body == body,
    {
        Response { status_line, headers, body }
    }

    pub fn get_status(&self) -> (r: &ResponseStatus)
        ensures
            *r == self.status_line.status,
    {
        self.status_line.get_status()
    }

    pub fn get_header(&self, key: &str) -> (r: Option<&str>)
        requires
            self.headers.wf(),
        ensures
            r is Some <==> self.headers.view().contains_key(key@),
            r matches Some(v) ==> v@ == self.headers.view()[key@],
    {
        self.headers.get(key)
    }

    /// Sets the `Date` header to `date`, when the date can be written.
    pub fn set_date(&mut self, date: &IMFDateTime)
        requires
            old(self).headers.wf(),
        ensures
            final(self).headers.wf(),
            final(self).status_line == old(self).status_line,
            final(self).body == old(self).body,
            imf_in_range(date.secs) ==> final(self).headers.view()
                == old(self).headers.view().insert("Date"@, imf_text_of(date.secs)),
            !imf_in_range(date.secs) ==> final(self).headers.view() == old(self).headers.view()
                || final(self).headers.view() == old(self).headers.view().insert("Date"@, imf_text_of(date.secs)),
    {
        match date.to_string() {
            Some(text) => {
                self.headers.insert("Date".to_owned(), text);
            },
            None => {},
        }
    }

    /// The wire form of the response.
    pub fn encode(&self) -> (r: Vec<u8>)
        ensures
            r@ == response_bytes(self),
    {
        let mut res = self.status_line.encode();
        res.push(0x0du8);
        res.push(0x0au8);
        self.headers.0.encode_into(&mut res);
        res.push(0x0du8);
        res.push(0x0au8);
        append_bytes(&mut res, self.body.0.as_slice());
        assert(res@ =~= response_bytes(self));
        res
    }
}

} // verus!
