//! Reading one request from a byte stream that arrives in pieces of any size.
//!
//! The reader keeps every byte received so far. What it reports is a function
//! of those bytes alone, so the way the stream was cut into reads makes no
//! difference.

use vstd::prelude::*;
use vstd::utf8::encode_utf8;
use crate::bytes::{
    append_bytes, crlf, crlf2, decimal_spec, find_pat, find_pattern, lemma_find_pat_extend, lemma_find_pat_found,
    parse_decimal, split_bytes, split_pat,
};
use crate::request::{
    Request, RequestBody, RequestHeaders, RequestLine, RequestParseError, RequestView,
    headers_parsed_as, headers_spec, line_parsed_as, request_line_spec,
};
use crate::response::ResponseStatus;

verus! {

broadcast use vstd::std_specs::vec::group_vec_axioms;

/// The header lines between the request line's CRLF at `p` and the blank line
/// that starts at `q`.
pub open spec fn header_lines(b: Seq<u8>, p: nat, q: nat) -> Seq<Seq<u8>> {
    if q == p {
        Seq::empty()
    } else {
        split_pat(b.subrange(p + 2int, q as int), crlf())
    }
}

/// The body length that the headers announce: `Content-Length`, or 0 when it
/// is absent; 400 when it is not a decimal `usize`.
pub open spec fn content_length_spec(h: Map<Seq<char>, Seq<char>>) -> Result<nat, u16> {
    if h.contains_key("Content-Length"@) {
        match decimal_spec(encode_utf8(h["Content-Length"@])) {
            Some(n) => Ok(n),
            None => Err(400),
        }
    } else {
        Ok(0)
    }
}

/// Where reading a request from the bytes so far stands.
pub enum ParseOutcome {
    /// More bytes are needed.
    Incomplete,
    /// The request is refused with this status code.
    Failed(u16),
    /// A whole request, and the number of bytes it takes.
    Complete(RequestView, nat),
}

/// Reading a request from the start of `b`: the request line up to the first
/// CRLF, the header lines up to the first blank line, then as many body bytes
/// as `Content-Length` says. Bytes after the body are left alone.
pub open spec fn parse_request_spec(b: Seq<u8>) -> ParseOutcome {
    match find_pat(b, crlf(), 0) {
        None => ParseOutcome::Incomplete,
        Some(p) => match request_line_spec(b.subrange(0, p as int)) {
            Err(c) => ParseOutcome::Failed(c),
            Ok(line) => match find_pat(b, crlf2(), p) {
                None => ParseOutcome::Incomplete,
                Some(q) => match headers_spec(header_lines(b, p, q)) {
                    Err(c) => ParseOutcome::Failed(c),
                    Ok(h) => match content_length_spec(h) {
                        Err(c) => ParseOutcome::Failed(c),
                        Ok(n) => if b.len() < q + 4 + n {
                            ParseOutcome::Incomplete
                        } else {
                            ParseOutcome::Complete(
                                RequestView { line, headers: h, body: b.subrange(q + 4int, q + 4int + n) },
                                q + 4 + n,
                            )
                        },
                    },
                },
            },
        },
    }
}

/// The executable counterpart of `ParseOutcome`.
pub enum RequestParse {
    Incomplete,
    Failed(RequestParseError),
    Complete(Request, usize),
}

pub open spec fn parse_matches(r: RequestParse, s: ParseOutcome) -> bool {
    match r {
        RequestParse::Incomplete => s is Incomplete,
        RequestParse::Failed(e) => s == ParseOutcome::Failed(e.0),
        RequestParse::Complete(req, n) => req.wf() && s == ParseOutcome::Complete(req@, n as nat),
    }
}

fn error_with(code: u16) -> (r: RequestParseError)
    ensures
        r.0 == code,
{
    if code == 400 {
        RequestParseError::new(ResponseStatus::BadRequest, "Bad Request")
    } else if code == 501 {
        RequestParseError::new(ResponseStatus::NotImplemented, "Not Implemented")
    } else {
        RequestParseError(code, "Internal Server Error".to_string())
    }
}

/// Reads a request from the start of `b`.
pub fn parse_request_bytes(b: &[u8]) -> (r: RequestParse)
    ensures
        parse_matches(r, parse_request_spec(b@)),
{
    let bl = b.len();
    let (p, line) = match RequestReader::read_request_line(b) {
        None => {
            return RequestParse::Incomplete;
        },
        Some(found) => found,
    };
    let line = match line {
        Err(e) => {
            return RequestParse::Failed(e);
        },
        Ok(line) => line,
    };
    let (q, headers) = match RequestReader::read_request_headers(b, p) {
        None => {
            return RequestParse::Incomplete;
        },
        Some(found) => found,
    };
    let headers = match headers {
        Err(e) => {
            return RequestParse::Failed(e);
        },
        Ok(h) => h,
    };
    match RequestReader::read_request_body(b, q + 4, &headers) {
        None => RequestParse::Incomplete,
        Some(Err(e)) => RequestParse::Failed(e),
        Some(Ok(body)) => {
            let n = body.0.len();
            RequestParse::Complete(Request { request_line: line, headers, body }, q + 4 + n)
        },
    }
}

/// Whether reading has come to an end, well or not.
pub open spec fn is_final(o: ParseOutcome) -> bool {
    !(o is Incomplete)
}

/// A finished outcome does not change when more bytes arrive.
pub proof fn lemma_parse_extend(a: Seq<u8>, c: Seq<u8>)
    requires
        is_final(parse_request_spec(a)),
    ensures
        parse_request_spec(a + c) == parse_request_spec(a),
{
    let b = a + c;
    let p = find_pat(a, crlf(), 0)->0;
    lemma_find_pat_extend(a, c, crlf(), 0);
    lemma_find_pat_found(a, crlf(), 0);
    assert(b.subrange(0, p as int) == a.subrange(0, p as int));
    if request_line_spec(a.subrange(0, p as int)) is Ok {
        let q = find_pat(a, crlf2(), p)->0;
        lemma_find_pat_extend(a, c, crlf2(), p);
        lemma_find_pat_found(a, crlf2(), p);
        if q != p {
            assert(b.subrange(p + 2int, q as int) == a.subrange(p + 2int, q as int));
        }
        assert(header_lines(b, p, q) == header_lines(a, p, q));
        match headers_spec(header_lines(a, p, q)) {
            Ok(h) => match content_length_spec(h) {
                Ok(n) => {
                    assert(b.subrange(q + 4int, q + 4int + n) == a.subrange(q + 4int, q + 4int + n));
                },
                Err(_) => {},
            },
            Err(_) => {},
        }
    }
}

/// A complete request takes no more bytes than there are.
pub proof fn lemma_complete_within(b: Seq<u8>)
    ensures
        parse_request_spec(b) matches ParseOutcome::Complete(_, n) ==> n <= b.len(),
{
}

/// The state of a reader: every byte received, and whether the peer has
/// closed the stream.
pub struct ReaderView {
    pub received: Seq<u8>,
    pub closed: bool,
}

/// What a reader reports: a close before the request is whole is an internal
/// error (500).
pub open spec fn reader_outcome(v: ReaderView) -> ParseOutcome {
    let o = parse_request_spec(v.received);
    if v.closed && o is Incomplete {
        ParseOutcome::Failed(500)
    } else {
        o
    }
}

/// One read: an empty one means that the peer closed the stream. Once the
/// outcome is final, reads change nothing.
pub open spec fn feed_spec(v: ReaderView, chunk: Seq<u8>) -> ReaderView {
    if is_final(reader_outcome(v)) {
        v
    } else if chunk.len() == 0 {
        ReaderView { received: v.received, closed: true }
    } else {
        ReaderView { received: v.received + chunk, closed: false }
    }
}

/// Reads one after the other.
pub open spec fn feed_all(v: ReaderView, chunks: Seq<Seq<u8>>) -> ReaderView
    decreases chunks.len(),
{
    if chunks.len() == 0 {
        v
    } else {
        feed_spec(feed_all(v, chunks.drop_last()), chunks.last())
    }
}

pub open spec fn concat_all(chunks: Seq<Seq<u8>>) -> Seq<u8>
    decreases chunks.len(),
{
    if chunks.len() == 0 {
        Seq::empty()
    } else {
        concat_all(chunks.drop_last()) + chunks.last()
    }
}

pub open spec fn fresh_reader() -> ReaderView {
    ReaderView { received: Seq::empty(), closed: false }
}

proof fn lemma_feed_all_state(chunks: Seq<Seq<u8>>)
    requires
        forall|i: int| 0 <= i < chunks.len() ==> (#[trigger] chunks[i]).len() > 0,
    ensures
        ({
            let v = feed_all(fresh_reader(), chunks);
            &&& !v.closed
            &&& is_final(parse_request_spec(v.received)) ==> parse_request_spec(v.received)
                == parse_request_spec(concat_all(chunks))
            &&& !is_final(parse_request_spec(v.received)) ==> v.received == concat_all(chunks)
        }),
    decreases chunks.len(),
{
    if chunks.len() > 0 {
        let t = chunks.drop_last();
        assert forall|i: int| 0 <= i < t.len() implies (#[trigger] t[i]).len() > 0 by {
            assert(t[i] == chunks[i]);
        }
        lemma_feed_all_state(t);
        let v = feed_all(fresh_reader(), t);
        assert(chunks.last() == chunks[chunks.len() - 1]);
        if is_final(parse_request_spec(v.received)) {
            lemma_parse_extend(concat_all(t), chunks.last());
        }
    }
}

/// A request delivered in several non-empty reads is read exactly as the same
/// bytes delivered in one read.
pub proof fn lemma_reads_split_freely(chunks: Seq<Seq<u8>>)
    requires
        forall|i: int| 0 <= i < chunks.len() ==> (#[trigger] chunks[i]).len() > 0,
        concat_all(chunks).len() > 0,
    ensures
        reader_outcome(feed_all(fresh_reader(), chunks))
            == reader_outcome(feed_spec(fresh_reader(), concat_all(chunks))),
{
    lemma_feed_all_state(chunks);
    assert(Seq::<u8>::empty() + concat_all(chunks) =~= concat_all(chunks));
}

/// Reads one request from the pieces of a stream handed to it.
pub struct RequestReader {
    received: Vec<u8>,
    closed: bool,
    outcome: RequestParse,
}

impl RequestReader {
    pub closed spec fn view(&self) -> ReaderView {
        ReaderView { received: self.received@, closed: self.closed }
    }

    pub closed spec fn wf(&self) -> bool {
        &&& !self.closed ==> parse_matches(self.outcome, parse_request_spec(self.received@))
        &&& self.closed ==> (self.outcome matches RequestParse::Failed(e) && e.0 == 500)
        &&& self.closed ==> parse_request_spec(self.received@) is Incomplete
    }

    /// The request line: the bytes of `buf` before its first CRLF. `None`
    /// until a CRLF has arrived; then the index of that CRLF and the line.
    pub fn read_request_line(buf: &[u8]) -> (r: Option<(usize, Result<RequestLine, RequestParseError>)>)
        ensures
            r is None <==> find_pat(buf@, crlf(), 0) is None,
            r matches Some((p, x)) ==> find_pat(buf@, crlf(), 0) == Some(p as nat) && p + 2 <= buf@.len()
                && buf@.subrange(p as int, p + 2int) == crlf()
                && line_parsed_as(x, request_line_spec(buf@.subrange(0, p as int))),
    {
        let pat = vec![0x0du8, 0x0au8];
        assert(pat@ == crlf());
        let p = match find_pattern(buf, pat.as_slice(), 0) {
            None => {
                return None;
            },
            Some(p) => p,
        };
        proof {
            lemma_find_pat_found(buf@, crlf(), 0);
        }
        Some((p, RequestLine::parse_bytes(vstd::slice::slice_subrange(buf, 0, p))))
    }

    /// The header block that follows the request line's CRLF at `p`, up to
    /// the first blank line. `None` until the blank line has arrived; then the
    /// index where the blank line's CRLF CRLF starts, and the headers.
    pub fn read_request_headers(buf: &[u8], p: usize) -> (r: Option<(usize, Result<RequestHeaders, RequestParseError>)>)
        requires
            p + 2 <= buf@.len(),
            buf@.subrange(p as int, p + 2int) == crlf(),
        ensures
            r is None <==> find_pat(buf@, crlf2(), p as nat) is None,
            r matches Some((q, x)) ==> find_pat(buf@, crlf2(), p as nat) == Some(q as nat) && q + 4 <= buf@.len()
                && headers_parsed_as(x, headers_spec(header_lines(buf@, p as nat, q as nat))),
    {
        let bl = buf.len();
        let pat1 = vec![0x0du8, 0x0au8];
        let pat2 = vec![0x0du8, 0x0au8, 0x0du8, 0x0au8];
        assert(pat1@ == crlf());
        assert(pat2@ == crlf2());
        let q = match find_pattern(buf, pat2.as_slice(), p) {
            None => {
                return None;
            },
            Some(q) => q,
        };
        proof {
            lemma_find_pat_found(buf@, crlf2(), p as nat);
            if q != p {
                assert(buf@.subrange(p as int, p + 2int)[1] == 0x0au8);
                if q == p + 1 {
                    assert(buf@.subrange(q as int, q + 4int)[0] == buf@[q as int]);
                }
            }
        }
        let lines = if q == p {
            Vec::new()
        } else {
            split_bytes(vstd::slice::slice_subrange(buf, p + 2, q), pat1.as_slice())
        };
        assert(lines@.map_values(|l: Vec<u8>| l@) =~= header_lines(buf@, p as nat, q as nat));
        Some((q, RequestHeaders::parse_byte_lines(&lines)))
    }

    /// The body, which starts at `start`: as many bytes as `Content-Length`
    /// says (none when it is absent). `None` until they have all arrived.
    pub fn read_request_body(buf: &[u8], start: usize, headers: &RequestHeaders) -> (r: Option<Result<RequestBody, RequestParseError>>)
        requires
            start <= buf@.len(),
            headers.wf(),
        ensures
            match content_length_spec(headers.view()) {
                Err(c) => (r matches Some(Err(e)) && e.0 == c),
                Ok(n) => if buf@.len() < start + n {
                    r is None
                } else {
                    (r matches Some(Ok(body)) && body.0@ == buf@.subrange(start as int, start + n))
                },
            },
    {
        let n = match headers.get("Content-Length") {
            None => 0,
            Some(v) => match parse_decimal(v.as_bytes()) {
                None => {
                    return Some(Err(error_with(400)));
                },
                Some(n) => n,
            },
        };
        if buf.len() - start < n {
            return None;
        }
        Some(Ok(RequestBody(vstd::slice::slice_to_vec(vstd::slice::slice_subrange(buf, start, start + n)))))
    }

    pub fn new() -> (r: RequestReader)
        ensures
            r.wf(),
            r.view() == fresh_reader(),
    {
        let r = RequestReader { received: Vec::new(), closed: false, outcome: RequestParse::Incomplete };
        assert(find_pat(r.received@, crlf(), 0) is None);
        r
    }

    /// Hands over the bytes of one read; an empty read means the peer closed
    /// the stream. Returns whether the request is complete, or why it fails.
    pub fn feed(&mut self, chunk: &[u8]) -> (r: Result<bool, RequestParseError>)
        requires
            old(self).wf(),
        ensures
            final(self).wf(),
            final(self).view() == feed_spec(old(self).view(), chunk@),
            match reader_outcome(final(self).view()) {
                ParseOutcome::Incomplete => r == Ok::<bool, RequestParseError>(false),
                ParseOutcome::Complete(_, _) => r == Ok::<bool, RequestParseError>(true),
                ParseOutcome::Failed(c) => (r matches Err(e) && e.0 == c),
            },
    {
        match &self.outcome {
            RequestParse::Complete(_, _) => {
                return Ok(true);
            },
            RequestParse::Failed(e) => {
                return Err(error_with(e.0));
            },
            RequestParse::Incomplete => {},
        }
        if chunk.len() == 0 {
            self.closed = true;
            self.outcome = RequestParse::Failed(error_with(500));
            return Err(error_with(500));
        }
        append_bytes(&mut self.received, chunk);
        self.outcome = parse_request_bytes(self.received.as_slice());
        match &self.outcome {
            RequestParse::Complete(_, _) => Ok(true),
            RequestParse::Failed(e) => Err(error_with(e.0)),
            RequestParse::Incomplete => Ok(false),
        }
    }

    /// The request, once it is complete, and the bytes that arrived after it
    /// (the start of what the peer sends next).
    pub fn into_parts(self) -> (r: Option<(Request, Vec<u8>)>)
        requires
            self.wf(),
        ensures
            r is Some <==> reader_outcome(self.view()) is Complete,
            r matches Some((req, rest)) ==> req.wf() && (reader_outcome(self.view()) matches ParseOutcome::Complete(v, n)
                && req@ == v && rest@ == self.view().received.subrange(n as int, self.view().received.len() as int)),
    {
        let ghost received = self.received@;
        match self.outcome {
            RequestParse::Complete(req, n) => {
                proof {
                    lemma_complete_within(received);
                }
                let rest = vstd::slice::slice_to_vec(vstd::slice::slice_subrange(self.received.as_slice(), n, self.received.len()));
                Some((req, rest))
            },
            _ => None,
        }
    }

    /// The request, once it is complete.
    pub fn to_request(self) -> (r: Option<Request>)
        requires
            self.wf(),
        ensures
            r is Some <==> reader_outcome(self.view()) is Complete,
            r matches Some(req) ==> req.wf() && (reader_outcome(self.view()) matches ParseOutcome::Complete(v, _) && req@ == v),
    {
        match self.outcome {
            RequestParse::Complete(req, _) => Some(req),
            _ => None,
        }
    }
}

} // verus!

verus! {

impl Request {
    /// Reads a request from everything a peer sent. A request cut short is an
    /// internal error (500), as when the peer closes the stream early.
    pub fn parse(bytes: &[u8]) -> (r: Result<Request, RequestParseError>)
        ensures
            match parse_request_spec(bytes@) {
                ParseOutcome::Complete(v, _) => (r matches Ok(req) && req.wf() && req@ == v),
                ParseOutcome::Failed(c) => (r matches Err(e) && e.0 == c),
                ParseOutcome::Incomplete => (r matches Err(e) && e.0 == 500),
            },
    {
        match parse_request_bytes(bytes) {
            RequestParse::Complete(req, _) => Ok(req),
            RequestParse::Failed(e) => Err(e),
            RequestParse::Incomplete => Err(error_with(500)),
        }
    }
}

} // verus!
