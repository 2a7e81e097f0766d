use simple_ws_server::common::HTTPVersion;
use simple_ws_server::reader::{parse_request_bytes, RequestParse, RequestReader};
use simple_ws_server::request::{
    parse_header_line, Request, RequestHeaders, RequestLine, RequestMethod, RequestParseError,
};
use simple_ws_server::response::ResponseStatus;

#[test]
fn test_parse_request_line() {
    let str = "GET / HTTP/1.1";
    let actual = RequestLine::parse(str).unwrap();
    let expected = RequestLine::new(RequestMethod::GET, "/", HTTPVersion::V1_1);
    assert_eq!(actual, expected);
}

#[test]
fn test_parse_request_line_with_unsupported_method() {
    let str = "PATCH / HTTP/1.1";
    let actual = RequestLine::parse(str);
    assert!(matches!(actual, Err(RequestParseError(501, _))));
}

#[test]
fn test_parse_request_headers() {
    let ss = ["Content-Type: text/plain", "Content-Length: 0"];
    let actual = RequestHeaders::parse(&ss).unwrap();
    assert_eq!(actual.len(), 2);
    assert_eq!(actual.get("Content-Type"), Some("text/plain"));
    assert_eq!(actual.get("Content-Length"), Some("0"))
}

#[test]
fn test_parse_request_headers_with_illegal_format() {
    let ss = ["Content-Type : text/plain"];
    let actual = RequestHeaders::parse(&ss);
    assert!(matches!(actual, Err(RequestParseError(400, _))));
}

/// Feeds `bytes` to a reader in pieces of `step` bytes.
fn read_in_steps(bytes: &[u8], step: usize) -> Request {
    let mut reader = RequestReader::new();
    let mut done = false;
    for chunk in bytes.chunks(step) {
        done = reader.feed(chunk).unwrap();
        if done {
            break;
        }
    }
    assert!(done);
    reader.to_request().unwrap()
}

#[test]
fn test_parse_request_only_request_line() {
    let str = "GET / HTTP/1.1\r\n\r\n";
    let actual = read_in_steps(str.as_bytes(), str.len());
    assert_eq!(actual.request_line.method, RequestMethod::GET);
    assert_eq!(actual.headers.len(), 0)
}

#[test]
fn test_parse_request_post() {
    let str = [
        "POST / HTTP/1.1",
        "Content-Type: application/x-www-form-urlencoded",
        "Content-Length: 10",
        "",
        "name=alice",
    ]
    .join("\r\n");
    let actual = read_in_steps(str.as_bytes(), str.len());
    assert_eq!(actual.request_line.method, RequestMethod::POST);
    assert_eq!(actual.headers.get("Content-Type"), Some("application/x-www-form-urlencoded"));
    assert_eq!(&actual.body.parse().unwrap(), "name=alice")
}

fn same_request(a: &Request, b: &Request) {
    assert_eq!(a.request_line, b.request_line);
    assert_eq!(a.body, b.body);
    assert_eq!(a.headers.len(), b.headers.len());
    for (k, v) in a.headers.0.entries() {
        assert_eq!(b.headers.get(k), Some(v.as_str()));
    }
}

#[test]
fn byte_at_a_time_matches_one_read() {
    let get = "GET / HTTP/1.1\r\n\r\n";
    same_request(&read_in_steps(get.as_bytes(), 1), &read_in_steps(get.as_bytes(), get.len()));
    let post = "POST /form HTTP/1.1\r\nContent-Length: 10\r\nX-A: b\r\n\r\nname=alice";
    let one = read_in_steps(post.as_bytes(), post.len());
    for step in [1usize, 2, 3, 7] {
        same_request(&read_in_steps(post.as_bytes(), step), &one);
    }
    assert_eq!(one.get_body(), b"name=alice");
    assert_eq!(one.get_path(), "/form");
}

#[test]
fn request_waits_for_the_whole_body() {
    let mut reader = RequestReader::new();
    assert_eq!(reader.feed(b"POST / HTTP/1.1\r\nContent-Length: 4\r\n\r\nab").unwrap(), false);
    assert_eq!(reader.feed(b"cdEXTRA").unwrap(), true);
    let req = reader.to_request().unwrap();
    assert_eq!(req.get_body(), b"abcd");
}

#[test]
fn close_before_the_end_is_an_internal_error() {
    let mut reader = RequestReader::new();
    assert_eq!(reader.feed(b"GET / HTTP/1.1\r\nHost: x").unwrap(), false);
    let err = reader.feed(b"").unwrap_err();
    assert_eq!(err.0, 500);
    assert_eq!(err.get_status(), ResponseStatus::InternalServerError);
    assert!(reader.to_request().is_none());
}

#[test]
fn reader_errors() {
    let mut reader = RequestReader::new();
    assert_eq!(reader.feed(b"GET / HTTP/1.0\r\n\r\n").unwrap_err().0, 400);
    let mut reader = RequestReader::new();
    assert_eq!(reader.feed(b"PATCH / HTTP/1.1\r\n\r\n").unwrap_err().0, 501);
    let mut reader = RequestReader::new();
    assert_eq!(reader.feed(b"GET / HTTP/1.1\r\nContent-Length: ten\r\n\r\n").unwrap_err().0, 400);
    let mut reader = RequestReader::new();
    assert_eq!(reader.feed(b"GET / HTTP/1.1\r\nBad : x\r\n\r\n").unwrap_err().0, 400);
    assert!(matches!(parse_request_bytes(b"GET / HTTP/1.1\r\n"), RequestParse::Incomplete));
}

#[test]
fn request_line_errors() {
    assert!(matches!(RequestLine::parse("GET /"), Err(RequestParseError(400, _))));
    assert!(matches!(RequestLine::parse("GET  / HTTP/1.1"), Err(RequestParseError(400, _))));
    assert!(matches!(RequestLine::parse("GET / HTTP/2"), Err(RequestParseError(400, _))));
    let l = RequestLine::parse("DELETE /a/b HTTP/1.1").unwrap();
    assert_eq!(l.method, RequestMethod::DELETE);
    assert_eq!(l.path, "/a/b");
}

#[test]
fn later_duplicate_header_wins() {
    let h = RequestHeaders::parse(&["A: 1", "B:2", "A:   3  "]).unwrap();
    assert_eq!(h.len(), 2);
    assert_eq!(h.get("A"), Some("3"));
    assert_eq!(h.get("B"), Some("2"));
    assert_eq!(h.get("a"), None);
}

#[test]
fn header_line_rules() {
    assert_eq!(parse_header_line(b"Host: example.com ").unwrap(), ("Host".to_string(), "example.com".to_string()));
    assert_eq!(parse_header_line(b"NoColon").unwrap_err().0, 400);
    assert_eq!(parse_header_line(b" Lead: x").unwrap_err().0, 400);
    assert_eq!(parse_header_line(b"X: a:b").unwrap(), ("X".to_string(), "a:b".to_string()));
}

#[test]
fn header_insert_and_remove() {
    let mut h = RequestHeaders::from([("A", "1"), ("B", "2")]);
    assert_eq!(h.insert("A".to_string(), "9".to_string()), Some("1".to_string()));
    assert_eq!(h.get("A"), Some("9"));
    assert_eq!(h.remove("B"), Some("2".to_string()));
    assert_eq!(h.remove("B"), None);
    assert_eq!(h.len(), 1);
}

#[test]
fn lowercased_header_value() {
    let mut req = read_in_steps(b"GET / HTTP/1.1\r\nUpgrade: WebSocket\r\n\r\n", 5);
    assert_eq!(req.get_header_lc("Upgrade"), Some("websocket".to_string()));
    assert_eq!(req.get_header_lc("Connection"), None);
    req.insert_header("Connection".to_string(), "KEEP-alive".to_string());
    assert_eq!(req.get_header_lc("Connection"), Some("keep-alive".to_string()));
    assert_eq!(req.remove_header("Connection"), Some("KEEP-alive".to_string()));
}

#[test]
fn lossy_and_exact_body_text() {
    let req = read_in_steps(b"POST / HTTP/1.1\r\nContent-Length: 2\r\n\r\n\xff\xfe", 100);
    assert!(req.body.parse().is_none());
}

#[test]
fn whole_request_parse() {
    let req = Request::parse(b"PUT /x HTTP/1.1\r\nContent-Length: 3\r\n\r\nabc").unwrap();
    assert_eq!(req.request_line.method, RequestMethod::PUT);
    assert_eq!(req.get_body(), b"abc");
    assert_eq!(Request::parse(b"PUT /x HTTP/1.1\r\nContent-Length: 3\r\n\r\nab").unwrap_err().0, 500);
    assert_eq!(Request::parse(b"PUT /x\r\n\r\n").unwrap_err().0, 400);
}

#[test]
fn reader_steps() {
    let buf = b"GET /a HTTP/1.1\r\nX: 1\r\nContent-Length: 2\r\n\r\nhi";
    let (p, line) = RequestReader::read_request_line(buf).unwrap();
    assert_eq!(p, 15);
    assert_eq!(line.unwrap().path, "/a");
    let (q, headers) = RequestReader::read_request_headers(buf, p).unwrap();
    assert_eq!(q, 40);
    let headers = headers.unwrap();
    assert_eq!(headers.get("X"), Some("1"));
    let body = RequestReader::read_request_body(buf, q + 4, &headers).unwrap().unwrap();
    assert_eq!(body.0, b"hi".to_vec());
    assert!(RequestReader::read_request_body(&buf[..q + 5], q + 4, &headers).is_none());
    assert!(RequestReader::read_request_line(b"GET / HTTP/1.1").is_none());
}

#[test]
fn unicode_white_space_is_trimmed() {
    assert_eq!(parse_header_line("\u{a0}Name: x".as_bytes()).unwrap_err().0, 400);
    assert_eq!(parse_header_line("Name\u{3000}: x".as_bytes()).unwrap_err().0, 400);
    assert_eq!(
        parse_header_line("Name: \u{2003}v a\u{a0}\u{85}".as_bytes()).unwrap(),
        ("Name".to_string(), "v a".to_string())
    );
    let h = RequestHeaders::parse(&["X:\u{a0}1\u{a0}"]).unwrap();
    assert_eq!(h.get("X"), Some("1"));
    assert_eq!(parse_header_line(b"X: \xff").unwrap_err().0, 400);
}

#[test]
fn bytes_after_the_request_are_kept() {
    let mut reader = RequestReader::new();
    assert!(reader.feed(b"GET / HTTP/1.1\r\n\r\n\x89\x00").unwrap());
    let (req, rest) = reader.into_parts().unwrap();
    assert_eq!(req.request_line.method, RequestMethod::GET);
    assert_eq!(rest, vec![0x89, 0x00]);
}
