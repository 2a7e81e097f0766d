use chrono::TimeZone;
use simple_ws_server::common::HTTPVersion;
use simple_ws_server::handler::{error_response, EchoHandler, EchoResponse, select_handler, HandlerKind};
use simple_ws_server::headers::{connection_header, VecHeaderParser};
use simple_ws_server::reader::RequestReader;
use simple_ws_server::request::{Request, RequestParseError};
use simple_ws_server::response::{Response, ResponseBody, ResponseHeaders, ResponseStatus, StatusLine};
use simple_ws_server::settings::{Settings, DEFAULT_MAX_PAYLOAD_SIZE};

#[test]
fn test_encode_response() {
    let data = "hello".as_bytes();
    let response = Response::new(
        StatusLine::new(HTTPVersion::V1_1, ResponseStatus::OK),
        ResponseHeaders::from([("Content-Length", data.len().to_string())]),
        ResponseBody::new(data.to_owned()),
    );
    let actual = String::from_utf8_lossy(&response.encode()).to_string();
    let expected = ["HTTP/1.1 200 OK", "Content-Length: 5", "", "hello"].join("\r\n");
    assert_eq!(actual, expected);
}

#[test]
fn status_table() {
    let all = [
        (ResponseStatus::SwitchingProtocol, 101, "Switching Protocol", false),
        (ResponseStatus::OK, 200, "OK", false),
        (ResponseStatus::BadRequest, 400, "Bad Request", false),
        (ResponseStatus::InternalServerError, 500, "Internal Server Error", true),
        (ResponseStatus::NotImplemented, 501, "Not Implemented", true),
    ];
    for (s, code, reason, server) in all {
        assert_eq!(s.status_code(), code);
        assert_eq!(s.reason_phrase(), reason);
        assert_eq!(s.is_server_error(), server);
    }
    let line = StatusLine::new(HTTPVersion::V1_1, ResponseStatus::NotImplemented);
    assert_eq!(line.encode(), b"HTTP/1.1 501 Not Implemented".to_vec());
    assert_eq!(line.get_status(), &ResponseStatus::NotImplemented);
}

#[test]
fn header_lines_are_trimmed() {
    let mut h = ResponseHeaders::empty();
    assert_eq!(h.insert(" X-Pad ".to_string(), "  v ".to_string()), None);
    assert_eq!(h.encode(), b"X-Pad: v\r\n".to_vec());
    assert_eq!(h.len(), 1);
    assert_eq!(h.get(" X-Pad "), Some("  v "));
    let r = Response::new(
        StatusLine::new(HTTPVersion::V1_1, ResponseStatus::BadRequest),
        h,
        ResponseBody::new(vec![]),
    );
    assert_eq!(r.encode(), b"HTTP/1.1 400 Bad Request\r\nX-Pad: v\r\n\r\n".to_vec());
    assert_eq!(r.get_header(" X-Pad "), Some("  v "));
    assert_eq!(r.get_status(), &ResponseStatus::BadRequest);
}

#[test]
fn error_response_closes() {
    let err = RequestParseError::new(ResponseStatus::NotImplemented, "Not Implemented");
    assert_eq!(err.0, 501);
    let r = error_response(&err);
    assert_eq!(r.get_status(), &ResponseStatus::NotImplemented);
    assert_eq!(r.get_header("Connection"), Some("close"));
    assert_eq!(r.get_header("Content-Length"), Some("0"));
    assert_eq!(r.body.len(), 0);
}

fn read(bytes: &[u8]) -> Request {
    let mut reader = RequestReader::new();
    assert!(reader.feed(bytes).unwrap());
    reader.to_request().unwrap()
}

#[test]
fn dispatch_by_upgrade_header() {
    let ws = read(b"GET / HTTP/1.1\r\nUpgrade: WebSocket\r\n\r\n");
    assert_eq!(select_handler(&ws), HandlerKind::WebSocket);
    let plain = read(b"GET / HTTP/1.1\r\nHost: a\r\n\r\n");
    assert_eq!(select_handler(&plain), HandlerKind::Echo);
    assert!(EchoHandler.accepts(&plain));
}

#[test]
fn echo_response_describes_the_request() {
    let req = read(b"POST /p HTTP/1.1\r\nContent-Length: 3\r\nX: y\r\n\r\nabc");
    let e = EchoResponse::from_request(&req);
    assert_eq!(e.method, "POST");
    assert_eq!(e.path, "/p");
    assert_eq!(e.data, "abc");
    assert_eq!(e.headers.len(), 2);
    let bad = read(b"POST /p HTTP/1.1\r\nContent-Length: 1\r\n\r\n\xff");
    assert_eq!(EchoResponse::from_request(&bad).data, "\u{fffd}");
    let ok = EchoHandler.prepare_response(Some(b"{}".to_vec()));
    assert_eq!(ok.get_status(), &ResponseStatus::OK);
    assert_eq!(ok.get_header("Content-Length"), Some("2"));
    assert_eq!(ok.get_header("Content-Type"), Some("application/json"));
    let failed = EchoHandler.prepare_response(None);
    assert_eq!(failed.get_status(), &ResponseStatus::InternalServerError);
}

#[test]
fn connection_header_lists() {
    let h = connection_header();
    assert_eq!(h.name(), "Connection");
    assert_eq!(h.parse("keep-alive, Upgrade"), Some(vec!["keep-alive".to_string(), "Upgrade".to_string()]));
    assert_eq!(VecHeaderParser::split_list("a"), Some(vec!["a".to_string()]));
    assert_eq!(VecHeaderParser::split_list(""), Some(vec!["".to_string()]));
}

#[test]
fn default_settings() {
    let s = Settings::default();
    assert_eq!(s.http().addr(), "127.0.0.1");
    assert_eq!(s.http().port(), 8888);
    assert_eq!(s.ws().max_payload_size(), DEFAULT_MAX_PAYLOAD_SIZE);
    assert_eq!(DEFAULT_MAX_PAYLOAD_SIZE, 1_000_000);
}

#[test]
fn test_imf_datetime_format() {
    let secs = chrono::Utc.with_ymd_and_hms(2022, 4, 26, 12, 24, 36).unwrap().timestamp();
    let dt = simple_ws_server::common::IMFDateTime::new(secs);
    assert_eq!(dt.to_string().unwrap(), "Tue, 26 Apr 2022 12:24:36 GMT");
}

#[test]
fn date_header_is_set() {
    let mut r = error_response(&RequestParseError::new(ResponseStatus::BadRequest, "x"));
    r.set_date(&simple_ws_server::common::IMFDateTime::new(0));
    assert_eq!(r.get_header("Date"), Some("Thu, 01 Jan 1970 00:00:00 GMT"));
    assert_eq!(r.get_header("Connection"), Some("close"));
}

#[test]
fn response_header_lines_trim_unicode_white_space() {
    let mut h = ResponseHeaders::empty();
    h.insert("\u{a0}K".to_string(), "v\u{3000}".to_string());
    assert_eq!(h.encode(), b"K: v\r\n".to_vec());
    assert_eq!(
        connection_header().parse("a,\u{a0}b "),
        Some(vec!["a".to_string(), "b".to_string()])
    );
}

#[test]
fn date_out_of_range_is_left_out() {
    let mut r = error_response(&RequestParseError::new(ResponseStatus::BadRequest, "x"));
    assert!(simple_ws_server::common::IMFDateTime::new(i64::MAX).to_string().is_none());
    r.set_date(&simple_ws_server::common::IMFDateTime::new(i64::MAX));
    assert_eq!(r.get_header("Date"), None);
}

#[test]
fn decimal_text() {
    assert_eq!(simple_ws_server::bytes::usize_to_string(0), "0");
    assert_eq!(simple_ws_server::bytes::usize_to_string(1234567890), "1234567890");
    assert_eq!(simple_ws_server::bytes::usize_to_string(usize::MAX), usize::MAX.to_string());
}
