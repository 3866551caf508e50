use rustlib::helpers::ss_get;
use rustlib::http::{
    is_http_request_start, split_string, HttpClient, HttpHeader, HttpMessage, HttpMethod,
    HttpResponse,
};

fn lines(texts: &[&str]) -> Vec<String> {
    texts.iter().map(|t| t.to_string()).collect()
}

#[test]
fn method_text_round_trip() {
    let methods = [
        (HttpMethod::Get, "GET"),
        (HttpMethod::Post, "POST"),
        (HttpMethod::Put, "PUT"),
        (HttpMethod::Patch, "PATCH"),
        (HttpMethod::Delete, "DELETE"),
    ];
    for (m, text) in methods {
        assert_eq!(m.to_string(), text);
        assert_eq!(HttpMethod::from_string(text).unwrap(), m);
    }
}

#[test]
fn method_from_unknown_token() {
    assert_eq!(
        HttpMethod::from_string("BREW"),
        Err(String::from("Invalid HTTP Method: BREW"))
    );
}

#[test]
fn header_line_text() {
    let h = HttpHeader {
        key: String::from("Host"),
        value: String::from("example.com"),
    };
    assert_eq!(h.to_string(), "Host: example.com");
}

#[test]
fn split_on_space_and_on_header_separator() {
    assert_eq!(split_string("GET / HTTP/1.1", " "), vec!["GET", "/", "HTTP/1.1"]);
    assert_eq!(split_string("Host: example.com", ": "), vec!["Host", "example.com"]);
    assert_eq!(split_string("a: b: c", ": "), vec!["a", "b", "c"]);
    assert_eq!(split_string("", " "), vec![""]);
    assert_eq!(split_string("a  b", " "), vec!["a", "", "b"]);
}

#[test]
fn ss_get_returns_token_or_empty() {
    let parts = lines(&["GET", "/"]);
    assert_eq!(ss_get(&parts, 0), "GET");
    assert_eq!(ss_get(&parts, 1), "/");
    assert_eq!(ss_get(&parts, 2), "");
}

#[test]
fn message_from_lines_full_request() {
    let input = lines(&[
        "GET /index.html HTTP/1.1",
        "Host: example.com",
        "Accept: text/html",
        "",
        "hello",
        "world",
    ]);
    let m = HttpMessage::from_lines(&input).unwrap();
    assert_eq!(m.method, HttpMethod::Get);
    assert_eq!(m.path, "/index.html");
    assert_eq!(m.version, "HTTP/1.1");
    assert_eq!(m.headers.len(), 2);
    assert_eq!(m.headers[0].key, "Host");
    assert_eq!(m.headers[0].value, "example.com");
    assert_eq!(m.headers[1].key, "Accept");
    assert_eq!(m.headers[1].value, "text/html");
    assert_eq!(m.body.unwrap().data, "helloworld");
}

#[test]
fn message_from_no_lines_is_all_defaults() {
    let m = HttpMessage::from_lines(&Vec::new()).unwrap();
    assert_eq!(m.method, HttpMethod::Get);
    assert_eq!(m.path, "");
    assert_eq!(m.version, "");
    assert_eq!(m.headers.len(), 0);
    assert_eq!(m.body.unwrap().data, "");
}

#[test]
fn message_from_lines_reports_each_start_line_fault() {
    assert_eq!(message_err(&["FETCH / HTTP/1.1"]), "Invalid HTTP Method: FETCH");
    assert_eq!(message_err(&["GET"]), "Expected a Path");
    assert_eq!(message_err(&["GET /"]), "Expected a Version");
}

/// The message a failed request parse is expected to carry.
fn message_err(texts: &[&str]) -> String {
    match HttpMessage::from_lines(&lines(texts)) {
        Err(e) => e,
        Ok(_) => panic!("expected a parse error"),
    }
}

#[test]
fn message_from_lines_reports_header_without_value() {
    assert_eq!(
        message_err(&["GET / HTTP/1.1", "Host example.com"]),
        "Expected a Header value"
    );
}

#[test]
fn message_dump_prints_headers_in_reverse() {
    let input = lines(&["GET / HTTP/1.1", "A: 1", "B: 2"]);
    let m = HttpMessage::from_lines(&input).unwrap();
    assert_eq!(
        m.to_string(),
        "Method: GET\r\n Path: /\r\n Version: HTTP/1.1\r\n Headers:\r\n\tB : 2\r\n\tA : 1\r\n Body: "
    );
}

#[test]
fn response_from_lines_full_response() {
    let input = lines(&[
        "HTTP/1.1 200",
        "Content-Type: text/plain",
        "",
        "payload",
    ]);
    let r = HttpResponse::from_lines(&input).unwrap();
    assert_eq!(r.version, "HTTP/1.1");
    assert_eq!(r.status, "200");
    assert_eq!(r.headers.len(), 1);
    assert_eq!(r.headers[0].key, "Content-Type");
    assert_eq!(r.headers[0].value, "text/plain");
    assert_eq!(r.body.data, "payload");
}

#[test]
fn response_from_lines_refuses_missing_status_or_value() {
    assert!(HttpResponse::from_lines(&lines(&["HTTP/1.1"])).is_none());
    assert!(HttpResponse::from_lines(&lines(&["HTTP/1.1 200", "bad header"])).is_none());
}

#[test]
fn response_dump_prints_headers_in_reverse() {
    let input = lines(&["HTTP/1.1 200", "A: 1", "B: 2", "", "body"]);
    let r = HttpResponse::from_lines(&input).unwrap();
    assert_eq!(
        r.to_string(),
        "Version: HTTP/1.1\r\nStatus Code: 200\r\nHeaders:\r\n\tB: 2\r\n\tA: 1\r\nBody:\r\nbody"
    );
}

#[test]
fn client_builds_standard_get() {
    let _client = HttpClient::new();
    let m = HttpClient::request_message("example.com", "/");
    assert_eq!(m.method, HttpMethod::Get);
    assert_eq!(m.path, "/");
    assert_eq!(m.version, "HTTP/1.1");
    assert_eq!(m.headers.len(), 3);
    assert_eq!(m.headers[0].key, "Host");
    assert_eq!(m.headers[0].value, "example.com");
    assert_eq!(m.headers[1].key, "User-Agent");
    assert_eq!(m.headers[1].value, "rustlib");
    assert_eq!(m.headers[2].key, "Connection");
    assert_eq!(m.headers[2].value, "keep-alive");
    assert!(m.body.is_none());
}

#[test]
fn request_bytes_spell_the_wire_request() {
    let m = HttpClient::request_message("example.com", "/");
    let bytes = HttpClient::request_bytes(&m);
    let expected = "GET / HTTP/1.1\r\nHost: example.com\r\nUser-Agent: rustlib\r\nConnection: keep-alive\r\n\r\n";
    assert_eq!(bytes, expected.as_bytes().to_vec());
}

#[test]
fn request_start_detection() {
    assert!(is_http_request_start(b"GET / HTTP/1.1"));
    assert!(is_http_request_start(b"POST / HTTP/1.1"));
    assert!(!is_http_request_start(b"PUT / HTTP/1.1"));
    assert!(!is_http_request_start(b"GE"));
    assert!(!is_http_request_start(b""));
}
