use likedl::simp_h1::connect_request_text;
use likedl::simp_h1::get;
use likedl::simp_h1::parse_response;
use likedl::simp_h1::prepare_send;
use likedl::simp_h1::tunnel_step;
use likedl::simp_h1::HttpError;
use likedl::simp_h1::Method;
use likedl::simp_h1::Request;
use likedl::simp_h1::Response;
use likedl::simp_h1::TunnelStep;
use likedl::subseq::SubSequence;

#[test]
fn find_slice_finds_first_occurrence() {
    let hay = b"hello\r\n\r\nworld".to_vec();
    assert_eq!(hay.as_slice().find_slice(b"\r\n\r\n"), Some(5));
    assert_eq!(hay.as_slice().find_slice(b"world"), Some(9));
    assert_eq!(hay.as_slice().find_slice(b"zz"), None);
    assert_eq!(hay.as_slice().find_slice(b""), Some(0));
}

#[test]
fn find_slice_overlapping_prefix() {
    let hay = b"\r\n\r\r\n\r\n".to_vec();
    assert_eq!(hay.as_slice().find_slice(b"\r\n\r\n"), Some(3));
}

#[test]
fn method_tokens() {
    assert_eq!(Method::GET.text(), "GET");
    assert_eq!(Method::HEAD.text(), "HEAD");
    assert_eq!(Method::POST.text(), "POST");
    assert_eq!(Method::CONNECT.text(), "CONNECT");
}

#[test]
fn parse_ok_response_with_split_body() {
    let rec = b"HTTP/1.1 200 OK\r\nContent-Length:5\r\nX-A:B\r\n\r\nhel".to_vec();
    let h = parse_response(rec.as_slice()).unwrap();
    assert_eq!(h.code, 200);
    assert_eq!(h.body_prefix, b"hel".to_vec());
    assert_eq!(h.remaining, 2);
    assert_eq!(h.headers.len(), 2);
    assert_eq!(h.headers[0], (b"content-length".to_vec(), b"5".to_vec()));
    assert_eq!(h.headers[1], (b"x-a".to_vec(), b"b".to_vec()));
}

#[test]
fn parse_body_fully_buffered() {
    let rec = b"HTTP/1.0 404 NF\r\ncontent-length:3\r\n\r\nabcdef".to_vec();
    let h = parse_response(rec.as_slice()).unwrap();
    assert_eq!(h.code, 404);
    assert_eq!(h.body_prefix, b"abc".to_vec());
    assert_eq!(h.remaining, 0);
}

#[test]
fn parse_last_content_length_wins() {
    let rec = b"HTTP/1.1 200 OK\r\nContent-Length:9\r\nContent-Length:2\r\n\r\nab".to_vec();
    let h = parse_response(rec.as_slice()).unwrap();
    assert_eq!(h.body_prefix, b"ab".to_vec());
    assert_eq!(h.remaining, 0);
}

#[test]
fn parse_rejects_missing_length() {
    let rec = b"HTTP/1.1 200 OK\r\nX:1\r\n\r\n".to_vec();
    let e = parse_response(rec.as_slice()).unwrap_err();
    assert_eq!(e.message(), "cannot recognize body length");
}

#[test]
fn parse_rejects_length_with_space() {
    let rec = b"HTTP/1.1 200 OK\r\nContent-Length: 5\r\n\r\nhello".to_vec();
    let e = parse_response(rec.as_slice()).unwrap_err();
    assert_eq!(e.message(), "content-length is not a number");
}

#[test]
fn parse_rejects_unknown_protocol() {
    let rec = b"HTTP/2 200\r\ncontent-length:0\r\n\r\n".to_vec();
    let e = parse_response(rec.as_slice()).unwrap_err();
    assert_eq!(e.message(), "unsupported protocol or protocol version");
}

#[test]
fn parse_rejects_bad_status_code() {
    let rec = b"HTTP/1.1 abc\r\n\r\n".to_vec();
    let e = parse_response(rec.as_slice()).unwrap_err();
    assert_eq!(e.message(), "malformed HTTP status code");
}

#[test]
fn parse_rejects_status_without_code() {
    let rec = b"NOPE\r\n\r\n".to_vec();
    let e = parse_response(rec.as_slice()).unwrap_err();
    assert_eq!(e.message(), "malformed HTTP response header");
}

#[test]
fn parse_rejects_header_without_colon() {
    let rec = b"HTTP/1.1 200 OK\r\nbad\r\n\r\n".to_vec();
    let e = parse_response(rec.as_slice()).unwrap_err();
    assert_eq!(e.message(), "malformed HTTP response header");
}

#[test]
fn parse_rejects_incomplete_head() {
    let rec = b"HTTP/1.1 200 OK\r\n".to_vec();
    let e = parse_response(rec.as_slice()).unwrap_err();
    assert_eq!(e.message(), "incomplete HTTP response header");
}

#[test]
fn tunnel_refuses_auth_demand() {
    for rec in [
        b"HTTP/1.1 407 Proxy Authentication Required\r\n\r\n".to_vec(),
        b"HTTP/1.0 407 Proxy Authentication Required\r\n\r\n".to_vec(),
    ] {
        let r = tunnel_step(rec.as_slice(), false);
        assert!(!matches!(r, TunnelStep::Established));
        match r {
            TunnelStep::Refused(e) => assert_eq!(e.message(), "proxy authentication required"),
            _ => panic!("tunnel judged open on a 407"),
        }
    }
}

#[test]
fn tunnel_established_on_success() {
    let rec = b"HTTP/1.1 200 Connection established\r\n\r\n".to_vec();
    assert!(matches!(tunnel_step(rec.as_slice(), false), TunnelStep::Established));
    let rec10 = b"HTTP/1.0 200 OK\r\n\r\n".to_vec();
    assert!(matches!(tunnel_step(rec10.as_slice(), false), TunnelStep::Established));
}

#[test]
fn tunnel_reads_on_while_incomplete() {
    assert!(matches!(tunnel_step(b"HTTP/1", false), TunnelStep::NeedMore));
    assert!(matches!(tunnel_step(b"HTTP/1.1 200 OK\r\n", false), TunnelStep::NeedMore));
}

#[test]
fn tunnel_eof_is_refused() {
    match tunnel_step(b"", true) {
        TunnelStep::Refused(e) => assert_eq!(e.message(), "tunnel EOF"),
        _ => panic!("no refusal on EOF"),
    }
}

#[test]
fn tunnel_refuses_other_status() {
    let rec = b"HTTP/1.1 502 Bad Gateway\r\n\r\n".to_vec();
    match tunnel_step(rec.as_slice(), false) {
        TunnelStep::Refused(e) => assert_eq!(e.message(), "unsuccessful tunnel"),
        _ => panic!("tunnel not refused"),
    }
}

#[test]
fn connect_request_names_real_target() {
    assert_eq!(
        connect_request_text("example.com", 443),
        "CONNECT example.com:443 HTTP/1.1\r\nHost: example.com:443\r\n\r\n"
    );
}

#[test]
fn plan_frames_request_head() {
    let req = get("http://example.com:8080/a/b?x=1")
        .header("Accept", "*/*")
        .header("Host", "example.com")
        .header("Accept", "text/html");
    let plan = prepare_send(&req).unwrap();
    assert_eq!(plan.host, "example.com");
    assert_eq!(plan.port, 8080);
    assert!(!plan.use_tls);
    assert!(plan.connect.is_none());
    assert!(plan.proxy_host.is_none());
    assert_eq!(
        plan.head,
        "GET /a/b?x=1 HTTP/1.1\r\nAccept:text/html\r\nHost:example.com\r\n\r\n"
    );
}

#[test]
fn plan_tunnels_through_proxy() {
    let req = get("https://example.com:8443/p").proxy("http://127.0.0.1:3128");
    let plan = prepare_send(&req).unwrap();
    assert!(plan.use_tls);
    assert_eq!(plan.proxy_host.as_deref(), Some("127.0.0.1"));
    assert_eq!(plan.proxy_port, Some(3128));
    assert_eq!(
        plan.connect.as_deref(),
        Some("CONNECT example.com:8443 HTTP/1.1\r\nHost: example.com:8443\r\n\r\n")
    );
}

#[test]
fn plan_resolves_scheme_default_ports() {
    let plan = prepare_send(&get("http://example.com/")).unwrap();
    assert_eq!(plan.port, 80);
    assert!(!plan.use_tls);
    let plan = prepare_send(&get("https://example.com/x")).unwrap();
    assert_eq!(plan.port, 443);
    assert!(plan.use_tls);
    let written = prepare_send(&get("https://example.com:443/x")).unwrap();
    assert_eq!(written.port, 443);
}

#[test]
fn plan_requires_port_for_unknown_scheme() {
    let req = get("ftp://example.com/x");
    let e = prepare_send(&req).unwrap_err();
    assert_eq!(e.message(), "no port field in url");
}

#[test]
fn plan_rejects_unparseable_url() {
    let req = get("not a url");
    assert!(matches!(prepare_send(&req), Err(HttpError::UrlError(_))));
}

#[test]
fn plan_rejects_body_methods() {
    let req = Request {
        method: Method::POST,
        url: "http://example.com:8081/".to_owned(),
        headers: Vec::new(),
        proxy: None,
        body: Vec::new(),
    };
    let e = prepare_send(&req).unwrap_err();
    assert_eq!(e.message(), "not implemented");
}

#[test]
fn plan_rejects_non_http_proxy() {
    let req = get("http://example.com:8081/").proxy("socks5://127.0.0.1:9050");
    let e = prepare_send(&req).unwrap_err();
    assert_eq!(e.message(), "unsupported proxy scheme");
}

#[test]
fn builders_keep_their_fields() {
    let req = get("http://a:1/").url("http://b:2/").body(vec![1, 2]);
    assert_eq!(req.url, "http://b:2/");
    assert_eq!(req.body, vec![1, 2]);
    assert!(matches!(req.method, Method::GET));
}

#[test]
fn bulk_headers_insert_in_order() {
    let req = get("http://a:1/").headers(vec![
        ("A".to_owned(), "1".to_owned()),
        ("B".to_owned(), "2".to_owned()),
        ("A".to_owned(), "3".to_owned()),
    ]);
    assert_eq!(req.headers.len(), 2);
    assert_eq!(req.headers[0], ("A".to_owned(), "3".to_owned()));
    assert_eq!(req.headers[1], ("B".to_owned(), "2".to_owned()));
}

#[test]
fn response_header_lookup_prefers_last() {
    let resp = Response {
        request: get("http://a:1/"),
        code: 200,
        headers: vec![
            (b"x".to_vec(), b"1".to_vec()),
            (b"y".to_vec(), b"2".to_vec()),
            (b"x".to_vec(), b"3".to_vec()),
        ],
        body: Vec::new(),
    };
    assert_eq!(resp.header(b"x"), Some(b"3".to_vec()));
    assert_eq!(resp.header(b"y"), Some(b"2".to_vec()));
    assert_eq!(resp.header(b"z"), None);
}
