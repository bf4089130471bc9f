use hostproxy::http::{ParseError, ParseOutcome, RequestHeaders, parse_http_request_headers};

fn parse(buf: &[u8]) -> ParseOutcome {
    parse_http_request_headers(buf, 16)
}

fn expect_complete(buf: &[u8]) -> (usize, RequestHeaders) {
    match parse(buf) {
        ParseOutcome::Complete(n, rh) => (n, rh),
        ParseOutcome::Incomplete => panic!("unexpectedly incomplete"),
        ParseOutcome::Failed(_) => panic!("unexpectedly failed"),
    }
}

#[test]
fn simple_get_parses() {
    let buf = b"GET /index.html HTTP/1.1\r\nHost: example.com\r\nAccept: */*\r\n\r\n";
    let (n, rh) = expect_complete(buf);
    assert_eq!(n, buf.len());
    assert_eq!(rh.request_line.method, b"GET".to_vec());
    assert_eq!(rh.request_line.path, b"/index.html".to_vec());
    assert_eq!(rh.request_line.version, 1);
    assert_eq!(rh.headers.len(), 2);
    assert_eq!(rh.headers[0].name, b"Host".to_vec());
    assert_eq!(rh.headers[0].value, b"example.com".to_vec());
    assert_eq!(rh.headers[1].name, b"Accept".to_vec());
    assert_eq!(rh.headers[1].value, b"*/*".to_vec());
}

#[test]
fn version_zero_parses() {
    let buf = b"POST /x HTTP/1.0\r\n\r\n";
    let (n, rh) = expect_complete(buf);
    assert_eq!(n, buf.len());
    assert_eq!(rh.request_line.method, b"POST".to_vec());
    assert_eq!(rh.request_line.version, 0);
    assert_eq!(rh.headers.len(), 0);
}

#[test]
fn every_proper_prefix_is_incomplete() {
    let buf = b"GET / HTTP/1.1\r\nHost: example.com\r\nAccept: */*\r\n\r\n";
    for cut in 0..buf.len() {
        assert!(matches!(parse(&buf[..cut]), ParseOutcome::Incomplete));
    }
    assert!(matches!(parse(buf), ParseOutcome::Complete(..)));
}

#[test]
fn trailing_bytes_do_not_disturb_the_head() {
    let head = b"GET / HTTP/1.1\r\nHost: h\r\n\r\n";
    let mut buf = head.to_vec();
    buf.extend_from_slice(b"these bytes are body, not headers\r\nX: y\r\n");
    let (n, rh) = expect_complete(&buf);
    assert_eq!(n, head.len());
    assert_eq!(rh.headers.len(), 1);
}

#[test]
fn more_headers_than_the_initial_budget_still_parse() {
    let mut buf = b"GET / HTTP/1.1\r\n".to_vec();
    for k in 0..20 {
        buf.extend_from_slice(format!("X-{k}: v{k}\r\n").as_bytes());
    }
    buf.extend_from_slice(b"\r\n");
    let (n, rh) = expect_complete(&buf);
    assert_eq!(n, buf.len());
    assert_eq!(rh.headers.len(), 20);
    for k in 0..20 {
        assert_eq!(rh.headers[k].name, format!("X-{k}").into_bytes());
        assert_eq!(rh.headers[k].value, format!("v{k}").into_bytes());
    }
}

#[test]
fn headers_beyond_the_hard_cap_fail() {
    let mut buf = b"GET / HTTP/1.1\r\n".to_vec();
    for k in 0..1025 {
        buf.extend_from_slice(format!("X-{k}: v\r\n").as_bytes());
    }
    buf.extend_from_slice(b"\r\n");
    assert!(matches!(
        parse(&buf),
        ParseOutcome::Failed(ParseError::TooManyHeaders)
    ));
}

#[test]
fn missing_colon_is_malformed() {
    let buf = b"GET / HTTP/1.1\r\nHost example.com\r\n\r\n";
    assert!(matches!(parse(buf), ParseOutcome::Failed(ParseError::Malformed)));
}

#[test]
fn bad_version_is_malformed() {
    assert!(matches!(
        parse(b"GET / HTTP/2.0\r\n\r\n"),
        ParseOutcome::Failed(ParseError::Malformed)
    ));
    assert!(matches!(
        parse(b"GET / HTTQ/1.1\r\n\r\n"),
        ParseOutcome::Failed(ParseError::Malformed)
    ));
}

#[test]
fn bare_lf_is_malformed() {
    let buf = b"GET / HTTP/1.1\r\nHost: a\n\r\n";
    assert!(matches!(parse(buf), ParseOutcome::Failed(ParseError::Malformed)));
}

#[test]
fn empty_method_is_malformed() {
    let buf = b" / HTTP/1.1\r\n\r\n";
    assert!(matches!(parse(buf), ParseOutcome::Failed(ParseError::Malformed)));
}

#[test]
fn whitespace_after_colon_is_dropped_from_the_value() {
    let buf = b"GET / HTTP/1.1\r\nHost: \t  spaced.example\r\n\r\n";
    let (_, rh) = expect_complete(buf);
    assert_eq!(rh.headers[0].value, b"spaced.example".to_vec());
}

#[test]
fn empty_value_parses() {
    let buf = b"GET / HTTP/1.1\r\nX-Empty:\r\n\r\n";
    let (_, rh) = expect_complete(buf);
    assert_eq!(rh.headers[0].name, b"X-Empty".to_vec());
    assert_eq!(rh.headers[0].value, b"".to_vec());
}

#[test]
fn agrees_with_httparse_on_well_formed_requests() {
    let cases: [&[u8]; 4] = [
        b"GET / HTTP/1.1\r\nHost: example.com\r\n\r\n",
        b"PUT /a/b?q=1 HTTP/1.0\r\nContent-Length: 3\r\nX: y\r\n\r\nabc",
        b"DELETE /gone HTTP/1.1\r\n\r\n",
        b"GET / HTTP/1.1\r\nA: 1\r\nB: 2\r\nC: 3\r\n\r\n",
    ];
    for buf in cases {
        let (n, rh) = expect_complete(buf);
        let mut slots = [httparse::EMPTY_HEADER; 16];
        let mut req = httparse::Request::new(&mut slots);
        let status = req.parse(buf).unwrap();
        assert_eq!(status, httparse::Status::Complete(n));
        assert_eq!(req.method.unwrap().as_bytes(), rh.request_line.method.as_slice());
        assert_eq!(req.path.unwrap().as_bytes(), rh.request_line.path.as_slice());
        assert_eq!(req.version.unwrap(), rh.request_line.version);
        let theirs: Vec<_> = req.headers.iter().take_while(|h| !h.name.is_empty()).collect();
        assert_eq!(theirs.len(), rh.headers.len());
        for (a, b) in theirs.iter().zip(rh.headers.iter()) {
            assert_eq!(a.name.as_bytes(), b.name.as_slice());
            assert_eq!(a.value, b.value.as_slice());
        }
    }
}

#[test]
fn agrees_with_httparse_on_partial_input() {
    let buf = b"GET / HTTP/1.1\r\nHost: example.com\r\n\r\n";
    for cut in 0..buf.len() {
        let mut slots = [httparse::EMPTY_HEADER; 16];
        let mut req = httparse::Request::new(&mut slots);
        let theirs = req.parse(&buf[..cut]).unwrap();
        assert_eq!(theirs, httparse::Status::Partial);
        assert!(matches!(parse(&buf[..cut]), ParseOutcome::Incomplete));
    }
}
