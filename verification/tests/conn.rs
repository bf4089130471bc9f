use hostproxy::conn::{Conn, ConnError, HeaderStep, RelayStep};
use hostproxy::intercept::ForwardKind;

#[test]
fn scenario_rewrite_first_request() {
    let mut c = Conn::new(true, b"new.example".to_vec());
    assert!(c.in_header_phase());
    match c.on_header_data(b"GET / HTTP/1.1\r\nHost: old.example\r\n\r\n") {
        HeaderStep::Forward(bytes, kind) => {
            assert_eq!(kind, ForwardKind::Rewritten);
            assert_eq!(bytes, b"GET / HTTP/1.1\r\nHost: new.example\r\n\r\n".to_vec());
        }
        _ => panic!("expected a forward"),
    }
    assert!(!c.in_header_phase());
}

#[test]
fn scenario_truncated_header_is_fatal() {
    let mut c = Conn::new(true, b"new.example".to_vec());
    match c.on_header_data(b"GET / HTTP") {
        HeaderStep::NeedMore => {}
        _ => panic!("ten bytes cannot complete a head"),
    }
    match c.on_header_data(b"") {
        HeaderStep::Truncated => {}
        _ => panic!("a zero-byte read mid-head must be fatal"),
    }
}

#[test]
fn scenario_second_request_is_relayed_unmodified() {
    let mut c = Conn::new(true, b"new.example".to_vec());
    match c.on_header_data(b"GET / HTTP/1.1\r\nHost: old.example\r\n\r\n") {
        HeaderStep::Forward(_, _) => {}
        _ => panic!("first head must forward"),
    }
    let second: &[u8] = b"GET /two HTTP/1.1\r\nHost: another.example\r\n\r\n";
    match c.on_relay_data(second) {
        RelayStep::Forward(bytes) => assert_eq!(bytes, second.to_vec()),
        RelayStep::Done => panic!("second request must be forwarded"),
    }
}

#[test]
fn scenario_large_transfer_is_relayed_byte_for_byte() {
    let mut c = Conn::new(false, b"new.example".to_vec());
    assert!(!c.in_header_phase());
    let total: usize = 10 * 1024 * 1024;
    let mut sent: Vec<u8> = Vec::with_capacity(total);
    let mut forwarded: Vec<u8> = Vec::with_capacity(total);
    let mut k: usize = 0;
    let mut produced: usize = 0;
    while produced < total {
        let len = [1usize, 7, 1024, 65536, 40000][k % 5].min(total - produced);
        let chunk: Vec<u8> = (0..len).map(|j| ((produced + j) % 251) as u8).collect();
        sent.extend_from_slice(&chunk);
        match c.on_relay_data(&chunk) {
            RelayStep::Forward(bytes) => forwarded.extend_from_slice(&bytes),
            RelayStep::Done => panic!("nonempty chunks must be forwarded"),
        }
        produced += len;
        k += 1;
    }
    assert_eq!(forwarded.len(), sent.len());
    assert_eq!(forwarded, sent);
    match c.on_relay_data(b"") {
        RelayStep::Done => {}
        RelayStep::Forward(_) => panic!("end of stream must end the relay"),
    }
}

#[test]
fn relay_starts_at_once_when_rewrite_is_disabled() {
    let mut c = Conn::new(false, b"h".to_vec());
    match c.on_relay_data(b"anything at all") {
        RelayStep::Forward(bytes) => assert_eq!(bytes, b"anything at all".to_vec()),
        RelayStep::Done => panic!("data must flow"),
    }
}

#[test]
fn error_taxonomy_variants_are_distinct() {
    let all = [
        ConnError::Dial,
        ConnError::Handshake,
        ConnError::TruncatedRequest,
        ConnError::RelayIo,
    ];
    for (i, a) in all.iter().enumerate() {
        for (j, b) in all.iter().enumerate() {
            assert_eq!(i == j, a == b);
        }
    }
}
