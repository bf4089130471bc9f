use hostproxy::intercept::{FeedResult, ForwardKind, Interceptor};

fn run_chunks(hostname: &[u8], chunks: &[&[u8]]) -> (Vec<u8>, ForwardKind) {
    let mut ic = Interceptor::new(hostname.to_vec());
    for (k, chunk) in chunks.iter().enumerate() {
        match ic.feed(chunk) {
            FeedResult::Incomplete => assert!(k + 1 < chunks.len(), "ran out of chunks"),
            FeedResult::Output(bytes, kind) => {
                assert_eq!(k + 1, chunks.len(), "finished before all chunks were fed");
                return (bytes, kind);
            }
        }
    }
    panic!("interceptor never finished");
}

#[test]
fn rewrites_the_host_value() {
    let (bytes, kind) = run_chunks(
        b"new.example",
        &[b"GET / HTTP/1.1\r\nHost: old.example\r\n\r\n"],
    );
    assert_eq!(kind, ForwardKind::Rewritten);
    assert_eq!(bytes, b"GET / HTTP/1.1\r\nHost: new.example\r\n\r\n".to_vec());
}

#[test]
fn split_reads_give_the_same_result_as_one_shot() {
    let whole: &[u8] = b"GET /page HTTP/1.1\r\nHost: old.example\r\nAccept: */*\r\n\r\n";
    let (expect, ekind) = run_chunks(b"new.example", &[whole]);
    for cut1 in 1..10 {
        let cut2 = whole.len() - 3;
        let (bytes, kind) = run_chunks(
            b"new.example",
            &[&whole[..cut1], &whole[cut1..cut2], &whole[cut2..]],
        );
        assert_eq!(kind, ekind);
        assert_eq!(bytes, expect);
    }
}

#[test]
fn byte_at_a_time_matches_one_shot() {
    let whole: &[u8] = b"GET / HTTP/1.1\r\nhost: a\r\n\r\n";
    let (expect, ekind) = run_chunks(b"b.example", &[whole]);
    let chunks: Vec<&[u8]> = (0..whole.len()).map(|k| &whole[k..k + 1]).collect();
    let (bytes, kind) = run_chunks(b"b.example", &chunks);
    assert_eq!(kind, ekind);
    assert_eq!(bytes, expect);
}

#[test]
fn no_host_header_passes_the_buffer_through() {
    let whole: &[u8] = b"GET / HTTP/1.1\r\nAccept: */*\r\n\r\ntail bytes";
    let (bytes, kind) = run_chunks(b"new.example", &[whole]);
    assert_eq!(kind, ForwardKind::PassThrough);
    assert_eq!(bytes, whole.to_vec());
}

#[test]
fn matching_host_value_forwards_identical_bytes() {
    let whole: &[u8] = b"GET / HTTP/1.1\r\nHost: new.example\r\n\r\n";
    let (bytes, kind) = run_chunks(b"new.example", &[whole]);
    assert_eq!(kind, ForwardKind::Rewritten);
    assert_eq!(bytes, whole.to_vec());
}

#[test]
fn malformed_block_is_forwarded_fail_open() {
    let whole: &[u8] = b"GET / HTTP/1.1\r\nHost old.example\r\n\r\n";
    let (bytes, kind) = run_chunks(b"new.example", &[whole]);
    assert_eq!(kind, ForwardKind::ParseFailed);
    assert_eq!(bytes, whole.to_vec());
}

#[test]
fn buffered_body_bytes_follow_the_rewritten_head() {
    let whole: &[u8] = b"POST /u HTTP/1.1\r\nHost: old\r\nContent-Length: 4\r\n\r\nbody";
    let (bytes, kind) = run_chunks(b"new.example", &[whole]);
    assert_eq!(kind, ForwardKind::Rewritten);
    assert_eq!(
        bytes,
        b"POST /u HTTP/1.1\r\nHost: new.example\r\nContent-Length: 4\r\n\r\nbody".to_vec()
    );
}

#[test]
fn many_headers_survive_interception_in_order() {
    let mut whole = b"GET / HTTP/1.1\r\n".to_vec();
    for k in 0..25 {
        whole.extend_from_slice(format!("X-{k}: v{k}\r\n").as_bytes());
    }
    whole.extend_from_slice(b"Host: old\r\n\r\n");
    let (bytes, kind) = run_chunks(b"new.example", &[&whole]);
    assert_eq!(kind, ForwardKind::Rewritten);
    let mut expect = b"GET / HTTP/1.1\r\n".to_vec();
    for k in 0..25 {
        expect.extend_from_slice(format!("X-{k}: v{k}\r\n").as_bytes());
    }
    expect.extend_from_slice(b"Host: new.example\r\n\r\n");
    assert_eq!(bytes, expect);
}
