//! The one-shot HTTP header interceptor.
//!
//! Bytes read from the client side accumulate in a buffer; after each
//! chunk the whole buffer is parsed afresh.  As soon as the parse stops
//! reporting "more bytes needed" the interceptor ends, in one of three
//! ways: the head was parsed and a `Host` header was rewritten, so the
//! reserialized head plus the already-buffered tail is forwarded; the
//! head was parsed and no `Host` header was present, so the buffer is
//! forwarded untouched; or the bytes violate the grammar, in which case
//! the buffer is also forwarded untouched — malformed input is relayed,
//! never rejected (fail-open).

use vstd::prelude::*;
use vstd::seq_lib::*;

use crate::http::{
    ByteClass, ParseError, ParseOutcome, SpecParse, lemma_scan_end_bounds,
    parse_http_request_headers, scan_end, spec_parse, spec_parse_headers, copy_range,
    INITIAL_HEADER_CAPACITY, MAX_HEADER_CAPACITY,
};
use crate::rewrite::{
    has_host_header, rewrite_host, serialize_head, spec_rewrite, spec_serialize,
};

verus! {

/// How a finished interception forwarded its bytes.
#[derive(Clone, Copy, PartialEq, Eq, Structural, Debug)]
pub enum ForwardKind {
    /// A `Host` header was present: the head was reserialized with the
    /// configured hostname in place of every `Host` value.
    Rewritten,
    /// The head parsed but held no `Host` header: original bytes.
    PassThrough,
    /// The bytes violate the grammar, or need more header slots than
    /// the hard cap grants: original bytes, fail-open.
    ParseFailed,
}

/// What the interceptor does with a buffer's worth of bytes.
pub ghost enum SpecFeed {
    /// The buffer is still a prefix of a head: read more.
    More,
    /// Interception finished; `bytes` go to the server side.
    Output { bytes: Seq<u8>, kind: ForwardKind },
}

/// The interceptor's decision as a function of the accumulated bytes
/// and the configured hostname.
pub open spec fn spec_intercept(s: Seq<u8>, host: Seq<u8>) -> SpecFeed {
    match spec_parse(s, MAX_HEADER_CAPACITY as int) {
        SpecParse::Partial => SpecFeed::More,
        SpecParse::TooMany => SpecFeed::Output { bytes: s, kind: ForwardKind::ParseFailed },
        SpecParse::Bad => SpecFeed::Output { bytes: s, kind: ForwardKind::ParseFailed },
        SpecParse::Complete { end, head } => {
            if has_host_header(head.headers) {
                SpecFeed::Output {
                    bytes: spec_serialize(spec_rewrite(head, host)) + s.skip(end),
                    kind: ForwardKind::Rewritten,
                }
            } else {
                SpecFeed::Output { bytes: s, kind: ForwardKind::PassThrough }
            }
        }
    }
}

/// A complete parse stays within the buffer and carries a one-digit
/// minor version.
pub proof fn lemma_parse_complete_bounds(s: Seq<u8>, max: int)
    requires
        spec_parse(s, max) is Complete,
    ensures
        0 <= spec_parse(s, max)->Complete_end <= s.len(),
        spec_parse(s, max)->Complete_head.minor <= 9,
{
    let me = scan_end(s, ByteClass::Token, 0);
    lemma_scan_end_bounds(s, ByteClass::Token, 0);
    let pe = scan_end(s, ByteClass::Path, me + 1);
    lemma_scan_end_bounds(s, ByteClass::Path, me + 1);
    lemma_parse_headers_end_bounds(s, pe + 11, Seq::empty(), max);
}

proof fn lemma_parse_headers_end_bounds(s: Seq<u8>, i: int, acc: Seq<(Seq<u8>, Seq<u8>)>, max: int)
    requires
        0 <= i <= s.len(),
        spec_parse_headers(s, i, acc, max) is Done,
    ensures
        i <= spec_parse_headers(s, i, acc, max)->Done_end <= s.len(),
    decreases s.len() - i,
{
    if i < s.len() && s[i] != 13 {
        let ne = scan_end(s, ByteClass::Token, i);
        lemma_scan_end_bounds(s, ByteClass::Token, i);
        lemma_scan_end_bounds(s, ByteClass::Ws, ne + 1);
        let vs = scan_end(s, ByteClass::Ws, ne + 1);
        lemma_scan_end_bounds(s, ByteClass::Value, vs);
        let ve = scan_end(s, ByteClass::Value, vs);
        lemma_parse_headers_end_bounds(
            s,
            ve + 2,
            acc.push((s.subrange(i, ne), s.subrange(vs, ve))),
            max,
        );
    }
}

/// Result of feeding one chunk to the interceptor.
pub enum FeedResult {
    /// The head is still incomplete: read more bytes.
    Incomplete,
    /// Interception finished: forward the bytes to the server side.
    Output(Vec<u8>, ForwardKind),
}

pub open spec fn feed_matches(r: FeedResult, sf: SpecFeed) -> bool {
    match r {
        FeedResult::Incomplete => sf is More,
        FeedResult::Output(bytes, kind) => sf == (SpecFeed::Output { bytes: bytes@, kind }),
    }
}

/// The accumulating interceptor state: the bytes buffered so far and
/// the hostname that replaces `Host` values.
pub struct Interceptor {
    buf: Vec<u8>,
    hostname: Vec<u8>,
}

impl Interceptor {
    /// The bytes accumulated so far.
    pub closed spec fn buffered(&self) -> Seq<u8> {
        self.buf@
    }

    /// The configured replacement hostname.
    pub closed spec fn host(&self) -> Seq<u8> {
        self.hostname@
    }

    pub fn new(hostname: Vec<u8>) -> (r: Self)
        ensures
            r.buffered() == Seq::<u8>::empty(),
            r.host() == hostname@,
    {
        Interceptor { buf: Vec::new(), hostname }
    }

    /// Appends one chunk read from the client side and decides: keep
    /// reading, or forward bytes and end the header phase.
    pub fn feed(&mut self, chunk: &[u8]) -> (r: FeedResult)
        ensures
            final(self).buffered() == old(self).buffered() + chunk@,
            final(self).host() == old(self).host(),
            feed_matches(r, spec_intercept(old(self).buffered() + chunk@, old(self).host())),
    {
        crate::rewrite::push_all(&mut self.buf, chunk);
        let outcome = parse_http_request_headers(self.buf.as_slice(), INITIAL_HEADER_CAPACITY);
        match outcome {
            ParseOutcome::Incomplete => FeedResult::Incomplete,
            ParseOutcome::Failed(e) => {
                let out = copy_range(self.buf.as_slice(), 0, self.buf.len());
                proof {
                    assert(out@ =~= self.buf@);
                }
                match e {
                    ParseError::TooManyHeaders => FeedResult::Output(out, ForwardKind::ParseFailed),
                    ParseError::Malformed => FeedResult::Output(out, ForwardKind::ParseFailed),
                }
            }
            ParseOutcome::Complete(n, mut rh) => {
                proof {
                    lemma_parse_complete_bounds(self.buf@, MAX_HEADER_CAPACITY as int);
                }
                let changed = rewrite_host(&mut rh, self.hostname.as_slice());
                if changed {
                    let mut out = serialize_head(&rh);
                    crate::rewrite::push_all(
                        &mut out,
                        vstd::slice::slice_subrange(self.buf.as_slice(), n, self.buf.len()),
                    );
                    proof {
                        assert(self.buf@.subrange(n as int, self.buf@.len() as int)
                            =~= self.buf@.skip(n as int));
                    }
                    FeedResult::Output(out, ForwardKind::Rewritten)
                } else {
                    let out = copy_range(self.buf.as_slice(), 0, self.buf.len());
                    proof {
                        assert(out@ =~= self.buf@);
                    }
                    FeedResult::Output(out, ForwardKind::PassThrough)
                }
            }
        }
    }
}

} // verus!
