//! The properties the relay is built around, stated and proved once
//! and for all: accumulation never changes a parse that has already
//! completed, header capacity growth is transparent, rewriting a value
//! that already matches changes nothing, absent `Host` headers and
//! malformed blocks both pass the original bytes through untouched,
//! and the rewrite pass is exactly case-insensitive selection on the
//! header name.

use vstd::prelude::*;
use vstd::seq_lib::*;

use crate::http::{
    ByteClass, SpecHead, MAX_HEADER_CAPACITY, lemma_scan_end_bounds, lemma_scan_end_stable,
    scan_end, spec_parse, spec_parse_headers, version_status,
};
use crate::intercept::{ForwardKind, SpecFeed, lemma_parse_complete_bounds, spec_intercept};
use crate::rewrite::{
    has_host_header, is_host_name, rewrite_header, rewrite_headers, spec_rewrite, spec_serialize,
};

verus! {

proof fn lemma_version_status_stable(s: Seq<u8>, t: Seq<u8>, p: int)
    requires
        0 <= p,
        version_status(s, p) is Yes,
    ensures
        version_status(s + t, p) is Yes,
{
    assert(s.len() > p + 9);
    assert forall|k: int| 0 <= k < s.len() implies (s + t)[k] == s[k] by {}
}

proof fn lemma_parse_headers_stable(
    s: Seq<u8>,
    t: Seq<u8>,
    i: int,
    acc: Seq<(Seq<u8>, Seq<u8>)>,
    max: int,
)
    requires
        0 <= i <= s.len(),
        spec_parse_headers(s, i, acc, max) is Done,
    ensures
        spec_parse_headers(s + t, i, acc, max) == spec_parse_headers(s, i, acc, max),
    decreases s.len() - i,
{
    assert(forall|k: int| 0 <= k < s.len() ==> (s + t)[k] == s[k]);
    if s[i] == 13 {
        // The blank line that ends the head lies within `s`.
    } else {
        let ne = scan_end(s, ByteClass::Token, i);
        lemma_scan_end_bounds(s, ByteClass::Token, i);
        lemma_scan_end_stable(s, t, ByteClass::Token, i);
        lemma_scan_end_bounds(s, ByteClass::Ws, ne + 1);
        let vs = scan_end(s, ByteClass::Ws, ne + 1);
        lemma_scan_end_bounds(s, ByteClass::Value, vs);
        let ve = scan_end(s, ByteClass::Value, vs);
        lemma_scan_end_stable(s, t, ByteClass::Ws, ne + 1);
        lemma_scan_end_stable(s, t, ByteClass::Value, vs);
        assert_seqs_equal!((s + t).subrange(i, ne), s.subrange(i, ne));
        assert_seqs_equal!((s + t).subrange(vs, ve), s.subrange(vs, ve));
        lemma_parse_headers_stable(
            s,
            t,
            ve + 2,
            acc.push((s.subrange(i, ne), s.subrange(vs, ve))),
            max,
        );
    }
}

/// Accumulation is lossless: once the buffered bytes parse as a
/// complete head, reading further bytes (which can only append) leaves
/// the parsed result — offset, request line and headers — unchanged.
/// A header block split across any number of partial reads therefore
/// parses exactly as the same bytes parsed in one shot.
pub proof fn lemma_parse_complete_stable(s: Seq<u8>, t: Seq<u8>, max: int)
    requires
        spec_parse(s, max) is Complete,
    ensures
        spec_parse(s + t, max) == spec_parse(s, max),
{
    assert(forall|k: int| 0 <= k < s.len() ==> (s + t)[k] == s[k]);
    let me = scan_end(s, ByteClass::Token, 0);
    lemma_scan_end_bounds(s, ByteClass::Token, 0);
    lemma_scan_end_stable(s, t, ByteClass::Token, 0);
    let pe = scan_end(s, ByteClass::Path, me + 1);
    lemma_scan_end_bounds(s, ByteClass::Path, me + 1);
    lemma_scan_end_stable(s, t, ByteClass::Path, me + 1);
    lemma_version_status_stable(s, t, pe + 1);
    lemma_parse_headers_stable(s, t, pe + 11, Seq::empty(), max);
    assert_seqs_equal!((s + t).subrange(0, me), s.subrange(0, me));
    assert_seqs_equal!((s + t).subrange(me + 1, pe), s.subrange(me + 1, pe));
    assert(spec_parse(s + t, max) =~= spec_parse(s, max));
}

/// The rewrite pass touches nothing but `Host` values: the list keeps
/// its length and order, every header whose name matches `Host` in any
/// case has its value replaced by `host`, and every other header is
/// kept byte for byte.
pub proof fn lemma_rewrite_case_insensitive(hs: Seq<(Seq<u8>, Seq<u8>)>, host: Seq<u8>)
    ensures
        rewrite_headers(hs, host).len() == hs.len(),
        forall|k: int| 0 <= k < hs.len() && is_host_name(hs[k].0)
            ==> rewrite_headers(hs, host)[k] == (hs[k].0, host),
        forall|k: int| 0 <= k < hs.len() && !is_host_name(hs[k].0)
            ==> rewrite_headers(hs, host)[k] == hs[k],
{
}

/// Rewriting is idempotent at the head level: when every `Host` value
/// already equals the configured hostname, the rewrite pass returns
/// the head unchanged, so reserialization yields the same bytes.
pub proof fn lemma_rewrite_already_matching(head: SpecHead, host: Seq<u8>)
    requires
        forall|k: int| 0 <= k < head.headers.len() && is_host_name(head.headers[k].0)
            ==> head.headers[k].1 == host,
    ensures
        spec_rewrite(head, host) == head,
        spec_serialize(spec_rewrite(head, host)) == spec_serialize(head),
{
    assert_seqs_equal!(rewrite_headers(head.headers, host), head.headers, k => {
        assert(rewrite_header(head.headers[k], host) == head.headers[k]);
    });
    assert(spec_rewrite(head, host) =~= head);
}

/// Rewriting a request whose `Host` values already equal the
/// configured hostname forwards bytes identical to the original
/// buffer, provided the buffered head is in serialized form (as any
/// head this crate itself serializes is).
pub proof fn lemma_intercept_idempotent(s: Seq<u8>, host: Seq<u8>)
    requires
        spec_parse(s, MAX_HEADER_CAPACITY as int) is Complete,
        s.subrange(0, spec_parse(s, MAX_HEADER_CAPACITY as int)->Complete_end)
            == spec_serialize(spec_parse(s, MAX_HEADER_CAPACITY as int)->Complete_head),
        forall|k: int|
            0 <= k < spec_parse(s, MAX_HEADER_CAPACITY as int)->Complete_head.headers.len()
                && is_host_name(
                    #[trigger] spec_parse(s, MAX_HEADER_CAPACITY as int)->Complete_head.headers[k].0,
                )
                ==> spec_parse(s, MAX_HEADER_CAPACITY as int)->Complete_head.headers[k].1 == host,
    ensures
        spec_intercept(s, host) == (SpecFeed::Output {
            bytes: s,
            kind: if has_host_header(spec_parse(s, MAX_HEADER_CAPACITY as int)->Complete_head.headers) {
                ForwardKind::Rewritten
            } else {
                ForwardKind::PassThrough
            },
        }),
{
    let end = spec_parse(s, MAX_HEADER_CAPACITY as int)->Complete_end;
    let head = spec_parse(s, MAX_HEADER_CAPACITY as int)->Complete_head;
    lemma_parse_complete_bounds(s, MAX_HEADER_CAPACITY as int);
    if has_host_header(head.headers) {
        lemma_rewrite_already_matching(head, host);
        assert_seqs_equal!(spec_serialize(head) + s.skip(end), s);
    }
}

/// A parsed head without any `Host` header passes through: the bytes
/// forwarded are exactly the bytes received.
pub proof fn lemma_intercept_pass_through(s: Seq<u8>, host: Seq<u8>)
    requires
        spec_parse(s, MAX_HEADER_CAPACITY as int) is Complete,
        !has_host_header(spec_parse(s, MAX_HEADER_CAPACITY as int)->Complete_head.headers),
    ensures
        spec_intercept(s, host) == (SpecFeed::Output { bytes: s, kind: ForwardKind::PassThrough }),
{
}

/// A buffer that violates the grammar is forwarded byte for byte, with
/// no error and no rewrite: the fail-open policy.
pub proof fn lemma_intercept_fail_open(s: Seq<u8>, host: Seq<u8>)
    requires
        spec_parse(s, MAX_HEADER_CAPACITY as int) is Bad,
    ensures
        spec_intercept(s, host) == (SpecFeed::Output { bytes: s, kind: ForwardKind::ParseFailed }),
{
}

} // verus!
