//! The `Host`-header rewrite pass and the deterministic
//! reserialization of a parsed request head.
//!
//! Every header whose name matches `Host` case-insensitively has its
//! value replaced by the configured hostname; names, the order of
//! headers and all other values are kept byte for byte.  Serialization
//! writes the request line as `METHOD SP PATH SP HTTP/1.<minor> CRLF`,
//! each header as `Name: Value CRLF` in original order, and a closing
//! blank line.

use vstd::prelude::*;
use vstd::seq_lib::*;

use crate::http::{Header, RequestHeaders, SpecHead};

verus! {

// ---------------------------------------------------------------------
// Case-insensitive matching of the Host header name
// ---------------------------------------------------------------------

/// ASCII lower-casing of one byte.
pub open spec fn lower(b: u8) -> u8 {
    if 65 <= b && b <= 90 { (b + 32) as u8 } else { b }
}

/// Case-insensitive byte-string equality.
pub open spec fn eq_ignore_case(a: Seq<u8>, b: Seq<u8>) -> bool {
    a.len() == b.len() && forall|k: int| 0 <= k < a.len() ==> lower(a[k]) == lower(b[k])
}

/// The four bytes of `host`.
pub open spec fn host_name() -> Seq<u8> {
    seq![104u8, 111u8, 115u8, 116u8]
}

/// Whether a header name selects the Host header, whatever its case.
pub open spec fn is_host_name(name: Seq<u8>) -> bool {
    eq_ignore_case(name, host_name())
}

fn lower_byte(b: u8) -> (r: u8)
    ensures
        r == lower(b),
{
    if 65 <= b && b <= 90 { b + 32 } else { b }
}

/// Tests a header name against `Host`, ignoring ASCII case.
pub fn name_is_host(name: &[u8]) -> (r: bool)
    ensures
        r == is_host_name(name@),
{
    if name.len() != 4 {
        assert(!is_host_name(name@));
        return false;
    }
    let r = lower_byte(name[0]) == 104
        && lower_byte(name[1]) == 111
        && lower_byte(name[2]) == 115
        && lower_byte(name[3]) == 116;
    proof {
        if r {
            assert forall|k: int| 0 <= k < 4 implies lower(name@[k]) == lower(host_name()[k]) by {
                if k == 0 {
                } else if k == 1 {
                } else if k == 2 {
                } else {
                    assert(k == 3);
                }
            }
        }
    }
    r
}

// ---------------------------------------------------------------------
// The rewrite pass
// ---------------------------------------------------------------------

/// One header after the rewrite pass: the value is replaced by `host`
/// exactly when the name matches `Host` case-insensitively.
pub open spec fn rewrite_header(h: (Seq<u8>, Seq<u8>), host: Seq<u8>) -> (Seq<u8>, Seq<u8>) {
    if is_host_name(h.0) { (h.0, host) } else { h }
}

/// The whole header list after the rewrite pass.
pub open spec fn rewrite_headers(
    hs: Seq<(Seq<u8>, Seq<u8>)>,
    host: Seq<u8>,
) -> Seq<(Seq<u8>, Seq<u8>)> {
    hs.map_values(|h: (Seq<u8>, Seq<u8>)| rewrite_header(h, host))
}

/// Whether any header name in the list selects the Host header.
pub open spec fn has_host_header(hs: Seq<(Seq<u8>, Seq<u8>)>) -> bool {
    exists|k: int| 0 <= k < hs.len() && is_host_name(hs[k].0)
}

/// A head after the rewrite pass: only header values change.
pub open spec fn spec_rewrite(h: SpecHead, host: Seq<u8>) -> SpecHead {
    SpecHead { headers: rewrite_headers(h.headers, host), ..h }
}

/// Replaces the value of every case-insensitive `Host` header with
/// `hostname`, in place, and reports whether any replacement occurred.
pub fn rewrite_host(h: &mut RequestHeaders, hostname: &[u8]) -> (changed: bool)
    ensures
        final(h)@ == spec_rewrite(old(h)@, hostname@),
        changed == has_host_header(old(h)@.headers),
{
    let ghost orig = old(h)@.headers;
    let mut changed = false;
    let mut j: usize = 0;
    let n = h.headers.len();
    while j < n
        invariant
            j <= n,
            n == h.headers@.len(),
            orig.len() == n,
            old(h).request_line == h.request_line,
            forall|k: int| 0 <= k < j ==> h.headers@[k]@ == rewrite_header(orig[k], hostname@),
            forall|k: int| j <= k < n ==> h.headers@[k]@ == orig[k],
            changed == has_host_header(orig.take(j as int)),
        decreases n - j,
    {
        let is_host = name_is_host(h.headers[j].name.as_slice());
        if is_host {
            let mut entry = h.headers.remove(j);
            entry.value = crate::http::copy_range(hostname, 0, hostname.len());
            proof {
                assert(entry.value@ =~= hostname@);
            }
            h.headers.insert(j, entry);
            changed = true;
        }
        proof {
            assert_seqs_equal!(orig.take(j + 1 as int), orig.take(j as int).push(orig[j as int]));
            if is_host_name(orig[j as int].0) {
                assert(orig.take(j + 1 as int)[j as int] == orig[j as int]);
                assert(is_host_name(orig.take(j + 1 as int)[j as int].0));
                assert(has_host_header(orig.take(j + 1 as int)));
            } else {
                assert(has_host_header(orig.take(j + 1 as int))
                    == has_host_header(orig.take(j as int))) by {
                    if has_host_header(orig.take(j + 1 as int)) {
                        let k = choose|k: int|
                            0 <= k < orig.take(j + 1 as int).len()
                                && #[trigger] is_host_name(orig.take(j + 1 as int)[k].0);
                        assert(k < j ==> is_host_name(orig.take(j as int)[k].0));
                    }
                }
            }
        }
        j = j + 1;
    }
    proof {
        assert(orig.take(n as int) =~= orig);
        assert_seqs_equal!(
            h.headers@.map_values(|hh: Header| hh@),
            rewrite_headers(orig, hostname@)
        );
    }
    changed
}

// ---------------------------------------------------------------------
// Reserialization
// ---------------------------------------------------------------------

pub open spec fn crlf() -> Seq<u8> {
    seq![13u8, 10u8]
}

/// One serialized header line: `Name: Value CRLF`.
pub open spec fn ser_header(h: (Seq<u8>, Seq<u8>)) -> Seq<u8> {
    h.0 + seq![58u8, 32u8] + h.1 + crlf()
}

/// The first `k` headers, serialized in order.
pub open spec fn ser_headers_upto(hs: Seq<(Seq<u8>, Seq<u8>)>, k: int) -> Seq<u8>
    decreases k,
{
    if k <= 0 {
        Seq::empty()
    } else {
        ser_headers_upto(hs, k - 1) + ser_header(hs[k - 1])
    }
}

/// The serialized form of a whole head.
pub open spec fn spec_serialize(h: SpecHead) -> Seq<u8> {
    h.method + seq![32u8] + h.path
        + seq![32u8, 72u8, 84u8, 84u8, 80u8, 47u8, 49u8, 46u8]  // " HTTP/1."
        + seq![(48 + h.minor) as u8] + crlf()
        + ser_headers_upto(h.headers, h.headers.len() as int)
        + crlf()
}

pub fn push_byte(out: &mut Vec<u8>, b: u8)
    ensures
        final(out)@ == old(out)@ + seq![b],
{
    out.push(b);
    proof {
        assert_seqs_equal!(out@, old(out)@ + seq![b]);
    }
}

/// Appends all of `src` to `out`.
pub fn push_all(out: &mut Vec<u8>, src: &[u8])
    ensures
        final(out)@ == old(out)@ + src@,
{
    let n = src.len();
    let mut j: usize = 0;
    while j < n
        invariant
            j <= n,
            n == src@.len(),
            out@ == old(out)@ + src@.subrange(0, j as int),
        decreases n - j,
    {
        out.push(src[j]);
        proof {
            assert_seqs_equal!(out@, old(out)@ + src@.subrange(0, j + 1 as int));
        }
        j = j + 1;
    }
    proof {
        assert(src@.subrange(0, n as int) =~= src@);
    }
}

/// Serializes a head deterministically, byte for byte as
/// [`spec_serialize`] states.
pub fn serialize_head(h: &RequestHeaders) -> (out: Vec<u8>)
    requires
        h.request_line.version <= 9,
    ensures
        out@ == spec_serialize(h@),
{
    let mut out: Vec<u8> = Vec::new();
    push_all(&mut out, h.request_line.method.as_slice());
    push_byte(&mut out, 32);
    push_all(&mut out, h.request_line.path.as_slice());
    push_byte(&mut out, 32);
    push_byte(&mut out, 72);
    push_byte(&mut out, 84);
    push_byte(&mut out, 84);
    push_byte(&mut out, 80);
    push_byte(&mut out, 47);
    push_byte(&mut out, 49);
    push_byte(&mut out, 46);
    push_byte(&mut out, 48 + h.request_line.version);
    push_byte(&mut out, 13);
    push_byte(&mut out, 10);
    let ghost line = h@.method + seq![32u8] + h@.path
        + seq![32u8, 72u8, 84u8, 84u8, 80u8, 47u8, 49u8, 46u8]
        + seq![(48 + h@.minor) as u8] + crlf();
    proof {
        assert_seqs_equal!(out@, line);
    }
    let ghost hmap = h@.headers;
    let n = h.headers.len();
    let mut j: usize = 0;
    while j < n
        invariant
            j <= n,
            n == h.headers@.len(),
            hmap == h@.headers,
            h.headers@.map_values(|hh: Header| hh@) == hmap,
            out@ == line + ser_headers_upto(hmap, j as int),
        decreases n - j,
    {
        let ghost before = out@;
        push_all(&mut out, h.headers[j].name.as_slice());
        push_byte(&mut out, 58);
        push_byte(&mut out, 32);
        push_all(&mut out, h.headers[j].value.as_slice());
        push_byte(&mut out, 13);
        push_byte(&mut out, 10);
        proof {
            assert(hmap[j as int] == h.headers@[j as int]@);
            assert_seqs_equal!(out@, before + ser_header(hmap[j as int]));
            assert_seqs_equal!(out@, line + ser_headers_upto(hmap, j + 1 as int));
        }
        j = j + 1;
    }
    push_byte(&mut out, 13);
    push_byte(&mut out, 10);
    proof {
        assert_seqs_equal!(out@, spec_serialize(h@));
    }
    out
}

} // verus!
