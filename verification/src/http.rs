//! Incremental parser for an HTTP/1.x request head: a request line
//! `METHOD SP PATH SP HTTP/1.<digit> CRLF`, a sequence of header lines
//! `name ":" *(SP | HT) value CRLF`, and a terminating `CRLF`.
//!
//! The parser is a pure function of the buffered bytes: it reports a
//! complete head (with the byte offset just past the terminating blank
//! line), or that the buffer is a prefix of some head and more bytes are
//! needed, or that the bytes violate the grammar.  A parse attempt is
//! bounded by a header-slot budget; `parse_http_request_headers` retries
//! with a doubled budget, up to a hard cap, so that requests with many
//! headers still parse while memory stays bounded.

use vstd::prelude::*;
use vstd::seq_lib::*;
use vstd::slice::{slice_subrange, slice_to_vec};

verus! {

/// Header slots granted to the first parse attempt on each connection.
pub const INITIAL_HEADER_CAPACITY: usize = 16;

/// Hard cap on header slots: a head with more headers than this is
/// treated as malformed rather than growing the budget without bound.
pub const MAX_HEADER_CAPACITY: usize = 1024;

// ---------------------------------------------------------------------
// Byte classes of the grammar
// ---------------------------------------------------------------------

/// A `tchar`: the bytes allowed in a method or header name.
pub open spec fn is_tchar(b: u8) -> bool {
    (48 <= b && b <= 57)  // 0-9
    || (65 <= b && b <= 90)  // A-Z
    || (97 <= b && b <= 122)  // a-z
    || b == 33  // !
    || (35 <= b && b <= 39)  // # $ % & '
    || b == 42 || b == 43 || b == 45 || b == 46  // * + - .
    || b == 94 || b == 95 || b == 96  // ^ _ `
    || b == 124 || b == 126  // | ~
}

/// A byte allowed in a request path: visible, not SP, not DEL.
pub open spec fn is_pchar(b: u8) -> bool {
    33 <= b && b != 127
}

/// A byte allowed in a header value: anything but CR and LF.
pub open spec fn is_vchar(b: u8) -> bool {
    b != 13 && b != 10
}

/// Optional whitespace between the colon and a header value.
pub open spec fn is_ws(b: u8) -> bool {
    b == 32 || b == 9
}

/// The byte class a scan runs over.
#[derive(Clone, Copy)]
pub enum ByteClass {
    Token,
    Path,
    Value,
    Ws,
}

pub open spec fn in_class(c: ByteClass, b: u8) -> bool {
    match c {
        ByteClass::Token => is_tchar(b),
        ByteClass::Path => is_pchar(b),
        ByteClass::Value => is_vchar(b),
        ByteClass::Ws => is_ws(b),
    }
}

/// First index at or after `i` whose byte falls outside class `c`
/// (or the length of `s` if the class runs to the end).
pub open spec fn scan_end(s: Seq<u8>, c: ByteClass, i: int) -> int
    decreases s.len() - i
        when 0 <= i <= s.len()
{
    if i >= s.len() {
        i
    } else if in_class(c, s[i]) {
        scan_end(s, c, i + 1)
    } else {
        i
    }
}

pub proof fn lemma_scan_end_bounds(s: Seq<u8>, c: ByteClass, i: int)
    requires
        0 <= i <= s.len(),
    ensures
        i <= scan_end(s, c, i) <= s.len(),
        forall|j: int| i <= j < scan_end(s, c, i) ==> in_class(c, s[j]),
        scan_end(s, c, i) < s.len() ==> !in_class(c, s[scan_end(s, c, i)]),
    decreases s.len() - i,
{
    if i < s.len() && in_class(c, s[i]) {
        lemma_scan_end_bounds(s, c, i + 1);
    }
}

/// A scan that stopped before the end of the buffer is not disturbed by
/// appending further bytes.
pub proof fn lemma_scan_end_stable(s: Seq<u8>, t: Seq<u8>, c: ByteClass, i: int)
    requires
        0 <= i <= s.len(),
        scan_end(s, c, i) < s.len(),
    ensures
        scan_end(s + t, c, i) == scan_end(s, c, i),
    decreases s.len() - i,
{
    assert((s + t)[i] == s[i]);
    if in_class(c, s[i]) {
        lemma_scan_end_stable(s, t, c, i + 1);
    }
}

fn byte_in_class(c: ByteClass, b: u8) -> (r: bool)
    ensures
        r == in_class(c, b),
{
    match c {
        ByteClass::Token => {
            (48 <= b && b <= 57)
            || (65 <= b && b <= 90)
            || (97 <= b && b <= 122)
            || b == 33
            || (35 <= b && b <= 39)
            || b == 42 || b == 43 || b == 45 || b == 46
            || b == 94 || b == 95 || b == 96
            || b == 124 || b == 126
        }
        ByteClass::Path => 33 <= b && b != 127,
        ByteClass::Value => b != 13 && b != 10,
        ByteClass::Ws => b == 32 || b == 9,
    }
}

fn scan(buf: &[u8], c: ByteClass, start: usize) -> (end: usize)
    requires
        start <= buf@.len(),
    ensures
        end == scan_end(buf@, c, start as int),
        start <= end <= buf@.len(),
{
    let n: usize = buf.len();
    let mut i: usize = start;
    while i < n && byte_in_class(c, buf[i])
        invariant
            start <= i <= n,
            n == buf@.len(),
            scan_end(buf@, c, start as int) == scan_end(buf@, c, i as int),
        decreases n - i,
    {
        i = i + 1;
    }
    i
}

// ---------------------------------------------------------------------
// The spec-level parser
// ---------------------------------------------------------------------

/// The mathematical content of a parsed request head.
#[verifier::ext_equal]
pub ghost struct SpecHead {
    pub method: Seq<u8>,
    pub path: Seq<u8>,
    pub minor: u8,
    pub headers: Seq<(Seq<u8>, Seq<u8>)>,
}

/// Outcome of parsing a whole buffer against the grammar.
pub ghost enum SpecParse {
    /// The first `end` bytes form a complete head with content `head`.
    Complete { end: int, head: SpecHead },
    /// The buffer is a prefix of some complete head.
    Partial,
    /// A complete head needs more header slots than the budget grants.
    TooMany,
    /// The bytes violate the grammar.
    Bad,
}

/// Outcome of parsing the header lines that follow the request line.
pub ghost enum HdrParse {
    Done { end: int, headers: Seq<(Seq<u8>, Seq<u8>)> },
    Partial,
    TooMany,
    Bad,
}

pub open spec fn is_digit(b: u8) -> bool {
    48 <= b && b <= 57
}

/// Three-way result of matching the fixed tail of a request line.
pub ghost enum LitMatch {
    Yes,
    Partial,
    No,
}

/// Matches `HTTP/1.` followed by one digit and CRLF, starting at `p`:
/// ten bytes in all.
pub open spec fn version_status(s: Seq<u8>, p: int) -> LitMatch {
    if s.len() <= p { LitMatch::Partial } else if s[p] != 72 { LitMatch::No }  // H
    else if s.len() <= p + 1 { LitMatch::Partial } else if s[p + 1] != 84 { LitMatch::No }  // T
    else if s.len() <= p + 2 { LitMatch::Partial } else if s[p + 2] != 84 { LitMatch::No }  // T
    else if s.len() <= p + 3 { LitMatch::Partial } else if s[p + 3] != 80 { LitMatch::No }  // P
    else if s.len() <= p + 4 { LitMatch::Partial } else if s[p + 4] != 47 { LitMatch::No }  // /
    else if s.len() <= p + 5 { LitMatch::Partial } else if s[p + 5] != 49 { LitMatch::No }  // 1
    else if s.len() <= p + 6 { LitMatch::Partial } else if s[p + 6] != 46 { LitMatch::No }  // .
    else if s.len() <= p + 7 { LitMatch::Partial } else if !is_digit(s[p + 7]) { LitMatch::No }
    else if s.len() <= p + 8 { LitMatch::Partial } else if s[p + 8] != 13 { LitMatch::No }
    else if s.len() <= p + 9 { LitMatch::Partial } else if s[p + 9] != 10 { LitMatch::No }
    else { LitMatch::Yes }
}

/// Parses header lines from position `i`, having already collected
/// `acc`, with at most `max` header slots in all.
pub open spec fn spec_parse_headers(
    s: Seq<u8>,
    i: int,
    acc: Seq<(Seq<u8>, Seq<u8>)>,
    max: int,
) -> HdrParse
    decreases s.len() - i
        when 0 <= i <= s.len()
        via spec_parse_headers_decreases
{
    if i >= s.len() {
        HdrParse::Partial
    } else if s[i] == 13 {
        if i + 1 >= s.len() {
            HdrParse::Partial
        } else if s[i + 1] == 10 {
            HdrParse::Done { end: i + 2, headers: acc }
        } else {
            HdrParse::Bad
        }
    } else {
        let ne = scan_end(s, ByteClass::Token, i);
        if ne >= s.len() {
            HdrParse::Partial
        } else if ne == i {
            HdrParse::Bad
        } else if s[ne] != 58 {  // missing colon after the name
            HdrParse::Bad
        } else {
            let vs = scan_end(s, ByteClass::Ws, ne + 1);
            let ve = scan_end(s, ByteClass::Value, vs);
            if ve >= s.len() {
                HdrParse::Partial
            } else if s[ve] == 10 {
                HdrParse::Bad
            } else if ve + 1 >= s.len() {
                HdrParse::Partial
            } else if s[ve + 1] != 10 {
                HdrParse::Bad
            } else if acc.len() >= max {
                HdrParse::TooMany
            } else {
                spec_parse_headers(
                    s,
                    ve + 2,
                    acc.push((s.subrange(i, ne), s.subrange(vs, ve))),
                    max,
                )
            }
        }
    }
}

#[via_fn]
proof fn spec_parse_headers_decreases(s: Seq<u8>, i: int, acc: Seq<(Seq<u8>, Seq<u8>)>, max: int) {
    if 0 <= i < s.len() && s[i] != 13 {
        let ne = scan_end(s, ByteClass::Token, i);
        lemma_scan_end_bounds(s, ByteClass::Token, i);
        if i < ne < s.len() {
            lemma_scan_end_bounds(s, ByteClass::Ws, ne + 1);
            let vs = scan_end(s, ByteClass::Ws, ne + 1);
            lemma_scan_end_bounds(s, ByteClass::Value, vs);
        }
    }
}

/// Parses `s` as a request head with at most `max` header slots.
pub open spec fn spec_parse(s: Seq<u8>, max: int) -> SpecParse {
    let me = scan_end(s, ByteClass::Token, 0);
    if me >= s.len() {
        SpecParse::Partial
    } else if me == 0 {
        SpecParse::Bad
    } else if s[me] != 32 {
        SpecParse::Bad
    } else {
        let pe = scan_end(s, ByteClass::Path, me + 1);
        if pe >= s.len() {
            SpecParse::Partial
        } else if pe == me + 1 {
            SpecParse::Bad
        } else if s[pe] != 32 {
            SpecParse::Bad
        } else {
            match version_status(s, pe + 1) {
                LitMatch::Partial => SpecParse::Partial,
                LitMatch::No => SpecParse::Bad,
                LitMatch::Yes => {
                    match spec_parse_headers(s, pe + 11, Seq::empty(), max) {
                        HdrParse::Partial => SpecParse::Partial,
                        HdrParse::TooMany => SpecParse::TooMany,
                        HdrParse::Bad => SpecParse::Bad,
                        HdrParse::Done { end, headers } => SpecParse::Complete {
                            end,
                            head: SpecHead {
                                method: s.subrange(0, me),
                                path: s.subrange(me + 1, pe),
                                minor: (s[pe + 8] - 48) as u8,
                                headers,
                            },
                        },
                    }
                }
            }
        }
    }
}

// ---------------------------------------------------------------------
// Executable data and parser
// ---------------------------------------------------------------------

/// The request line of a parsed head.
pub struct RequestLine {
    pub method: Vec<u8>,
    pub path: Vec<u8>,
    pub version: u8,
}

/// One header, name and value, exactly as received (the value without
/// the whitespace that followed the colon).
pub struct Header {
    pub name: Vec<u8>,
    pub value: Vec<u8>,
}

impl View for Header {
    type V = (Seq<u8>, Seq<u8>);

    open spec fn view(&self) -> (Seq<u8>, Seq<u8>) {
        (self.name@, self.value@)
    }
}

/// A parsed request head: the request line and the headers in the order
/// they were received, with no padding entries.
pub struct RequestHeaders {
    pub request_line: RequestLine,
    pub headers: Vec<Header>,
}

impl View for RequestHeaders {
    type V = SpecHead;

    open spec fn view(&self) -> SpecHead {
        SpecHead {
            method: self.request_line.method@,
            path: self.request_line.path@,
            minor: self.request_line.version,
            headers: self.headers@.map_values(|h: Header| h@),
        }
    }
}

/// Why a parse failed for good.
pub enum ParseError {
    /// More headers than the hard cap allows.
    TooManyHeaders,
    /// The bytes violate the request-head grammar.
    Malformed,
}

/// Result of one bounded parse attempt.
pub enum ParseAttempt {
    Complete(usize, RequestHeaders),
    Partial,
    TooManyHeaders,
    Malformed,
}

/// Result of parsing with capacity retry: the public outcome.
pub enum ParseOutcome {
    /// Byte offset just past the head, and its content.
    Complete(usize, RequestHeaders),
    /// More bytes are needed.
    Incomplete,
    Failed(ParseError),
}

pub open spec fn attempt_matches(r: ParseAttempt, sp: SpecParse) -> bool {
    match r {
        ParseAttempt::Complete(n, rh) => sp == (SpecParse::Complete { end: n as int, head: rh@ }),
        ParseAttempt::Partial => sp is Partial,
        ParseAttempt::TooManyHeaders => sp is TooMany,
        ParseAttempt::Malformed => sp is Bad,
    }
}

pub open spec fn outcome_matches(r: ParseOutcome, sp: SpecParse) -> bool {
    match r {
        ParseOutcome::Complete(n, rh) => sp == (SpecParse::Complete { end: n as int, head: rh@ }),
        ParseOutcome::Incomplete => sp is Partial,
        ParseOutcome::Failed(ParseError::TooManyHeaders) => sp is TooMany,
        ParseOutcome::Failed(ParseError::Malformed) => sp is Bad,
    }
}

/// Copies `buf[from..to]` into a fresh vector.
pub fn copy_range(buf: &[u8], from: usize, to: usize) -> (r: Vec<u8>)
    requires
        from <= to <= buf@.len(),
    ensures
        r@ == buf@.subrange(from as int, to as int),
{
    slice_to_vec(slice_subrange(buf, from, to))
}

#[verifier::loop_isolation(false)]
fn parse_attempt(buf: &[u8], max_headers: usize) -> (r: ParseAttempt)
    ensures
        attempt_matches(r, spec_parse(buf@, max_headers as int)),
{
    let n: usize = buf.len();
    let me = scan(buf, ByteClass::Token, 0);
    if me >= n {
        return ParseAttempt::Partial;
    }
    if me == 0 {
        return ParseAttempt::Malformed;
    }
    if buf[me] != 32 {
        return ParseAttempt::Malformed;
    }
    let ps = me + 1;
    let pe = scan(buf, ByteClass::Path, ps);
    if pe >= n {
        return ParseAttempt::Partial;
    }
    if pe == ps {
        return ParseAttempt::Malformed;
    }
    if buf[pe] != 32 {
        return ParseAttempt::Malformed;
    }
    // The fixed tail of the request line: `HTTP/1.` digit CRLF.
    let rem = n - pe;
    if rem >= 2 && buf[pe + 1] != 72
        || rem >= 3 && buf[pe + 2] != 84
        || rem >= 4 && buf[pe + 3] != 84
        || rem >= 5 && buf[pe + 4] != 80
        || rem >= 6 && buf[pe + 5] != 47
        || rem >= 7 && buf[pe + 6] != 49
        || rem >= 8 && buf[pe + 7] != 46
        || rem >= 9 && !(48 <= buf[pe + 8] && buf[pe + 8] <= 57)
        || rem >= 10 && buf[pe + 9] != 13
        || rem >= 11 && buf[pe + 10] != 10
    {
        assert(version_status(buf@, pe + 1) is No);
        return ParseAttempt::Malformed;
    }
    if rem < 11 {
        assert(version_status(buf@, pe + 1) is Partial);
        return ParseAttempt::Partial;
    }
    assert(version_status(buf@, pe + 1) is Yes);
    let minor: u8 = buf[pe + 8] - 48;
    let mut i: usize = pe + 11;
    let mut hdrs: Vec<Header> = Vec::new();
    let ghost hstart: int = i as int;
    proof {
        assert_seqs_equal!(
            hdrs@.map_values(|h: Header| h@),
            Seq::<(Seq<u8>, Seq<u8>)>::empty()
        );
    }
    loop
        invariant
            hstart <= i as int <= n as int,
            hdrs@.len() <= max_headers,
            spec_parse_headers(buf@, hstart, Seq::empty(), max_headers as int)
                == spec_parse_headers(
                    buf@,
                    i as int,
                    hdrs@.map_values(|h: Header| h@),
                    max_headers as int,
                ),
        decreases n - i,
    {
        let ghost acc = hdrs@.map_values(|h: Header| h@);
        if i >= n {
            return ParseAttempt::Partial;
        }
        if buf[i] == 13 {
            if i + 1 >= n {
                return ParseAttempt::Partial;
            }
            if buf[i + 1] != 10 {
                return ParseAttempt::Malformed;
            }
            let rh = RequestHeaders {
                request_line: RequestLine {
                    method: copy_range(buf, 0, me),
                    path: copy_range(buf, ps, pe),
                    version: minor,
                },
                headers: hdrs,
            };
            return ParseAttempt::Complete(i + 2, rh);
        }
        let ne = scan(buf, ByteClass::Token, i);
        if ne >= n {
            return ParseAttempt::Partial;
        }
        if ne == i {
            return ParseAttempt::Malformed;
        }
        if buf[ne] != 58 {
            return ParseAttempt::Malformed;
        }
        let vs = scan(buf, ByteClass::Ws, ne + 1);
        let ve = scan(buf, ByteClass::Value, vs);
        if ve >= n {
            return ParseAttempt::Partial;
        }
        if buf[ve] == 10 {
            return ParseAttempt::Malformed;
        }
        if ve + 1 >= n {
            return ParseAttempt::Partial;
        }
        if buf[ve + 1] != 10 {
            return ParseAttempt::Malformed;
        }
        if hdrs.len() >= max_headers {
            return ParseAttempt::TooManyHeaders;
        }
        let h = Header { name: copy_range(buf, i, ne), value: copy_range(buf, vs, ve) };
        hdrs.push(h);
        proof {
            assert_seqs_equal!(
                hdrs@.map_values(|h: Header| h@),
                acc.push((buf@.subrange(i as int, ne as int), buf@.subrange(vs as int, ve as int)))
            );
        }
        i = ve + 2;
    }
}

/// Headers never run out of budget when the budget grows: an attempt
/// that fits in `m1` slots parses the same with any `m2 >= m1` slots.
proof fn lemma_parse_headers_capacity_monotone(
    s: Seq<u8>,
    i: int,
    acc: Seq<(Seq<u8>, Seq<u8>)>,
    m1: int,
    m2: int,
)
    requires
        0 <= i <= s.len(),
        m1 <= m2,
        !(spec_parse_headers(s, i, acc, m1) is TooMany),
    ensures
        spec_parse_headers(s, i, acc, m2) == spec_parse_headers(s, i, acc, m1),
    decreases s.len() - i,
{
    if i < s.len() && s[i] != 13 {
        let ne = scan_end(s, ByteClass::Token, i);
        lemma_scan_end_bounds(s, ByteClass::Token, i);
        if i < ne < s.len() && s[ne] == 58 {
            lemma_scan_end_bounds(s, ByteClass::Ws, ne + 1);
            let vs = scan_end(s, ByteClass::Ws, ne + 1);
            lemma_scan_end_bounds(s, ByteClass::Value, vs);
            let ve = scan_end(s, ByteClass::Value, vs);
            if ve < s.len() && s[ve] != 10 && ve + 1 < s.len() && s[ve + 1] == 10
                && acc.len() < m1 {
                lemma_parse_headers_capacity_monotone(
                    s,
                    ve + 2,
                    acc.push((s.subrange(i, ne), s.subrange(vs, ve))),
                    m1,
                    m2,
                );
            }
        }
    }
}

/// Growing the header budget never changes a result that was not
/// `TooMany`: capacity growth is transparent.
pub proof fn lemma_parse_capacity_monotone(s: Seq<u8>, m1: int, m2: int)
    requires
        m1 <= m2,
        !(spec_parse(s, m1) is TooMany),
    ensures
        spec_parse(s, m2) == spec_parse(s, m1),
{
    let me = scan_end(s, ByteClass::Token, 0);
    lemma_scan_end_bounds(s, ByteClass::Token, 0);
    if 0 < me < s.len() && s[me] == 32 {
        lemma_scan_end_bounds(s, ByteClass::Path, me + 1);
        let pe = scan_end(s, ByteClass::Path, me + 1);
        if me + 1 < pe < s.len() && s[pe] == 32 {
            if version_status(s, pe + 1) is Yes {
                lemma_parse_headers_capacity_monotone(s, pe + 11, Seq::empty(), m1, m2);
            }
        }
    }
}

/// Parses the buffered bytes, starting with `max_headers` header slots
/// and doubling the budget whenever it is exhausted, up to
/// [`MAX_HEADER_CAPACITY`].  The outcome is as if the hard cap had been
/// granted from the start.
pub fn parse_http_request_headers(buffer: &[u8], max_headers: usize) -> (r: ParseOutcome)
    requires
        1 <= max_headers <= MAX_HEADER_CAPACITY,
    ensures
        outcome_matches(r, spec_parse(buffer@, MAX_HEADER_CAPACITY as int)),
{
    let mut m: usize = max_headers;
    loop
        invariant
            1 <= m <= MAX_HEADER_CAPACITY,
        decreases MAX_HEADER_CAPACITY - m,
    {
        let attempt = parse_attempt(buffer, m);
        match attempt {
            ParseAttempt::Complete(n, rh) => {
                proof {
                    lemma_parse_capacity_monotone(buffer@, m as int, MAX_HEADER_CAPACITY as int);
                }
                return ParseOutcome::Complete(n, rh);
            }
            ParseAttempt::Partial => {
                proof {
                    lemma_parse_capacity_monotone(buffer@, m as int, MAX_HEADER_CAPACITY as int);
                }
                return ParseOutcome::Incomplete;
            }
            ParseAttempt::Malformed => {
                proof {
                    lemma_parse_capacity_monotone(buffer@, m as int, MAX_HEADER_CAPACITY as int);
                }
                return ParseOutcome::Failed(ParseError::Malformed);
            }
            ParseAttempt::TooManyHeaders => {
                if m == MAX_HEADER_CAPACITY {
                    return ParseOutcome::Failed(ParseError::TooManyHeaders);
                }
                m = if m <= MAX_HEADER_CAPACITY / 2 { 2 * m } else { MAX_HEADER_CAPACITY };
            }
        }
    }
}

} // verus!
