//! Formatting of the per-chunk log lines.
//!
//! Each transferred chunk is reported as `[id] ==> N bytes` (client to
//! server) or `[id] <== N bytes` (server to client).  When payload
//! logging is enabled the raw chunk follows as a second line, to be
//! printed as text by the caller.  The lines are produced here as
//! bytes; the surrounding process prints them.

use vstd::prelude::*;
use vstd::seq_lib::*;

use crate::Opt;
use crate::rewrite::{push_all, push_byte};

verus! {

/// The decimal digits of `n`, most significant first, no leading
/// zeros (just `0` for zero).
pub open spec fn dec_digits(n: nat) -> Seq<u8>
    decreases n,
{
    if n < 10 {
        seq![(48 + n) as u8]
    } else {
        dec_digits(n / 10).push((48 + n % 10) as u8)
    }
}

/// Renders `n` in decimal.
pub fn dec_bytes(n: usize) -> (r: Vec<u8>)
    ensures
        r@ == dec_digits(n as nat),
    decreases n,
{
    if n < 10 {
        let mut v: Vec<u8> = Vec::new();
        v.push(48 + n as u8);
        proof {
            assert(v@ =~= dec_digits(n as nat));
        }
        v
    } else {
        let mut v = dec_bytes(n / 10);
        v.push(48 + (n % 10) as u8);
        proof {
            assert(v@ =~= dec_digits(n as nat));
        }
        v
    }
}

/// The arrow that marks a chunk's direction, relative to the accepted
/// side: `==>` towards the server, `<==` towards the client.
pub open spec fn arrow_of(incoming: bool) -> Seq<u8> {
    if incoming { seq![61u8, 61u8, 62u8] } else { seq![60u8, 61u8, 61u8] }
}

/// The counting log line: `[id] <arrow> <len> bytes`.
pub open spec fn spec_log_line(id: nat, incoming: bool, len: nat) -> Seq<u8> {
    seq![91u8] + dec_digits(id) + seq![93u8, 32u8] + arrow_of(incoming) + seq![32u8]
        + dec_digits(len) + seq![32u8, 98u8, 121u8, 116u8, 101u8, 115u8]
}

/// The lines to print for one transferred chunk: nothing for an empty
/// chunk; the counting line; and, when payload logging is on, the raw
/// chunk as a second line.
pub fn log_data_read(opt: &Opt, i: usize, incoming: bool, data_read: &[u8]) -> (lines: Vec<Vec<u8>>)
    ensures
        data_read@.len() == 0 ==> lines@.len() == 0,
        data_read@.len() > 0 ==> {
            &&& lines@.len() == (if opt.show_data { 2int } else { 1int })
            &&& lines@[0]@ == spec_log_line(i as nat, incoming, data_read@.len())
            &&& (opt.show_data ==> lines@[1]@ == data_read@)
        },
{
    let mut lines: Vec<Vec<u8>> = Vec::new();
    if data_read.len() == 0 {
        return lines;
    }
    let mut line: Vec<u8> = Vec::new();
    push_byte(&mut line, 91);
    let id = dec_bytes(i);
    push_all(&mut line, id.as_slice());
    push_byte(&mut line, 93);
    push_byte(&mut line, 32);
    if incoming {
        push_byte(&mut line, 61);
        push_byte(&mut line, 61);
        push_byte(&mut line, 62);
    } else {
        push_byte(&mut line, 60);
        push_byte(&mut line, 61);
        push_byte(&mut line, 61);
    }
    push_byte(&mut line, 32);
    let count = dec_bytes(data_read.len());
    push_all(&mut line, count.as_slice());
    push_byte(&mut line, 32);
    push_byte(&mut line, 98);
    push_byte(&mut line, 121);
    push_byte(&mut line, 116);
    push_byte(&mut line, 101);
    push_byte(&mut line, 115);
    proof {
        assert_seqs_equal!(line@, spec_log_line(i as nat, incoming, data_read@.len()));
    }
    lines.push(line);
    if opt.show_data {
        lines.push(crate::http::copy_range(data_read, 0, data_read.len()));
        proof {
            assert(lines@[1]@ =~= data_read@);
        }
    }
    lines
}

/// The log lines for a chunk flowing from the client to the server.
pub fn log_data_read_incoming(opt: &Opt, i: usize, data_read: &[u8]) -> (lines: Vec<Vec<u8>>)
    ensures
        data_read@.len() == 0 ==> lines@.len() == 0,
        data_read@.len() > 0 ==> {
            &&& lines@.len() == (if opt.show_data { 2int } else { 1int })
            &&& lines@[0]@ == spec_log_line(i as nat, true, data_read@.len())
            &&& (opt.show_data ==> lines@[1]@ == data_read@)
        },
{
    log_data_read(opt, i, true, data_read)
}

/// The log lines for a chunk flowing from the server to the client.
pub fn log_data_read_outgoing(opt: &Opt, i: usize, data_read: &[u8]) -> (lines: Vec<Vec<u8>>)
    ensures
        data_read@.len() == 0 ==> lines@.len() == 0,
        data_read@.len() > 0 ==> {
            &&& lines@.len() == (if opt.show_data { 2int } else { 1int })
            &&& lines@[0]@ == spec_log_line(i as nat, false, data_read@.len())
            &&& (opt.show_data ==> lines@[1]@ == data_read@)
        },
{
    log_data_read(opt, i, false, data_read)
}

} // verus!
