//! The per-connection state machine.
//!
//! A connection has at most two phases.  When host-header rewriting is
//! enabled it starts in the header phase: bytes read from the client
//! feed the one-shot interceptor until it either forwards a block to
//! the server side or the client closes mid-head, which is fatal.  The
//! relay phase then pumps bytes both ways, verbatim, until either side
//! reaches end of stream.  The header phase runs at most once per
//! connection: later requests on a kept-alive connection are relayed
//! as opaque bytes.
//!
//! The surrounding process performs the reads and writes; these
//! functions decide, from each chunk handed in, what to write where
//! and when to stop.

use vstd::prelude::*;

use crate::http::copy_range;
use crate::intercept::{FeedResult, ForwardKind, Interceptor, SpecFeed, spec_intercept};

verus! {

/// The identifier for the connection after the one numbered `i`:
/// identifiers increase by one per accepted connection and wrap on
/// overflow — only log correlation relies on them, so a collision
/// after wraparound is harmless.
pub fn next_connection_id(i: usize) -> (r: usize)
    ensures
        r == (if i == usize::MAX { 0int } else { i + 1int }),
{
    i.wrapping_add(1)
}

/// The per-connection error taxonomy.  A malformed header block is not
/// here: it forwards the bytes fail-open instead of failing.
#[derive(Clone, Copy, PartialEq, Eq, Structural, Debug)]
pub enum ConnError {
    /// The upstream could not be reached.
    Dial,
    /// A TLS negotiation failed, on either side.
    Handshake,
    /// The client closed before a complete header block arrived.
    TruncatedRequest,
    /// A read or write failed during the relay phase.
    RelayIo,
}

/// Where a connection stands.
#[derive(Clone, Copy, PartialEq, Eq, Structural, Debug)]
pub enum Phase {
    /// Reading the first request head from the client.
    Header,
    /// Pumping bytes both ways.
    Relay,
    /// One side reached end of stream; the connection is over.
    Done,
    /// The header phase failed fatally.
    Failed,
}

/// What to do after feeding the interceptor one chunk.
pub enum HeaderStep {
    /// Keep reading from the client.
    NeedMore,
    /// Write these bytes to the server side, then enter the relay
    /// phase.  The kind records how the block was produced.
    Forward(Vec<u8>, ForwardKind),
    /// The client closed mid-head: fail this connection.
    Truncated,
}

/// What to do with a chunk read during the relay phase.
pub enum RelayStep {
    /// Write these bytes, verbatim, to the opposite side.
    Forward(Vec<u8>),
    /// End of stream: the connection is over.
    Done,
}

/// The decision state of one connection.
pub struct Conn {
    phase: Phase,
    interceptor: Interceptor,
}

impl Conn {
    pub closed spec fn phase(&self) -> Phase {
        self.phase
    }

    /// The bytes buffered by the header phase so far.
    pub closed spec fn buffered(&self) -> Seq<u8> {
        self.interceptor.buffered()
    }

    /// The configured replacement hostname.
    pub closed spec fn host(&self) -> Seq<u8> {
        self.interceptor.host()
    }

    /// A fresh connection: it starts in the header phase exactly when
    /// host-header rewriting is enabled.
    pub fn new(rewrite_host_header: bool, hostname: Vec<u8>) -> (c: Conn)
        ensures
            c.phase() == (if rewrite_host_header { Phase::Header } else { Phase::Relay }),
            c.buffered() == Seq::<u8>::empty(),
            c.host() == hostname@,
    {
        Conn {
            phase: if rewrite_host_header { Phase::Header } else { Phase::Relay },
            interceptor: Interceptor::new(hostname),
        }
    }

    /// Whether the connection is still in the header phase.
    pub fn in_header_phase(&self) -> (r: bool)
        ensures
            r == (self.phase() is Header),
    {
        match self.phase {
            Phase::Header => true,
            _ => false,
        }
    }

    /// Feeds one chunk read from the client during the header phase.
    /// An empty chunk means the client closed mid-head, which is fatal
    /// to the connection; otherwise the interceptor decides whether to
    /// keep reading or what to forward, and a forward ends the header
    /// phase for good.
    pub fn on_header_data(&mut self, chunk: &[u8]) -> (r: HeaderStep)
        requires
            old(self).phase() is Header,
        ensures
            final(self).host() == old(self).host(),
            chunk@.len() == 0 ==> (r is Truncated) && (final(self).phase() is Failed),
            chunk@.len() > 0 ==> {
                &&& final(self).buffered() == old(self).buffered() + chunk@
                &&& match r {
                    HeaderStep::NeedMore => (final(self).phase() is Header)
                        && spec_intercept(old(self).buffered() + chunk@, old(self).host())
                            is More,
                    HeaderStep::Forward(bytes, kind) => (final(self).phase() is Relay)
                        && spec_intercept(old(self).buffered() + chunk@, old(self).host())
                            == (SpecFeed::Output { bytes: bytes@, kind }),
                    HeaderStep::Truncated => false,
                }
            },
    {
        if chunk.len() == 0 {
            self.phase = Phase::Failed;
            return HeaderStep::Truncated;
        }
        match self.interceptor.feed(chunk) {
            FeedResult::Incomplete => HeaderStep::NeedMore,
            FeedResult::Output(bytes, kind) => {
                self.phase = Phase::Relay;
                HeaderStep::Forward(bytes, kind)
            }
        }
    }

    /// Decides what to do with one chunk read from either side during
    /// the relay phase: a non-empty chunk crosses to the opposite side
    /// byte for byte; an empty read is that side's end of stream and
    /// ends the connection at once.
    pub fn on_relay_data(&mut self, chunk: &[u8]) -> (r: RelayStep)
        requires
            old(self).phase() is Relay,
        ensures
            final(self).host() == old(self).host(),
            chunk@.len() == 0 ==> (r is Done) && (final(self).phase() is Done),
            chunk@.len() > 0 ==> (final(self).phase() is Relay) && match r {
                RelayStep::Forward(bytes) => bytes@ == chunk@,
                RelayStep::Done => false,
            },
    {
        if chunk.len() == 0 {
            self.phase = Phase::Done;
            RelayStep::Done
        } else {
            let out = copy_range(chunk, 0, chunk.len());
            proof {
                assert(out@ =~= chunk@);
            }
            RelayStep::Forward(out)
        }
    }
}

} // verus!
