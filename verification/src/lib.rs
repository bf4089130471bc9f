//! A single-upstream TCP relay that can terminate or originate TLS on either
//! side of a connection and, for the first HTTP request on a connection,
//! rewrite the `Host` header before forwarding it.
//!
//! This crate holds the verified logic: the incremental HTTP request-header
//! parser, the `Host`-header rewrite and reserialization, the one-shot header
//! interceptor, the per-connection state machine that drives the header phase
//! and the byte relay, and the configuration and log-line formatting rules.
//! The surrounding process (sockets, TLS handshakes, printing) performs the
//! I/O and feeds bytes in and out of these functions.

use vstd::prelude::*;

pub mod conn;
pub mod http;
pub mod intercept;
pub mod laws;
pub mod logfmt;
pub mod rewrite;

verus! {

/// Process-wide configuration, immutable after startup.
pub struct Opt {
    /// Upstream hostname, as raw bytes (also the replacement `Host` value).
    pub hostname: Vec<u8>,
    /// Enable TLS towards the upstream (verification disabled).
    pub ssl: bool,
    /// Terminate TLS on the listener with a self-signed identity.
    pub ssl_server: bool,
    /// Local port to listen on.
    pub listen_port: u16,
    /// Explicit upstream port; `None` selects a default from `ssl`.
    pub host_port: Option<u16>,
    /// Log payload bytes in addition to byte counts.
    pub show_data: bool,
    /// Run the one-shot `Host`-header interceptor on each connection.
    pub rewrite_host_header: bool,
}

impl Opt {
    /// The upstream port: the explicit override if present, else 443 when
    /// TLS-to-upstream is enabled and 80 otherwise.
    pub fn host_port(&self) -> (p: u16)
        ensures
            p == match self.host_port {
                Some(q) => q,
                None => if self.ssl { 443u16 } else { 80u16 },
            },
    {
        match self.host_port {
            Some(q) => q,
            None => if self.ssl { 443 } else { 80 },
        }
    }
}

} // verus!
