//! Settings the service derives from its environment: where the message
//! broker is, how many messages the worker handles at once, and where the
//! HTTP server listens.

use vstd::prelude::*;
use crate::gateway::configured_or;
use crate::text::{digits_value, lemma_digit_strings_parse, parse_usize, parsed_usize};

verus! {

broadcast use vstd::string::group_string_axioms;

/// Messages the worker handles at once when nothing else is configured.
pub const DEFAULT_MAX_CONCURRENT_MESSAGES: usize = 200;

/// File mode of the server's Unix socket: read and write for everyone.
pub const UNIX_SOCKET_MODE: u32 = 0o666;

/// The broker's URL: the configured one, or else `nats://localhost:4222`.
pub fn nats_url(configured: Option<String>) -> (url: String)
    ensures
        url@ == configured_or(configured, "nats://localhost:4222"@),
        configured matches Some(value) ==> url@ == value@,
        configured is None ==> url@ == "nats://localhost:4222"@,
{
    match configured {
        Some(value) => value,
        None => String::from_str("nats://localhost:4222"),
    }
}

/// How many messages the worker handles at once: the configured number when
/// it reads as a `usize`, and 200 otherwise.
pub fn max_concurrent_messages(configured: Option<String>) -> (n: usize)
    ensures
        n == (match configured {
            Some(value) => match parsed_usize(value@) {
                Some(parsed) => parsed,
                None => DEFAULT_MAX_CONCURRENT_MESSAGES,
            },
            None => DEFAULT_MAX_CONCURRENT_MESSAGES,
        }),
{
    match configured {
        Some(value) => match parse_usize(value.as_str()) {
            Some(parsed) => parsed,
            None => DEFAULT_MAX_CONCURRENT_MESSAGES,
        },
        None => DEFAULT_MAX_CONCURRENT_MESSAGES,
    }
}

/// Whether the TCP setting asks for TCP: only when it reads `1` or `true`.
pub open spec fn tcp_requested(configured: Option<String>) -> bool {
    match configured {
        Some(value) => value@ == "1"@ || value@ == "true"@,
        None => false,
    }
}

/// Whether the server is to listen on TCP.
pub fn use_tcp(configured: &Option<String>) -> (tcp: bool)
    ensures
        tcp == tcp_requested(*configured),
        tcp <==> (*configured matches Some(value) && (value@ == "1"@ || value@ == "true"@)),
{
    match configured {
        Some(value) => *value == String::from_str("1") || *value == String::from_str("true"),
        None => false,
    }
}

/// Where the HTTP server listens.
pub enum ListenTarget {
    /// A TCP address, written `host:port`.
    Tcp { address: String },
    /// A Unix socket at `path`, with file mode `mode`.
    UnixSocket { path: String, mode: u32 },
}

/// Where the HTTP server listens, from the settings for the socket path, the
/// port and the choice of TCP: on TCP, all interfaces at the configured port
/// (3000 by default); otherwise the configured socket path
/// (`/tmp/rinha.sock` by default), open to everyone.
pub fn listen_target(
    socket_path: Option<String>,
    port: Option<String>,
    tcp: Option<String>,
) -> (target: ListenTarget)
    ensures
        tcp_requested(tcp) ==> target is Tcp && target->address@ == "0.0.0.0:"@ + configured_or(
            port,
            "3000"@,
        ),
        !tcp_requested(tcp) ==> target is UnixSocket && target->path@ == configured_or(
            socket_path,
            "/tmp/rinha.sock"@,
        ) && target->mode == UNIX_SOCKET_MODE,
        target is Tcp <==> (tcp matches Some(value) && (value@ == "1"@ || value@ == "true"@)),
        (target is Tcp && port is Some) ==> target->address@ == "0.0.0.0:"@ + port->Some_0@,
        (target is UnixSocket && socket_path is Some) ==> target->path@ == socket_path->Some_0@,
{
    if use_tcp(&tcp) {
        let port = match port {
            Some(value) => value,
            None => String::from_str("3000"),
        };
        let mut address = String::from_str("0.0.0.0:");
        address.append(port.as_str());
        ListenTarget::Tcp { address }
    } else {
        let path = match socket_path {
            Some(value) => value,
            None => String::from_str("/tmp/rinha.sock"),
        };
        ListenTarget::UnixSocket { path, mode: UNIX_SOCKET_MODE }
    }
}

/// Only the exact settings `1` and `true` select TCP: every other value, and
/// no value at all, selects the Unix socket.
pub proof fn lemma_tcp_only_for_one_or_true(value: String)
    ensures
        tcp_requested(Some(value)) <==> (value@ == "1"@ || value@ == "true"@),
        !tcp_requested(None),
{
}

/// The worker's concurrency is the configured number whenever that number is
/// written as decimal digits (of any length) that fit in a `usize`, and 200
/// when nothing is configured.
pub proof fn lemma_configured_concurrency_used(value: String)
    requires
        value@.len() > 0,
        forall|i: int| 0 <= i < value@.len() ==> '0' <= #[trigger] value@[i] && value@[i] <= '9',
        digits_value(value@) <= usize::MAX,
    ensures
        (match parsed_usize(value@) {
            Some(parsed) => parsed,
            None => DEFAULT_MAX_CONCURRENT_MESSAGES,
        }) == digits_value(value@),
{
    lemma_digit_strings_parse(value@);
}

} // verus!
