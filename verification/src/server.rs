//! Server start-up decisions: effective settings and the ports to try.

use vstd::prelude::*;
use crate::config::CodexConfig;

verus! {

/// The default character limit of a read when nothing else sets one.
pub const DEFAULT_LIMIT: usize = 16000;

/// How many ports after the first one are tried when it is taken.
pub const PORT_SPAN: u16 = 100;

/// The settings the server runs with.
#[derive(Debug, Clone, Copy, PartialEq, Eq)]
pub struct ServerSettings {
    /// Reading offset used when a request gives none.
    pub default_offset: usize,
    /// Reading limit used when a request gives none.
    pub default_limit: usize,
    /// First HTTP port to try; `None` serves over stdio.
    pub port: Option<u16>,
}

/// The value given on the command line, else the configured one, else the
/// built-in default.
pub open spec fn first_given<T>(cli: Option<T>, configured: Option<T>, default: T) -> T {
    match cli {
        Some(v) => v,
        None => match configured {
            Some(v) => v,
            None => default,
        },
    }
}

/// The settings from the command line and the configuration: the command
/// line wins; the offset defaults to 0 and the limit to 16000; without a port
/// on either side the server uses stdio.
pub fn server_settings(
    cli_port: Option<u16>,
    cli_offset: Option<usize>,
    cli_limit: Option<usize>,
    config: &CodexConfig,
) -> (r: ServerSettings)
    ensures
        r.default_offset == first_given(cli_offset, config.default_offset, 0usize),
        r.default_limit == first_given(cli_limit, config.default_limit, DEFAULT_LIMIT),
        r.port == (if cli_port is Some { cli_port } else { config.port }),
{
    let default_offset = match cli_offset {
        Some(v) => v,
        None => match config.default_offset {
            Some(v) => v,
            None => 0,
        },
    };
    let default_limit = match cli_limit {
        Some(v) => v,
        None => match config.default_limit {
            Some(v) => v,
            None => DEFAULT_LIMIT,
        },
    };
    let port = match cli_port {
        Some(p) => Some(p),
        None => config.port,
    };
    ServerSettings { default_offset, default_limit, port }
}

/// The ports tried in turn for the HTTP server: from `start` up to and
/// including `start + 100`. The last of them must be a valid port.
pub fn port_candidates(start: u16) -> (r: Vec<u16>)
    requires
        start + PORT_SPAN <= u16::MAX,
    ensures
        r@.len() == PORT_SPAN + 1,
        forall|i: int| 0 <= i < r@.len() ==> r@[i] == start + i,
{
    let last = start + PORT_SPAN;
    let mut r: Vec<u16> = Vec::new();
    let mut p = start;
    loop
        invariant_except_break
            start <= p <= last,
            r@.len() == p - start,
        invariant
            last == start + PORT_SPAN,
            forall|i: int| 0 <= i < r@.len() ==> r@[i] == start + i,
        ensures
            r@.len() == PORT_SPAN + 1,
        decreases last - p,
    {
        r.push(p);
        if p == last {
            break;
        }
        p = p + 1;
    }
    r
}

} // verus!
