//! The ports that the Core listens on unless the user says otherwise.

use vstd::prelude::*;

verus! {

/// Redirected TCP.
pub const DEFAULT_REDIR: u16 = 7895;

/// TPROXY.
pub const DEFAULT_TPROXY: u16 = 7896;

/// HTTP and SOCKS on one port.
pub const DEFAULT_MIXED: u16 = 7897;

/// SOCKS.
pub const DEFAULT_SOCKS: u16 = 7898;

/// HTTP.
pub const DEFAULT_HTTP: u16 = 7899;

/// The default ports are five in a row, so no two listeners share one.
pub proof fn law_default_ports()
    ensures
        DEFAULT_REDIR == 7895,
        DEFAULT_TPROXY == DEFAULT_REDIR + 1,
        DEFAULT_MIXED == DEFAULT_TPROXY + 1,
        DEFAULT_SOCKS == DEFAULT_MIXED + 1,
        DEFAULT_HTTP == DEFAULT_SOCKS + 1,
{
}

} // verus!
