//! TPROXY transparent proxy.

use vstd::prelude::*;

verus! {

/// The fwmark that TPROXY sets on diverted packets and that the policy rule
/// matches.
pub const MARK: u32 = 0xff;

/// The routing table that holds the `local 0.0.0.0/0` route, which delivers
/// marked packets to the TPROXY socket.
pub const TABLE: u32 = 100;

/// The `ip rule` priority, kept apart from the rules that other tools install.
pub const PREF: u32 = 7890;

/// The port of Mihomo's `dns.listen` that diverted LAN DNS (port 53) is
/// redirected to.
pub const DNS_PORT: u16 = 1053;

/// The numbers that the rules and the DNS server share with the script.
pub proof fn law_rule_numbers()
    ensures
        MARK == 255,
        TABLE == 100,
        PREF == 7890,
        DNS_PORT == 1000 + 53,
{
}

} // verus!
