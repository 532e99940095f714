//! TUN device.

use vstd::prelude::*;

verus! {

/// The network stack that is used unless the user says otherwise.
pub const DEFAULT_STACK: &'static str = "gvisor";

/// The address whose DNS is taken over unless the user says otherwise.
pub const DNS_HIJACK: [&'static str; 1] = ["any:53"];

/// The stack, and the one address whose DNS is taken over: port 53 of any host.
pub proof fn law_tun_defaults()
    ensures
        DEFAULT_STACK@ == "gvisor"@,
        DNS_HIJACK@.len() == 1,
        DNS_HIJACK@[0]@ == "any:53"@,
{
}

} // verus!
