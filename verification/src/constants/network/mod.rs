//! Network addresses.

use vstd::prelude::*;

pub mod ports;

verus! {

/// Where the Core's controller listens unless the user says otherwise.
pub const DEFAULT_EXTERNAL_CONTROLLER: &'static str = "127.0.0.1:9097";

/// The controller listens on this machine alone, at port 9097.
pub proof fn law_default_controller()
    ensures
        DEFAULT_EXTERNAL_CONTROLLER@ == "127.0.0.1:"@ + "9097"@,
{
    reveal_strlit("127.0.0.1:9097");
    reveal_strlit("127.0.0.1:");
    reveal_strlit("9097");
    assert(DEFAULT_EXTERNAL_CONTROLLER@ =~= "127.0.0.1:"@ + "9097"@);
}

} // verus!
