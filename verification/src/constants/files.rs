//! Names of files in the application's directory.

use vstd::prelude::*;

verus! {

/// The configuration that the Core runs with.
pub const RUNTIME_CONFIG: &'static str = "clash-verge.yaml";

/// The configuration that is checked before it is used.
pub const CHECK_CONFIG: &'static str = "clash-verge-check.yaml";

/// The user's DNS settings.
pub const DNS_CONFIG: &'static str = "dns_config.yaml";

/// The position and size of the window.
pub const WINDOW_STATE: &'static str = "window_state.json";

/// The script that installs and removes the TPROXY rules.
pub const TPROXY_SCRIPT: &'static str = "tproxy.sh";

/// The names of the files.
pub proof fn law_file_names()
    ensures
        RUNTIME_CONFIG@ == "clash-verge.yaml"@,
        CHECK_CONFIG@ == "clash-verge-check.yaml"@,
        DNS_CONFIG@ == "dns_config.yaml"@,
        WINDOW_STATE@ == "window_state.json"@,
        TPROXY_SCRIPT@ == "tproxy.sh"@,
{
}

} // verus!
