//! Delays, in the unit that each name ends in.

use vstd::prelude::*;

verus! {

/// How long configuration updates are collected before they are applied.
pub const CONFIG_UPDATE_DEBOUNCE_MS: u64 = 300;

/// How long an error at startup waits before it is shown.
pub const STARTUP_ERROR_DELAY_MS: u64 = 2000;

/// How long a re-asked staging request is worth waiting for. One that already
/// landed answers in milliseconds; anything slower means that the Service is
/// still working, and replacing the Core beats waiting.
pub const STAGE_CONFIRM_TIMEOUT_MS: u64 = 5000;

/// How close together two calls to restore the rules at startup count as one.
pub const STARTUP_RULES_DEBOUNCE_MS: u64 = 5000;

/// How long a user gets to answer the elevation prompt before the toggle fails.
pub const ELEVATION_TIMEOUT_SECS: u32 = 120;

/// How long to wait between two looks at a running command.
pub const ELEVATION_POLL_MS: u64 = 200;

/// The delays in milliseconds, and the elevation timeout as 600 looks at the
/// command.
pub proof fn law_delays()
    ensures
        CONFIG_UPDATE_DEBOUNCE_MS == 300,
        STARTUP_ERROR_DELAY_MS == 2 * 1000,
        STAGE_CONFIRM_TIMEOUT_MS == 5 * 1000,
        STARTUP_RULES_DEBOUNCE_MS == 5 * 1000,
        ELEVATION_POLL_MS == 200,
        ELEVATION_TIMEOUT_SECS * 1000 == 600 * ELEVATION_POLL_MS,
{
}

} // verus!
