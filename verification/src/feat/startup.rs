//! Bringing the rules back at startup.

use crate::constants::network::ports::DEFAULT_TPROXY;
use crate::constants::timing::STARTUP_RULES_DEBOUNCE_MS;
use crate::feat::probe::tproxy_rules_disabled_cleanup;
use crate::feat::tproxy::RulesReconcile;
use vstd::prelude::*;
use vstd::utf8::encode_utf8;

verus! {

use crate::feat::probe::{law_stale_bytes, stale};

/// What the startup decision is told.
pub enum StartupEvent {
    /// It is called, so many milliseconds after the Unix epoch; nothing if the
    /// clock stands before it.
    Called(Option<u128>),
    /// The user's settings: whether the transparent proxy is on, and its port.
    Settings(Option<bool>, Option<u16>),
    /// What `ip rule` wrote, if it could be run.
    Listing(Option<Vec<u8>>),
}

/// What is to be done next at startup.
#[derive(Clone, Copy, Debug, PartialEq, Eq, Structural)]
pub enum StartupAction {
    /// Nothing more.
    Stop,
    /// Read the user's settings.
    ReadSettings,
    /// Run `ip rule`, which needs no elevation.
    ListRules,
    /// Run the script.
    Apply(RulesReconcile),
}

/// The time of a call in milliseconds, as 64 bits; 0 for a clock before the
/// Unix epoch.
pub open spec fn call_time(since_epoch_ms: Option<u128>) -> u64 {
    match since_epoch_ms {
        Some(ms) => (ms % 0x1_0000_0000_0000_0000) as u64,
        None => 0,
    }
}

/// Whether a call at `now_ms` comes too soon after the call at `last_ms`. A
/// clock that went back counts as too soon.
pub open spec fn too_soon(last_ms: u64, now_ms: u64) -> bool {
    now_ms - last_ms < STARTUP_RULES_DEBOUNCE_MS
}

/// The startup decision: from the time of the last call that was not dropped,
/// and an event, to that time from then on, and what is to be done next.
pub open spec fn startup(last_ms: u64, event: StartupEvent) -> (u64, StartupAction) {
    match event {
        StartupEvent::Called(since_epoch_ms) => {
            let now_ms = call_time(since_epoch_ms);
            if too_soon(last_ms, now_ms) {
                (last_ms, StartupAction::Stop)
            } else {
                (now_ms, StartupAction::ReadSettings)
            }
        },
        StartupEvent::Settings(enabled, tproxy_port) => {
            if enabled == Some(true) {
                let port = match tproxy_port {
                    Some(port) => port,
                    None => DEFAULT_TPROXY,
                };
                (last_ms, StartupAction::Apply(RulesReconcile::Enable(port)))
            } else {
                (last_ms, StartupAction::ListRules)
            }
        },
        StartupEvent::Listing(listing) => {
            let bytes = match listing {
                Some(bytes) => Some(bytes@),
                None => None,
            };
            if stale(bytes) {
                (last_ms, StartupAction::Apply(RulesReconcile::Disable))
            } else {
                (last_ms, StartupAction::Stop)
            }
        },
    }
}

/// Decides the re-application of the rules at startup: iptables state does not
/// survive a reboot, but it does survive a crash, so a leftover rule set must
/// be removed even while the toggle is off; otherwise a killed application
/// blackholes the machine's traffic. Elevation is asked for only when the
/// policy rule is really there, so an ordinary start never prompts for nothing.
///
/// Both the startup path and every start of the Core call this. Calls that
/// follow each other closely are dropped, so that they lead to a single
/// elevation prompt.
pub fn reconcile_startup_tproxy_rules(last_ms: u64, event: StartupEvent) -> (next: (
    u64,
    StartupAction,
))
    ensures
        next == startup(last_ms, event),
        event matches StartupEvent::Called(Some(ms)) ==> (ms < 0x1_0000_0000_0000_0000 ==> next
            == if ms >= last_ms + 5000 {
            (ms as u64, StartupAction::ReadSettings)
        } else {
            (last_ms, StartupAction::Stop)
        }),
        event matches StartupEvent::Settings(enabled, port) ==> next == (
            last_ms,
            if enabled == Some(true) {
                StartupAction::Apply(
                    RulesReconcile::Enable(
                        match port {
                            Some(port) => port,
                            None => 7896,
                        },
                    ),
                )
            } else {
                StartupAction::ListRules
            },
        ),
{
    match event {
        StartupEvent::Called(since_epoch_ms) => {
            let now_ms: u64 = match since_epoch_ms {
                Some(ms) => (ms % 0x1_0000_0000_0000_0000) as u64,
                None => 0,
            };
            if now_ms.saturating_sub(last_ms) < STARTUP_RULES_DEBOUNCE_MS {
                (last_ms, StartupAction::Stop)
            } else {
                (now_ms, StartupAction::ReadSettings)
            }
        },
        StartupEvent::Settings(enabled, tproxy_port) => {
            if enabled.unwrap_or(false) {
                let port: u16 = tproxy_port.unwrap_or(DEFAULT_TPROXY);
                (last_ms, StartupAction::Apply(RulesReconcile::Enable(port)))
            } else {
                (last_ms, StartupAction::ListRules)
            }
        },
        StartupEvent::Listing(listing) => match tproxy_rules_disabled_cleanup(listing) {
            Some(target) => (last_ms, StartupAction::Apply(target)),
            None => (last_ms, StartupAction::Stop),
        },
    }
}

/// Of two calls that follow each other closely, or with a clock that went back,
/// at most one goes on: once a call has gone on, the other is dropped and leaves
/// no trace.
pub proof fn law_close_calls_collapse(last_ms: u64, first: Option<u128>, second: Option<u128>)
    requires
        call_time(second) < call_time(first) + STARTUP_RULES_DEBOUNCE_MS,
    ensures
        ({
            let (between_ms, action) = startup(last_ms, StartupEvent::Called(first));
            action == StartupAction::ReadSettings ==> startup(
                between_ms,
                StartupEvent::Called(second),
            ) == (between_ms, StartupAction::Stop)
        }),
{
}

/// A call that comes late enough goes on, and later calls are measured against
/// it.
pub proof fn law_late_call_goes_on(last_ms: u64, since_epoch_ms: Option<u128>)
    requires
        call_time(since_epoch_ms) >= last_ms + STARTUP_RULES_DEBOUNCE_MS,
    ensures
        startup(last_ms, StartupEvent::Called(since_epoch_ms)) == (
            call_time(since_epoch_ms),
            StartupAction::ReadSettings,
        ),
{
}

/// While the toggle is off, the script runs at startup exactly if our rule is
/// still there, and then to remove it. An ordinary start prompts for nothing.
pub proof fn law_off_start(
    last_ms: u64,
    enabled: Option<bool>,
    tproxy_port: Option<u16>,
    listing: Option<Vec<u8>>,
)
    requires
        enabled != Some(true),
    ensures
        startup(last_ms, StartupEvent::Settings(enabled, tproxy_port)) == (
            last_ms,
            StartupAction::ListRules,
        ),
        startup(last_ms, StartupEvent::Listing(listing)).1 == if stale(
            match listing {
                Some(bytes) => Some(bytes@),
                None => None,
            },
        ) {
            StartupAction::Apply(RulesReconcile::Disable)
        } else {
            StartupAction::Stop
        },
{
}

/// While the toggle is on, the rules are brought back at startup for the user's
/// port, or for the usual one.
pub proof fn law_on_start(last_ms: u64, tproxy_port: Option<u16>)
    ensures
        startup(last_ms, StartupEvent::Settings(Some(true), tproxy_port)) == (
            last_ms,
            StartupAction::Apply(
                RulesReconcile::Enable(
                    match tproxy_port {
                        Some(port) => port,
                        None => DEFAULT_TPROXY,
                    },
                ),
            ),
        ),
{
}

/// Only a call that goes on changes the time that later calls are measured
/// against.
pub proof fn law_time_kept(last_ms: u64, event: StartupEvent)
    requires
        startup(last_ms, event).1 != StartupAction::ReadSettings,
    ensures
        startup(last_ms, event).0 == last_ms,
{
}

/// The time kept after a sequence of events.
pub open spec fn kept_time(last_ms: u64, events: Seq<StartupEvent>) -> u64
    decreases events.len(),
{
    if events.len() == 0 {
        last_ms
    } else {
        startup(kept_time(last_ms, events.drop_last()), events.last()).0
    }
}

/// Whether, in a sequence of events, the one at position `i` is a call that went
/// on.
pub open spec fn went_on(last_ms: u64, events: Seq<StartupEvent>, i: int) -> bool {
    &&& 0 <= i < events.len()
    &&& startup(kept_time(last_ms, events.take(i)), events[i]).1 == StartupAction::ReadSettings
}

/// The kept time never goes back.
proof fn lemma_kept_time_grows(last_ms: u64, events: Seq<StartupEvent>, from: int, to: int)
    requires
        0 <= from <= to <= events.len(),
    ensures
        kept_time(last_ms, events.take(from)) <= kept_time(last_ms, events.take(to)),
    decreases to - from,
{
    if from < to {
        lemma_kept_time_grows(last_ms, events, from, to - 1);
        assert(events.take(to).drop_last() =~= events.take(to - 1));
    }
}

/// However calls and other events follow each other, any two calls that went on
/// lie at least the debounce time apart.
pub proof fn law_calls_apart(last_ms: u64, events: Seq<StartupEvent>, i: int, j: int)
    requires
        i < j,
        went_on(last_ms, events, i),
        went_on(last_ms, events, j),
    ensures
        events[i] is Called,
        events[j] is Called,
        call_time(events[j]->Called_0) >= call_time(events[i]->Called_0)
            + STARTUP_RULES_DEBOUNCE_MS,
{
    assert(events.take(i + 1).drop_last() =~= events.take(i));
    assert(kept_time(last_ms, events.take(i + 1)) == call_time(events[i]->Called_0));
    lemma_kept_time_grows(last_ms, events, i + 1, j);
}

/// A call goes on exactly if it comes at least 5000 ms after the last one that
/// did, and its own time is kept then; any other call is dropped and leaves no
/// trace. A clock that runs past 64 bits starts over, and one before the Unix
/// epoch drops the call.
pub proof fn law_call_by_the_clock(last_ms: u64, ms: u128)
    ensures
        ms < 0x1_0000_0000_0000_0000 ==> startup(last_ms, StartupEvent::Called(Some(ms)))
            == if ms >= last_ms + 5000 {
            (ms as u64, StartupAction::ReadSettings)
        } else {
            (last_ms, StartupAction::Stop)
        },
        ms >= 0x1_0000_0000_0000_0000 ==> startup(last_ms, StartupEvent::Called(Some(ms)))
            == startup(
            last_ms,
            StartupEvent::Called(Some((ms - 0x1_0000_0000_0000_0000) as u128)),
        ),
        startup(last_ms, StartupEvent::Called(None)) == (last_ms, StartupAction::Stop),
{
    if ms >= 0x1_0000_0000_0000_0000 {
        vstd::arithmetic::div_mod::lemma_mod_sub_multiples_vanish(
            ms as int,
            0x1_0000_0000_0000_0000,
        );
    }
}

/// The settings lead to the user's port, or to 7896, exactly if the toggle is
/// on, and else to a look at the rules. The look leads to removing exactly if
/// the rules are there, and else to nothing. Neither touches the kept time.
pub proof fn law_settings_and_listing(
    last_ms: u64,
    enabled: Option<bool>,
    port: u16,
    listing: Vec<u8>,
)
    ensures
        startup(last_ms, StartupEvent::Settings(enabled, Some(port))) == (
            last_ms,
            if enabled == Some(true) {
                StartupAction::Apply(RulesReconcile::Enable(port))
            } else {
                StartupAction::ListRules
            },
        ),
        startup(last_ms, StartupEvent::Settings(enabled, None)) == startup(
            last_ms,
            StartupEvent::Settings(enabled, Some(7896)),
        ),
        startup(last_ms, StartupEvent::Listing(None)) == (last_ms, StartupAction::Stop),
        startup(last_ms, StartupEvent::Listing(Some(listing))) == (
            last_ms,
            if {
                ||| exists|before: Seq<u8>, after: Seq<u8>|
                    listing@ == #[trigger] (before + encode_utf8("fwmark 0xff lookup 100"@) + after)
                        && (after.len() == 0 || !(0x30 <= after[0] <= 0x39))
                ||| exists|before: Seq<u8>, after: Seq<u8>|
                    listing@ == #[trigger] (before + encode_utf8("fwmark 255 lookup 100"@) + after)
                        && (after.len() == 0 || !(0x30 <= after[0] <= 0x39))
            } {
                StartupAction::Apply(RulesReconcile::Disable)
            } else {
                StartupAction::Stop
            },
        ),
{
    law_stale_bytes(listing@);
}

} // verus!
