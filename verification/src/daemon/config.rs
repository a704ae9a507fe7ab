//! Daemon configuration.

use crate::proto::{MagsafeLedMode, DEFAULT_GAP, DEFAULT_UPPER};
use vstd::prelude::*;

verus! {

/// Mode of the config file.
pub const CONFIG_MODE: u32 = 0o644;

/// Mode of the directory that holds the config file.
pub const DIR_MODE: u32 = 0o755;

/// Everything the daemon persists between runs.
#[derive(Debug, Clone, Copy, PartialEq, Eq)]
pub struct Config {
    /// Charging stops at or above this percent. 100 disables the limit.
    pub upper: u8,
    /// Charging restarts below this percent.
    pub lower: u8,
    pub magsafe_led: MagsafeLedMode,
    pub adapter_enabled: bool,
    pub top_up_active: bool,
    /// Close the charge gate before sleep below `lower` too.
    pub inhibit_on_sleep_always: bool,
}

/// The configuration of a daemon that was never told anything.
pub open spec fn default_config() -> Config {
    Config {
        upper: DEFAULT_UPPER,
        lower: (DEFAULT_UPPER - DEFAULT_GAP) as u8,
        magsafe_led: MagsafeLedMode::System,
        adapter_enabled: true,
        top_up_active: false,
        inhibit_on_sleep_always: false,
    }
}

impl Default for Config {
    fn default() -> (r: Self)
        ensures
            r == default_config(),
    {
        Config {
            upper: DEFAULT_UPPER,
            lower: DEFAULT_UPPER - DEFAULT_GAP,
            magsafe_led: MagsafeLedMode::System,
            adapter_enabled: true,
            top_up_active: false,
            inhibit_on_sleep_always: false,
        }
    }
}

} // verus!
