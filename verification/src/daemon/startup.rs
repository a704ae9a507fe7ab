//! What the daemon decides and says before it runs.

use crate::daemon::config::{self, Config};
use crate::proto::{ChargeControlMode, VERSION};
use crate::smc::error::{self, mode_text};
use crate::text;
use vstd::prelude::*;

verus! {

/// How often the daemon checks for a shutdown signal while it waits, in
/// nanoseconds.
pub const SHUTDOWN_POLL: u64 = 200_000_000;

/// Whether the daemon may run: as root, or where it was told that it need not.
pub open spec fn permission(root: bool, allow_unprivileged: bool) -> Result<(), Seq<char>> {
    if root || allow_unprivileged {
        Ok(())
    } else {
        Err("the daemon needs root; run it with sudo or pass --allow-unprivileged"@)
    }
}

/// Fails unless the daemon may run: as root, or where it was told that it need
/// not.
pub fn may_run(root: bool, allow_unprivileged: bool) -> (r: Result<(), String>)
    ensures
        text::told(r) == permission(root, allow_unprivileged),
{
    if !root && !allow_unprivileged {
        return Err(
            "the daemon needs root; run it with sudo or pass --allow-unprivileged".to_string(),
        );
    }
    Ok(())
}

/// The configuration to start with, and what is said of a file that cannot be
/// read: no file means the default, and so does one that cannot be read.
pub open spec fn starting_config(
    loaded: Result<Option<Config>, Seq<char>>,
    path: Seq<char>,
) -> (Config, Option<Seq<char>>) {
    match loaded {
        Ok(Some(config)) => (config, None),
        Ok(None) => (config::default_config(), None),
        Err(message) => (
            config::default_config(),
            Some("cannot read "@ + path + ": "@ + message + "; using defaults"@),
        ),
    }
}

/// Decides which configuration to start with. `loaded` is the file at `path`,
/// or that there is none, or why it cannot be read.
pub fn initial_config(loaded: Result<Option<Config>, String>, path: &str) -> (r: (
    Config,
    Option<String>,
))
    ensures
        (r.0, text::chars(r.1)) == starting_config(text::told(loaded), path@),
{
    match loaded {
        Ok(Some(config)) => (config, None),
        Ok(None) => (Config::default(), None),
        Err(message) => (
            Config::default(),
            Some(text::text5("cannot read ", path, ": ", message.as_str(), "; using defaults")),
        ),
    }
}

/// The first line of the log of a run.
pub open spec fn starting_text(mode: ChargeControlMode, config: Config, root: bool) -> Seq<char> {
    "chargecapd "@ + VERSION@ + " starting: mode "@ + error::mode_name(mode) + ", band "@
        + text::decimal(config.upper as nat) + "/"@ + text::decimal(config.lower as nat)
        + ", root "@ + text::truth(root)
}

/// Returns the first line of the log of a run.
pub fn starting_line(mode: ChargeControlMode, config: &Config, root: bool) -> (r: String)
    ensures
        r@ == starting_text(mode, *config, root),
{
    let head = text::text5("chargecapd ", VERSION, " starting: mode ", mode_text(mode), ", band ");
    let band = text::text4(
        head.as_str(),
        text::decimal_text(config.upper as u64).as_str(),
        "/",
        text::decimal_text(config.lower as u64).as_str(),
    );
    text::text3(band.as_str(), ", root ", text::truth_text(root))
}

/// The daemon waits for its next tick.
pub open spec fn waits(start: u64, now: u64, interval: u64, shutdown: bool) -> bool {
    !shutdown && now < start + interval
}

/// Returns true while the daemon waits for its next tick: until the interval
/// since `start` is over, or a signal arrives. Times are in nanoseconds.
pub fn waiting(start: u64, now: u64, interval: u64, shutdown: bool) -> (r: bool)
    ensures
        r == waits(start, now, interval, shutdown),
{
    !shutdown && (now < start || now - start < interval)
}

/// Root may always run the daemon, and nobody else unless told so.
pub proof fn the_daemon_needs_root(allow_unprivileged: bool)
    ensures
        permission(true, allow_unprivileged) is Ok,
        permission(false, allow_unprivileged) is Ok <==> allow_unprivileged,
{
}

/// A wait ends with the interval, no sooner and no later, and at once with a
/// signal. One that ended stays ended.
pub proof fn a_wait_ends_with_its_interval(start: u64, now: u64, later: u64, interval: u64)
    requires
        now <= later,
    ensures
        !waits(start, now, interval, true),
        now - start < interval ==> waits(start, now, interval, false),
        now - start >= interval ==> !waits(start, now, interval, false),
        waits(start, later, interval, false) ==> waits(start, now, interval, false),
{
}

/// The first line of the log ends with the band, the upper limit before the
/// lower one, and with whether the daemon is root.
pub proof fn the_first_line_tells_the_band(
    mode: ChargeControlMode,
    config: Config,
    root: bool,
)
    ensures
        ({
            let line = starting_text(mode, config, root);
            let end = ", band "@ + text::decimal(config.upper as nat) + "/"@ + text::decimal(
                config.lower as nat,
            ) + ", root "@ + (if root {
                "true"@
            } else {
                "false"@
            });
            let start = "chargecapd "@ + VERSION@ + " starting: mode "@ + (match mode {
                ChargeControlMode::Legacy => "Legacy"@,
                ChargeControlMode::Firmware => "Firmware"@,
                ChargeControlMode::Unsupported => "Unsupported"@,
            });
            line == start + end
        }),
{
}

} // verus!
