//! Label helpers for the status-bar title and the menu rows.
//!
//! Every function takes `Option<&Status>`, where `None` means the daemon did
//! not answer.

use crate::proto::{ChargeControlMode, Status, StatusView, MAX_UPPER, MIN_UPPER};
use crate::text;
use vstd::prelude::*;

verus! {

/// Step between two preset limits, in percent.
pub const PRESET_STEP: u8 = 5;

/// Shown in the status bar when the daemon does not answer.
pub const UNKNOWN_TITLE: &'static str = "⚠︎";

/// Shown in the first menu row when the daemon does not answer.
pub const NOT_RUNNING_ROW: &'static str = "Daemon not running — run: sudo chargecapd install";

/// The status as the labels see it.
pub open spec fn seen(status: Option<&Status>) -> Option<StatusView> {
    match status {
        Some(status) => Some(status@),
        None => None,
    }
}

/// The preset limits: every fifth percent from the lowest limit up to, and
/// without, 100.
pub open spec fn preset_limits() -> Seq<u8> {
    Seq::new(
        ((MAX_UPPER - MIN_UPPER) / PRESET_STEP as int) as nat,
        |i: int| (MIN_UPPER + i * PRESET_STEP) as u8,
    )
}

/// Returns the preset limits offered in the menu: 50, 55, ... 95.
///
/// 100 is not a preset; the "Limit enabled" row turns the limit off instead.
pub fn presets() -> (r: Vec<u8>)
    ensures
        r@ == preset_limits(),
{
    let mut out: Vec<u8> = Vec::new();
    let mut percent: u8 = MIN_UPPER;
    while percent < MAX_UPPER
        invariant
            percent <= MAX_UPPER,
            percent == MIN_UPPER + out@.len() * PRESET_STEP,
            out@.len() <= preset_limits().len(),
            out@ == preset_limits().take(out@.len() as int),
        decreases MAX_UPPER - percent,
    {
        out.push(percent);
        percent = percent + PRESET_STEP;
        assert(out@ =~= preset_limits().take(out@.len() as int));
    }
    assert(out@ =~= preset_limits());
    out
}

/// The sign that follows the percent in the status bar. A discharge wins over
/// a top-up, and both win over the state of the limit.
pub open spec fn title_sign(s: StatusView) -> Seq<char> {
    if !s.adapter_enabled {
        "% ↓"@
    } else if s.top_up_active {
        "% ↑ 100"@
    } else if s.upper >= MAX_UPPER {
        "% ∞"@
    } else if !s.plugged_in {
        "%"@
    } else if !s.charging_allowed {
        "% ■"@
    } else if s.battery_percent < s.upper {
        "% ↑"@
    } else {
        "%"@
    }
}

/// The status-bar title.
pub open spec fn title_of(status: Option<StatusView>) -> Seq<char> {
    match status {
        None => UNKNOWN_TITLE@,
        Some(s) => text::decimal(s.battery_percent as nat) + title_sign(s),
    }
}

/// Returns the status-bar title for `status`.
///
/// | State | Title |
/// |---|---|
/// | no daemon | `⚠︎` |
/// | discharging to the limit | `90% ↓` |
/// | topping up | `78% ↑ 100` |
/// | limit off (`upper == 100`) | `93% ∞` |
/// | unplugged | `64%` |
/// | plugged in, charging blocked | `80% ■` |
/// | plugged in, charging below the limit | `78% ↑` |
pub fn title(status: Option<&Status>) -> (r: String)
    ensures
        r@ == title_of(seen(status)),
{
    match status {
        None => UNKNOWN_TITLE.to_string(),
        Some(s) => {
            let sign = if !s.adapter_enabled {
                "% ↓"
            } else if s.top_up_active {
                "% ↑ 100"
            } else if s.upper >= MAX_UPPER {
                "% ∞"
            } else if !s.plugged_in {
                "%"
            } else if !s.charging_allowed {
                "% ■"
            } else if s.battery_percent < s.upper {
                "% ↑"
            } else {
                "%"
            };
            text::text2(text::decimal_text(s.battery_percent as u64).as_str(), sign)
        },
    }
}

/// What the first menu row says of the limit.
pub open spec fn state_of(s: StatusView) -> Seq<char> {
    let limit = text::decimal(s.upper as nat);
    if s.upper >= MAX_UPPER {
        "Limit off"@
    } else if !s.plugged_in {
        "On battery"@
    } else if !s.charging_allowed {
        "Holding at "@ + limit + "%"@
    } else if s.battery_percent < s.upper {
        "Charging to "@ + limit + "%"@
    } else {
        "At the "@ + limit + "% limit"@
    }
}

/// The first menu row.
pub open spec fn summary_of(status: Option<StatusView>) -> Seq<char> {
    match status {
        None => "🔋 "@ + NOT_RUNNING_ROW@,
        Some(s) => "🔋 "@ + text::decimal(s.battery_percent as nat) + "% · "@ + state_of(s),
    }
}

/// Returns the first menu row, also used as the tooltip.
pub fn summary(status: Option<&Status>) -> (r: String)
    ensures
        r@ == summary_of(seen(status)),
{
    match status {
        None => text::text2("🔋 ", NOT_RUNNING_ROW),
        Some(s) => {
            let limit = text::decimal_text(s.upper as u64);
            let state = if s.upper >= MAX_UPPER {
                "Limit off".to_string()
            } else if !s.plugged_in {
                "On battery".to_string()
            } else if !s.charging_allowed {
                text::text3("Holding at ", limit.as_str(), "%")
            } else if s.battery_percent < s.upper {
                text::text3("Charging to ", limit.as_str(), "%")
            } else {
                text::text3("At the ", limit.as_str(), "% limit")
            };
            text::text4(
                "🔋 ",
                text::decimal_text(s.battery_percent as u64).as_str(),
                "% · ",
                state.as_str(),
            )
        },
    }
}

/// The "Charge limit" row.
pub open spec fn limit_row_of(status: Option<StatusView>) -> Seq<char> {
    match status {
        None => "Charge limit: unknown"@,
        Some(s) => if s.upper >= MAX_UPPER {
            "Charge limit: off"@
        } else {
            "Charge limit: "@ + text::decimal(s.upper as nat) + "%"@
        },
    }
}

/// Returns the disabled "Charge limit" row.
pub fn limit_row(status: Option<&Status>) -> (r: String)
    ensures
        r@ == limit_row_of(seen(status)),
{
    match status {
        None => "Charge limit: unknown".to_string(),
        Some(s) => if s.upper >= MAX_UPPER {
            "Charge limit: off".to_string()
        } else {
            text::text3("Charge limit: ", text::decimal_text(s.upper as u64).as_str(), "%")
        },
    }
}

/// The name of a charge control mode in the menu.
pub open spec fn mode_label(mode: ChargeControlMode) -> Seq<char> {
    match mode {
        ChargeControlMode::Legacy => "legacy"@,
        ChargeControlMode::Firmware => "firmware"@,
        ChargeControlMode::Unsupported => "unsupported"@,
    }
}

/// The daemon row.
pub open spec fn daemon_row_of(status: Option<StatusView>) -> Seq<char> {
    match status {
        None => NOT_RUNNING_ROW@,
        Some(s) => "Daemon: running · "@ + mode_label(s.mode) + " · v"@ + s.version,
    }
}

fn mode_name(mode: ChargeControlMode) -> (r: &'static str)
    ensures
        r@ == mode_label(mode),
{
    match mode {
        ChargeControlMode::Legacy => "legacy",
        ChargeControlMode::Firmware => "firmware",
        ChargeControlMode::Unsupported => "unsupported",
    }
}

/// Returns the disabled daemon row at the bottom of the menu.
pub fn daemon_row(status: Option<&Status>) -> (r: String)
    ensures
        r@ == daemon_row_of(seen(status)),
{
    match status {
        None => NOT_RUNNING_ROW.to_string(),
        Some(s) => text::text4(
            "Daemon: running · ",
            mode_name(s.mode),
            " · v",
            s.version.as_str(),
        ),
    }
}

/// Every preset is a limit that the daemon accepts, and none is the one that
/// turns the limit off.
pub proof fn presets_are_limits(i: int)
    requires
        0 <= i < preset_limits().len(),
    ensures
        crate::proto::validated(preset_limits()[i], None) is Ok,
        preset_limits()[i] < MAX_UPPER,
{
}

} // verus!
