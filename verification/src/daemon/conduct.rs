//! What the daemon does with each request, each tick and each event, told by
//! what comes in and what comes out.

use crate::daemon::config::Config;
use crate::daemon::control::{self, Action, Pace, PowerEvent};
use crate::daemon::laws;
use crate::daemon::legs::{self, State};
use crate::daemon::startup;
use crate::proto::{ChargeControlMode, MagsafeLedMode, Request, VERSION};
use crate::smc::driver::Exchange;
use crate::smc::error::{self, Fault};
use crate::smc::memory;
use crate::smc::run::{self, Probe};
use crate::smc::MagsafeLed;
use crate::text;
use vstd::prelude::*;

verus! {

// ---------------------------------------------------------------------------
// Requests
// ---------------------------------------------------------------------------

/// A request changes what it names, and nothing else. A limit request sets the
/// two percents: the upper one that it names, and the lower one that it names,
/// or else two points below; a limit of 100 is 100 on both ends. The setting for
/// sleep is no request's business.
pub proof fn a_request_changes_only_what_it_names(config: Config, request: Request, wanted: Config)
    requires
        legs::planned(config, request) == Ok::<Option<Config>, Seq<char>>(Some(wanted)),
    ensures
        wanted.inhibit_on_sleep_always == config.inhibit_on_sleep_always,
        !(request is SetLimit) ==> wanted.upper == config.upper && wanted.lower == config.lower,
        !(request is SetMagsafeLed) ==> wanted.magsafe_led == config.magsafe_led,
        !(request is SetAdapter) ==> wanted.adapter_enabled == config.adapter_enabled,
        !(request is TopUp) && !(request is CancelTopUp) ==> wanted.top_up_active
            == config.top_up_active,
        match request {
            Request::Status => false,
            Request::SetLimit { upper, lower } => {
                &&& wanted.upper == upper
                &&& upper == 100 ==> wanted.lower == 100
                &&& upper < 100 ==> match lower {
                    Some(low) => wanted.lower == low,
                    None => wanted.lower + 2 == upper,
                }
            },
            Request::SetAdapter { enabled } => wanted.adapter_enabled == enabled,
            Request::SetMagsafeLed { mode } => wanted.magsafe_led == mode,
            Request::TopUp => wanted.top_up_active,
            Request::CancelTopUp => !wanted.top_up_active,
        },
{
}

/// Only limits are turned down: an upper one outside 50 to 100, and below 100 a
/// lower one outside 40 to the upper one. A status request plans nothing, and
/// every other request plans something.
pub proof fn only_bad_limits_are_turned_down(config: Config, request: Request)
    ensures
        ({
            let plan = legs::planned(config, request);
            &&& plan == Ok::<Option<Config>, Seq<char>>(None) <==> request is Status
            &&& plan is Err <==> match request {
                Request::SetLimit { upper, lower } => {
                    ||| upper < 50
                    ||| upper > 100
                    ||| upper < 100 && match lower {
                        Some(low) => low < 40 || low >= upper,
                        None => false,
                    }
                },
                _ => false,
            }
        }),
{
}

/// Two requests that name different things can be told in either order.
pub proof fn settings_do_not_interfere(config: Config, a: Request, b: Request)
    requires
        a is SetLimit || a is SetAdapter || a is SetMagsafeLed || a is TopUp,
        b is SetLimit || b is SetAdapter || b is SetMagsafeLed || b is CancelTopUp,
        a is SetLimit ==> !(b is SetLimit),
        a is SetAdapter ==> !(b is SetAdapter),
        a is SetMagsafeLed ==> !(b is SetMagsafeLed),
        a is TopUp ==> !(b is CancelTopUp),
        legs::planned(config, a) is Ok,
        legs::planned(config, b) is Ok,
    ensures
        legs::planned(legs::planned(config, a)->Ok_0->0, b) == legs::planned(
            legs::planned(config, b)->Ok_0->0,
            a,
        ),
{
}

/// The settings of a daemon after any request: the plan of the request where it
/// has one, but that a top-up may have ended and that an adapter may have been
/// enabled again. Both end only by what the battery says.
pub proof fn an_answered_request_is_in_force(
    s: State,
    p: Probe,
    request: Request,
    failure: Option<Seq<char>>,
    now: u64,
    log: Seq<Exchange>,
    at: int,
)
    ensures
        ({
            let end = legs::apply_leg(s, p, request, failure, now, log, at).state.config;
            let wanted = match legs::planned(s.config, request) {
                Ok(Some(config)) => config,
                _ => s.config,
            };
            &&& end.upper == wanted.upper
            &&& end.lower == wanted.lower
            &&& end.magsafe_led == wanted.magsafe_led
            &&& end.inhibit_on_sleep_always == wanted.inhibit_on_sleep_always
            &&& end.top_up_active ==> wanted.top_up_active
            &&& wanted.adapter_enabled ==> end.adapter_enabled
            &&& request is Status || request is SetMagsafeLed ==> end == wanted
            &&& request is SetAdapter ==> end.top_up_active == wanted.top_up_active
        }),
{
    reveal(legs::apply_leg);
    let s1 = State { last_action: None, ..s };
    let s2 = match legs::planned(s.config, request) {
        Ok(Some(config)) => legs::after_save(State { config, ..s1 }, failure),
        _ => s1,
    };
    let prompted = legs::prompted_leg(s2, p, request, now, log, at);
    a_tick_leaves_the_settings_alone(s2, p, now, log, at);
    lemma_adapter_settings(s2, p, log, at);
    laws::a_status_keeps_the_config(prompted.state, p, log, legs::beyond(at, prompted));
}

proof fn lemma_adapter_settings(s: State, p: Probe, log: Seq<Exchange>, at: int)
    ensures
        ({
            let end = legs::adapter_leg(s, p, log, at).state.config;
            &&& end == (Config { adapter_enabled: end.adapter_enabled, ..s.config })
            &&& s.config.adapter_enabled ==> end.adapter_enabled
        }),
{
    reveal(legs::adapter_leg);
}

/// A configuration that could not be saved is in force all the same, and the
/// failure is told with the path.
pub proof fn a_failed_save_is_told(
    s: State,
    p: Probe,
    request: Request,
    message: Seq<char>,
    now: u64,
    log: Seq<Exchange>,
    at: int,
)
    requires
        legs::planned(s.config, request) matches Ok(Some(_)),
    ensures
        ({
            let end = legs::apply_leg(s, p, request, Some(message), now, log, at).state;
            s.errors.push(
                "cannot save config to "@ + s.config_path + ": "@ + message,
            ).is_prefix_of(end.errors)
        }),
{
    let s1 = State {
        config: legs::planned(s.config, request)->Ok_0->0,
        last_action: None,
        ..s
    };
    let s2 = legs::after_save(s1, Some(message));
    lemma_errors_grow(s2, p, request, now, log, at);
    reveal(legs::apply_leg);
    let prompted = legs::prompted_leg(s2, p, request, now, log, at);
    lemma_status_errors(prompted.state, p, log, legs::beyond(at, prompted));
}

proof fn lemma_status_errors(s: State, p: Probe, log: Seq<Exchange>, at: int)
    ensures
        s.errors.is_prefix_of(legs::status_leg(s, p, log, at).state.errors),
{
    reveal(legs::status_leg);
    reveal(legs::charging_leg);
}

proof fn lemma_led_errors(s: State, p: Probe, log: Seq<Exchange>, at: int)
    ensures
        s.errors.is_prefix_of(legs::led_leg(s, p, log, at).state.errors),
{
    reveal(legs::led_leg);
    reveal(legs::charging_leg);
}

proof fn lemma_adapter_errors(s: State, p: Probe, log: Seq<Exchange>, at: int)
    ensures
        s.errors.is_prefix_of(legs::adapter_leg(s, p, log, at).state.errors),
{
    reveal(legs::adapter_leg);
}

proof fn lemma_errors_grow(
    s: State,
    p: Probe,
    request: Request,
    now: u64,
    log: Seq<Exchange>,
    at: int,
)
    ensures
        s.errors.is_prefix_of(legs::prompted_leg(s, p, request, now, log, at).state.errors),
        s.errors.is_prefix_of(legs::tick_leg(s, p, now, log, at).state.errors),
{
    reveal(legs::tick_leg);
    let first = legs::top_up_leg(s, p, log, at);
    let at2 = legs::beyond(at, first);
    let second = legs::control_leg(first.state, p, now, log, at2);
    let at3 = legs::beyond(at2, second);
    let third = legs::adapter_leg(second.state, p, log, at3);
    lemma_adapter_errors(s, p, log, at);
    lemma_adapter_errors(second.state, p, log, at3);
    lemma_led_errors(third.state, p, log, legs::beyond(at3, third));
    reveal(legs::top_up_leg);
    reveal(legs::control_leg);
    assert(s.errors.is_prefix_of(first.state.errors));
    assert(first.state.errors.is_prefix_of(second.state.errors));
}

/// No error gets lost: whatever happens, those that were noted stay, in order.
pub proof fn errors_are_kept(
    s: State,
    p: Probe,
    request: Request,
    event: PowerEvent,
    now: u64,
    log: Seq<Exchange>,
    at: int,
)
    ensures
        s.errors.is_prefix_of(legs::tick_leg(s, p, now, log, at).state.errors),
        s.errors.is_prefix_of(legs::status_leg(s, p, log, at).state.errors),
        s.errors.is_prefix_of(legs::power_leg(s, p, event, now, log, at).state.errors),
        s.errors.is_prefix_of(legs::apply_leg(s, p, request, None, now, log, at).state.errors),
{
    lemma_errors_grow(s, p, request, now, log, at);
    lemma_status_errors(s, p, log, at);
    reveal(legs::power_leg);
    reveal(legs::apply_leg);
    let s2 = State {
        config: match legs::planned(s.config, request) {
            Ok(Some(config)) => config,
            _ => s.config,
        },
        last_action: None,
        ..s
    };
    lemma_errors_grow(s2, p, request, now, log, at);
    let prompted = legs::prompted_leg(s2, p, request, now, log, at);
    lemma_status_errors(prompted.state, p, log, legs::beyond(at, prompted));
}

/// A status request changes nothing but the errors, and sends what a status
/// report sends.
pub proof fn a_status_request_only_looks(
    s: State,
    p: Probe,
    failure: Option<Seq<char>>,
    now: u64,
    log: Seq<Exchange>,
    at: int,
)
    ensures
        ({
            let leg = legs::apply_leg(s, p, Request::Status, failure, now, log, at);
            let report = legs::status_leg(State { last_action: None, ..s }, p, log, at);
            &&& leg.sent == report.sent
            &&& leg.state.config == s.config
            &&& leg.state.unsaved == s.unsaved
            &&& leg.state.pace == s.pace
            &&& leg.state.last_led == s.last_led
            &&& leg.value.ok && leg.value.status == Some(report.value)
        }),
{
    reveal(legs::apply_leg);
    reveal(legs::status_leg);
    reveal(legs::charging_leg);
    let leg = legs::apply_leg(s, p, Request::Status, failure, now, log, at);
    let report = legs::status_leg(State { last_action: None, ..s }, p, log, at);
    assert(leg.sent =~= report.sent);
}

/// The adapter is moved at once, and a LED setting waits for the next tick: what
/// an adapter request sends starts with what the adapter asks for, and what a
/// LED request sends is what a status report sends.
pub proof fn the_adapter_does_not_wait(
    s: State,
    p: Probe,
    enabled: bool,
    mode: MagsafeLedMode,
    now: u64,
    log: Seq<Exchange>,
    at: int,
)
    ensures
        ({
            let told = State {
                config: Config { adapter_enabled: enabled, ..s.config },
                last_action: None,
                ..s
            };
            let request = Request::SetAdapter { enabled };
            legs::adapter_leg(told, p, log, at).sent.is_prefix_of(
                legs::apply_leg(s, p, request, None, now, log, at).sent,
            )
        }),
        ({
            let told = State {
                config: Config { magsafe_led: mode, ..s.config },
                last_action: None,
                ..s
            };
            let request = Request::SetMagsafeLed { mode };
            legs::apply_leg(s, p, request, None, now, log, at).sent == legs::status_leg(
                told,
                p,
                log,
                at,
            ).sent
        }),
{
    reveal(legs::apply_leg);
    let told = State { config: Config { magsafe_led: mode, ..s.config }, last_action: None, ..s };
    let request = Request::SetMagsafeLed { mode };
    assert(legs::apply_leg(s, p, request, None, now, log, at).sent =~= legs::status_leg(
        told,
        p,
        log,
        at,
    ).sent);
}

/// A top-up takes effect at once: the battery is looked at, and unless it is
/// full a tick without a limit follows.
pub proof fn a_top_up_starts_at_once(
    s: State,
    p: Probe,
    failure: Option<Seq<char>>,
    now: u64,
    log: Seq<Exchange>,
    at: int,
)
    requires
        run::battery_run(p, log, at).value matches Ok(percent) && percent < 100,
    ensures
        ({
            let battery = run::battery_run(p, log, at);
            let free = Config { upper: 100, lower: 100, top_up_active: true, ..s.config };
            let tick = control::tick_run(
                p,
                free,
                control::missed(s.pace.last_tick, now),
                log,
                run::past(at, battery),
            );
            (battery.sent + tick.sent).is_prefix_of(
                legs::apply_leg(s, p, Request::TopUp, failure, now, log, at).sent,
            )
        }),
{
    reveal(legs::apply_leg);
    reveal(legs::tick_leg);
    reveal(legs::top_up_leg);
    reveal(legs::control_leg);
}

// ---------------------------------------------------------------------------
// The status
// ---------------------------------------------------------------------------

/// Whether the machine may charge. In firmware mode a limit that is not active
/// stops nothing, at any percent, and an active one stops charging exactly from
/// its upper percent on. In legacy mode the charge gate says it. A Mac without
/// charge control charges. What cannot be read counts as no.
pub proof fn charging_is_allowed_below_an_active_limit(
    s: State,
    p: Probe,
    percent: u8,
    log: Seq<Exchange>,
    at: int,
)
    ensures
        ({
            let allowed = legs::charging_leg(s, p, percent, log, at).value;
            match p.mode {
                ChargeControlMode::Firmware => match run::firmware_limit_run(p, log, at).value {
                    Ok(limit) => {
                        &&& !limit.active ==> allowed
                        &&& limit.active ==> (allowed <==> percent < limit.upper)
                    },
                    Err(_) => !allowed,
                },
                ChargeControlMode::Legacy => match run::allowed_run(p, log, at).value {
                    Ok(open) => allowed == open,
                    Err(_) => !allowed,
                },
                ChargeControlMode::Unsupported => allowed,
            }
        }),
{
    reveal(legs::charging_leg);
}

/// The status says what was read, and what the configuration has: the battery,
/// the adapter, then whether the machine may charge at that battery percent.
pub proof fn the_status_says_what_is(s: State, p: Probe, log: Seq<Exchange>, at: int)
    ensures
        ({
            let leg = legs::status_leg(s, p, log, at);
            let status = leg.value;
            let battery = run::battery_run(p, log, at);
            let at2 = run::past(at, battery);
            let plugged = run::plugged_in_run(p, log, at2);
            let at3 = run::past(at2, plugged);
            &&& battery.value matches Ok(percent) ==> status.battery_percent == percent
            &&& plugged.value matches Ok(there) ==> status.plugged_in == there
            &&& p.mode == ChargeControlMode::Legacy ==> match run::allowed_run(p, log, at3).value {
                Ok(open) => status.charging_allowed == open,
                Err(_) => !status.charging_allowed,
            }
            &&& p.mode == ChargeControlMode::Firmware ==> match run::firmware_limit_run(
                p,
                log,
                at3,
            ).value {
                Ok(limit) => status.charging_allowed <==> !limit.active || status.battery_percent
                    < limit.upper,
                Err(_) => !status.charging_allowed,
            }
            &&& p.mode == ChargeControlMode::Unsupported ==> status.charging_allowed
            &&& status.version == VERSION@
            &&& status.mode == p.mode
            &&& status.upper == s.config.upper
            &&& status.lower == s.config.lower
            &&& status.adapter_enabled == s.config.adapter_enabled
            &&& status.magsafe_led == s.config.magsafe_led
            &&& status.top_up_active == s.config.top_up_active
            &&& status.last_error == leg.state.last_error
        }),
{
    reveal(legs::status_leg);
    reveal(legs::charging_leg);
}

/// A status that could read everything tells the last error as it was, and notes
/// none; and the state of the daemon stays.
pub proof fn a_status_that_reads_all_notes_nothing(s: State, p: Probe, log: Seq<Exchange>, at: int)
    requires
        ({
            let battery = run::battery_run(p, log, at);
            let at2 = run::past(at, battery);
            let plugged = run::plugged_in_run(p, log, at2);
            let at3 = run::past(at2, plugged);
            &&& battery.value is Ok
            &&& plugged.value is Ok
            &&& p.mode == ChargeControlMode::Legacy ==> run::allowed_run(p, log, at3).value is Ok
            &&& p.mode == ChargeControlMode::Firmware ==> run::firmware_limit_run(
                p,
                log,
                at3,
            ).value is Ok
        }),
    ensures
        legs::status_leg(s, p, log, at).state == s,
        legs::status_leg(s, p, log, at).value.last_error == s.last_error,
{
    reveal(legs::status_leg);
    reveal(legs::charging_leg);
}

// ---------------------------------------------------------------------------
// Ticks
// ---------------------------------------------------------------------------

/// A tick leaves every setting of the user alone, but that a top-up may end and
/// that an adapter may be enabled again. What changed is to be saved.
pub proof fn a_tick_leaves_the_settings_alone(
    s: State,
    p: Probe,
    now: u64,
    log: Seq<Exchange>,
    at: int,
)
    ensures
        ({
            let end = legs::tick_leg(s, p, now, log, at).state;
            &&& end.config.upper == s.config.upper
            &&& end.config.lower == s.config.lower
            &&& end.config.magsafe_led == s.config.magsafe_led
            &&& end.config.inhibit_on_sleep_always == s.config.inhibit_on_sleep_always
            &&& end.config.top_up_active ==> s.config.top_up_active
            &&& s.config.adapter_enabled ==> end.config.adapter_enabled
            &&& end.config != s.config ==> end.unsaved
            &&& s.unsaved ==> end.unsaved
            &&& end.unsaved ==> s.unsaved || end.config != s.config
            &&& end.config_path == s.config_path
            &&& end.pace.last_tick == Some(now)
            &&& end.pace.resume_after_wake == s.pace.resume_after_wake
        }),
{
    reveal(legs::tick_leg);
    reveal(legs::top_up_leg);
    reveal(legs::control_leg);
    reveal(legs::adapter_leg);
    reveal(legs::led_leg);
    reveal(legs::charging_leg);
}

/// The control loop works with the limits that were set, and without a limit
/// while a top-up is active. What it did is kept, and clears the last error; a
/// tick that did nothing changes neither; one that failed is noted.
pub proof fn the_loop_works_with_the_limits(
    s: State,
    p: Probe,
    now: u64,
    log: Seq<Exchange>,
    at: int,
)
    ensures
        ({
            let leg = legs::control_leg(s, p, now, log, at);
            let config = if s.config.top_up_active {
                Config { upper: 100, lower: 100, ..s.config }
            } else {
                s.config
            };
            let late = s.pace.last_tick matches Some(last) && now > last + 90_000_000_000;
            let tick = control::tick_run(p, config, late, log, at);
            &&& leg.sent == tick.sent
            &&& leg.state.config == s.config
            &&& match tick.value {
                Ok(action) => {
                    &&& leg.state.errors == s.errors
                    &&& action == Action::Sailing ==> leg.state.last_action is None
                        && leg.state.last_error == s.last_error
                    &&& action != Action::Sailing ==> leg.state.last_action == Some(action)
                        && leg.state.last_error is None
                },
                Err(e) => {
                    let told = "tick failed: "@ + error::fault_text(e);
                    &&& leg.state.last_action is None
                    &&& leg.state.last_error == Some(told)
                    &&& leg.state.errors == s.errors.push(told)
                },
            }
        }),
{
    reveal(legs::control_leg);
}

/// Ticks count as missed after more than 90 seconds, and never before the first
/// tick.
pub proof fn ticks_are_missed_after_ninety_seconds(last: u64, now: u64)
    ensures
        control::missed(Some(last), now) <==> now > last + 90_000_000_000,
        !control::missed(None, now),
{
}

/// An adapter that is where it is wanted is left alone, and any other is moved.
/// It is wanted where the configuration says so, and once the battery is no
/// higher than the limit. A Mac that cannot gate its adapter is sent nothing.
pub proof fn the_adapter_follows_the_wish(s: State, p: Probe, log: Seq<Exchange>, at: int)
    ensures
        ({
            let leg = legs::adapter_leg(s, p, log, at);
            let battery = run::battery_run(p, log, at);
            let looks = if s.config.adapter_enabled {
                Seq::empty()
            } else {
                battery.sent
            };
            let then = at + looks.len();
            let gate = run::adapter_run(p, log, then);
            let want = leg.state.config.adapter_enabled;
            let set = run::set_adapter_run(p, want, log, run::past(then, gate));
            if run::adapter_key(p) is None {
                leg.sent.len() == 0 && leg.state == s
            } else {
                &&& want <==> s.config.adapter_enabled || (battery.value matches Ok(percent)
                    && percent <= s.config.upper)
                &&& want != s.config.adapter_enabled ==> leg.state.unsaved
                &&& gate.value is Err || gate.value->Ok_0 == want ==> leg.sent == looks + gate.sent
                &&& gate.value is Ok && gate.value->Ok_0 != want ==> leg.sent == looks + gate.sent
                    + set.sent
            }
        }),
{
    reveal(legs::adapter_leg);
    let leg = legs::adapter_leg(s, p, log, at);
    let battery = run::battery_run(p, log, at);
    let looks = if s.config.adapter_enabled {
        Seq::empty()
    } else {
        battery.sent
    };
    let then = at + looks.len();
    let gate = run::adapter_run(p, log, then);
    let want = leg.state.config.adapter_enabled;
    let set = run::set_adapter_run(p, want, log, run::past(then, gate));
    if run::adapter_key(p) is Some {
        if gate.value is Ok && gate.value->Ok_0 != want {
            assert(leg.sent =~= looks + gate.sent + set.sent);
        } else {
            assert(leg.sent =~= looks + gate.sent);
        }
    }
}

/// The MagSafe LED. A Mac without one is sent nothing. Where the system drives
/// it, it is handed over once. Where it is to be off, it is turned off unless it
/// is.
pub proof fn the_led_follows_its_mode(s: State, p: Probe, log: Seq<Exchange>, at: int)
    ensures
        ({
            let leg = legs::led_leg(s, p, log, at);
            let shown = run::led_run(p, log, at);
            let there = p.present.contains_key(0x41434c43);
            &&& !there ==> leg.sent.len() == 0 && leg.state == s
            &&& there && s.config.magsafe_led == MagsafeLedMode::System ==> {
                let set = run::set_led_run(p, MagsafeLed::System, log, at);
                &&& s.last_led == Some(MagsafeLed::System) ==> leg.sent.len() == 0
                &&& s.last_led != Some(MagsafeLed::System) ==> leg.sent == set.sent
                &&& s.last_led != Some(MagsafeLed::System) && set.value is Ok ==> leg.state.last_led
                    == Some(MagsafeLed::System)
                &&& set.value is Err ==> leg.state.last_led == s.last_led
            }
            &&& there && s.config.magsafe_led == MagsafeLedMode::Off ==> {
                let set = run::set_led_run(p, MagsafeLed::Off, log, run::past(at, shown));
                &&& shown.value is Err || shown.value->Ok_0 == MagsafeLed::Off ==> leg.sent
                    == shown.sent
                &&& shown.value is Ok && shown.value->Ok_0 != MagsafeLed::Off ==> leg.sent
                    == shown.sent + set.sent
            }
        }),
{
    reveal(legs::led_leg);
    run::lemma_known_codes();
    memory::lemma_known_keys();
    let leg = legs::led_leg(s, p, log, at);
    let shown = run::led_run(p, log, at);
    let set = run::set_led_run(p, MagsafeLed::Off, log, run::past(at, shown));
    if p.present.contains_key(0x41434c43) && s.config.magsafe_led == MagsafeLedMode::Off {
        if shown.value is Ok && shown.value->Ok_0 != MagsafeLed::Off {
            assert(leg.sent =~= shown.sent + set.sent);
        } else {
            assert(leg.sent =~= shown.sent);
        }
    }
}

/// A LED that reflects the charge is orange where the machine may charge and
/// green where it may not: it is written unless it shows that colour, and no
/// other colour is written.
pub proof fn the_led_reflects_the_charge(s: State, p: Probe, log: Seq<Exchange>, at: int)
    requires
        p.present.contains_key(0x41434c43),
        s.config.magsafe_led == MagsafeLedMode::Reflect,
    ensures
        ({
            let leg = legs::led_leg(s, p, log, at);
            let battery = run::battery_run(p, log, at);
            let percent = if battery.value is Ok {
                battery.value->Ok_0
            } else {
                0u8
            };
            let at2 = run::past(at, battery);
            let charging = legs::charging_leg(legs::heard(s, battery).state, p, percent, log, at2);
            let at3 = legs::beyond(at2, charging);
            let shown = run::led_run(p, log, at3);
            let at4 = run::past(at3, shown);
            let colour = if charging.value {
                MagsafeLed::Orange
            } else {
                MagsafeLed::Green
            };
            let looks = battery.sent + charging.sent + shown.sent;
            &&& shown.value is Err || shown.value->Ok_0 == colour ==> leg.sent == looks
            &&& shown.value is Ok && shown.value->Ok_0 != colour ==> leg.sent == looks
                + run::set_led_run(p, colour, log, at4).sent
        }),
{
    reveal(legs::led_leg);
    run::lemma_known_codes();
    memory::lemma_known_keys();
    let leg = legs::led_leg(s, p, log, at);
    let battery = run::battery_run(p, log, at);
    let percent = if battery.value is Ok {
        battery.value->Ok_0
    } else {
        0u8
    };
    let at2 = run::past(at, battery);
    let charging = legs::charging_leg(legs::heard(s, battery).state, p, percent, log, at2);
    let at3 = legs::beyond(at2, charging);
    let shown = run::led_run(p, log, at3);
    let colour = if charging.value {
        MagsafeLed::Orange
    } else {
        MagsafeLed::Green
    };
    let looks = battery.sent + charging.sent + shown.sent;
    let set = run::set_led_run(p, colour, log, run::past(at3, shown));
    if shown.value is Ok && shown.value->Ok_0 != colour {
        assert(leg.sent =~= looks + set.sent);
    } else {
        assert(leg.sent =~= looks);
    }
}

/// The parts of a tick come in their order: the top-up, the control loop, the
/// adapter, the LED.
pub proof fn a_tick_has_four_parts(s: State, p: Probe, now: u64, log: Seq<Exchange>, at: int)
    ensures
        ({
            let first = legs::top_up_leg(s, p, log, at);
            let at2 = at + first.sent.len();
            let second = legs::control_leg(first.state, p, now, log, at2);
            let at3 = at2 + second.sent.len();
            let third = legs::adapter_leg(second.state, p, log, at3);
            let fourth = legs::led_leg(third.state, p, log, at3 + third.sent.len());
            let tick = legs::tick_leg(s, p, now, log, at);
            &&& tick.sent == first.sent + second.sent + third.sent + fourth.sent
            &&& tick.state == fourth.state
        }),
{
    reveal(legs::tick_leg);
    let first = legs::top_up_leg(s, p, log, at);
    let at2 = at + first.sent.len();
    let second = legs::control_leg(first.state, p, now, log, at2);
    let at3 = at2 + second.sent.len();
    let third = legs::adapter_leg(second.state, p, log, at3);
    let fourth = legs::led_leg(third.state, p, log, at3 + third.sent.len());
    assert(legs::tick_leg(s, p, now, log, at).sent =~= first.sent + second.sent + third.sent
        + fourth.sent);
}

/// What a tick does with the legacy gate that it reads. Without a limit it opens
/// a closed gate. With one, after missed ticks, it closes an open gate before
/// looking at the battery. Otherwise it closes an open gate from `upper` on,
/// opens a closed one below `lower`, and leaves it alone in between. It says
/// which of these it did, where the write succeeded.
pub proof fn a_legacy_tick_says_what_it_did(
    p: Probe,
    config: Config,
    missed: bool,
    log: Seq<Exchange>,
    at: int,
)
    requires
        p.mode == ChargeControlMode::Legacy,
        run::allowed_run(p, log, at).value is Ok,
    ensures
        ({
            let gate = run::allowed_run(p, log, at);
            let open = gate.value->Ok_0;
            let at2 = run::past(at, gate);
            let battery = run::battery_run(p, log, at2);
            let at3 = run::past(at2, battery);
            let percent = battery.value->Ok_0;
            let tick = control::tick_run(p, config, missed, log, at);
            let looks = gate.sent + battery.sent;
            if config.upper >= 100 {
                let set = run::set_gate_run(p, true, log, at2);
                &&& open ==> tick.sent == gate.sent && tick.value == Ok::<Action, Fault>(
                    Action::Sailing,
                )
                &&& !open ==> tick.sent == gate.sent + set.sent
                &&& !open && set.value is Ok ==> tick.value == Ok::<Action, Fault>(Action::Allowed)
                &&& !open && set.value is Err ==> tick.value is Err
            } else if missed && open {
                let set = run::set_gate_run(p, false, log, at2);
                &&& tick.sent == gate.sent + set.sent
                &&& set.value is Ok ==> tick.value == Ok::<Action, Fault>(
                    Action::InhibitedAfterMissedTicks,
                )
                &&& set.value is Err ==> tick.value is Err
            } else if battery.value is Err {
                tick.sent == looks && tick.value is Err
            } else if open && percent >= config.upper {
                let set = run::set_gate_run(p, false, log, at3);
                &&& tick.sent == looks + set.sent
                &&& set.value is Ok ==> tick.value == Ok::<Action, Fault>(Action::Inhibited)
                &&& set.value is Err ==> tick.value is Err
            } else if !open && percent < config.lower {
                let set = run::set_gate_run(p, true, log, at3);
                &&& tick.sent == looks + set.sent
                &&& set.value is Ok ==> tick.value == Ok::<Action, Fault>(Action::Allowed)
                &&& set.value is Err ==> tick.value is Err
            } else {
                tick.sent == looks && tick.value == Ok::<Action, Fault>(Action::Sailing)
            }
        }),
{
    reveal(control::tick_run);
    reveal(control::legacy_tick_run);
    let gate = run::allowed_run(p, log, at);
    let open = gate.value->Ok_0;
    let at2 = run::past(at, gate);
    let battery = run::battery_run(p, log, at2);
    let at3 = run::past(at2, battery);
    let tick = control::tick_run(p, config, missed, log, at);
    let looks = gate.sent + battery.sent;
    let none = Seq::<crate::smc::driver::Packet>::empty();
    assert(gate.sent + none =~= gate.sent);
    assert(looks + none =~= looks);
    assert(gate.sent + (battery.sent + run::set_gate_run(p, false, log, at3).sent) =~= looks
        + run::set_gate_run(p, false, log, at3).sent);
    assert(gate.sent + (battery.sent + run::set_gate_run(p, true, log, at3).sent) =~= looks
        + run::set_gate_run(p, true, log, at3).sent);
    assert(run::joined(gate.sent, battery.sent) =~= looks);
    assert(run::joined(gate.sent, run::set_gate_run(p, true, log, at2).sent) =~= gate.sent
        + run::set_gate_run(p, true, log, at2).sent);
    assert(run::joined(gate.sent, run::set_gate_run(p, false, log, at2).sent) =~= gate.sent
        + run::set_gate_run(p, false, log, at2).sent);
}

/// What a tick does with the firmware limit that it reads. Without a limit it
/// clears an active one. With one, it sets the band unless that is active
/// already. It says which of these it did, where that succeeded. On a Mac
/// without charge control it sends nothing, and says so.
pub proof fn a_firmware_tick_says_what_it_did(
    p: Probe,
    config: Config,
    missed: bool,
    log: Seq<Exchange>,
    at: int,
)
    ensures
        p.mode == ChargeControlMode::Unsupported ==> {
            let tick = control::tick_run(p, config, missed, log, at);
            tick.sent.len() == 0 && tick.value == Ok::<Action, Fault>(Action::Unsupported)
        },
        p.mode == ChargeControlMode::Firmware ==> {
            let read = run::firmware_limit_run(p, log, at);
            let limit = read.value->Ok_0;
            let then = run::past(at, read);
            let tick = control::tick_run(p, config, missed, log, at);
            let clear = run::clear_firmware_limit_run(p, log, then);
            let set = run::set_firmware_limit_run(p, config.lower, config.upper, log, then);
            if read.value is Err {
                tick.sent == read.sent && tick.value is Err
            } else if config.upper >= 100 && limit.active {
                &&& tick.sent == read.sent + clear.sent
                &&& clear.value is Ok ==> tick.value == Ok::<Action, Fault>(Action::FirmwareCleared)
                &&& clear.value is Err ==> tick.value is Err
            } else if config.upper < 100 && !(limit.active && limit.lower == config.lower
                && limit.upper == config.upper) {
                &&& tick.sent == read.sent + set.sent
                &&& set.value is Ok ==> tick.value == Ok::<Action, Fault>(
                    Action::FirmwareSet { lower: config.lower, upper: config.upper },
                )
                &&& set.value is Err ==> tick.value is Err
            } else {
                tick.sent == read.sent && tick.value == Ok::<Action, Fault>(Action::Sailing)
            }
        },
{
    reveal(control::tick_run);
    reveal(control::firmware_tick_run);
    let read = run::firmware_limit_run(p, log, at);
    let then = run::past(at, read);
    let clear = run::clear_firmware_limit_run(p, log, then);
    let set = run::set_firmware_limit_run(p, config.lower, config.upper, log, then);
    assert(run::joined(read.sent, clear.sent) =~= read.sent + clear.sent);
    assert(run::joined(read.sent, set.sent) =~= read.sent + set.sent);
}

// ---------------------------------------------------------------------------
// Sleep and wake
// ---------------------------------------------------------------------------

/// Below `lower` a Mac that goes to sleep may go on charging: an open gate stays
/// open and is not written, unless the configuration asks for it. From `lower`
/// on, or where it asks for it, an open gate is closed. A closed one is left
/// alone.
pub proof fn sleep_below_the_band_may_charge(
    p: Probe,
    config: Config,
    log: Seq<Exchange>,
    at: int,
)
    requires
        p.mode == ChargeControlMode::Legacy,
        config.upper < 100,
        run::allowed_run(p, log, at).value is Ok,
    ensures
        ({
            let gate = run::allowed_run(p, log, at);
            let battery = run::battery_run(p, log, run::past(at, gate));
            let sleep = control::power_run(p, config, PowerEvent::WillSleep, log, at);
            let close = run::set_gate_run(
                p,
                false,
                log,
                run::past(run::past(at, gate), battery),
            );
            &&& !gate.value->Ok_0 ==> sleep.sent == gate.sent && sleep.value == Ok::<Action, Fault>(
                Action::Sailing,
            )
            &&& gate.value->Ok_0 && battery.value is Ok ==> {
                let percent = battery.value->Ok_0;
                if percent < config.lower && !config.inhibit_on_sleep_always {
                    &&& sleep.value == Ok::<Action, Fault>(Action::Sailing)
                    &&& sleep.sent == gate.sent + battery.sent
                } else {
                    &&& sleep.sent == gate.sent + battery.sent + close.sent
                    &&& close.value is Ok ==> sleep.value == Ok::<Action, Fault>(
                        Action::InhibitedForSleep,
                    )
                    &&& close.value is Err ==> sleep.value is Err
                }
            }
        }),
{
    reveal(control::power_run);
    reveal(control::will_sleep_run);
    let gate = run::allowed_run(p, log, at);
    let battery = run::battery_run(p, log, run::past(at, gate));
    let sleep = control::power_run(p, config, PowerEvent::WillSleep, log, at);
    let close = run::set_gate_run(p, false, log, run::past(run::past(at, gate), battery));
    if gate.value->Ok_0 && battery.value is Ok {
        if battery.value->Ok_0 < config.lower && !config.inhibit_on_sleep_always {
            assert(sleep.sent =~= gate.sent + battery.sent);
        } else {
            assert(sleep.sent =~= gate.sent + battery.sent + close.sent);
        }
    }
}

/// A wake is a tick that trusts the battery, however long the sleep was.
pub proof fn a_wake_is_a_tick(p: Probe, config: Config, log: Seq<Exchange>, at: int)
    requires
        p.mode == ChargeControlMode::Legacy,
        config.upper < 100,
    ensures
        control::power_run(p, config, PowerEvent::DidWake, log, at) == control::tick_run(
            p,
            config,
            false,
            log,
            at,
        ),
{
    reveal(control::power_run);
}

/// A gate that was closed for sleep is remembered until the machine wakes, and
/// the wake counts as a tick. Where sleep is none of the daemon's business,
/// nothing is remembered.
pub proof fn a_closed_gate_is_remembered(
    before: Pace,
    p: Probe,
    config: Config,
    now: u64,
    value: Result<Action, Fault>,
)
    ensures
        ({
            let live = p.mode == ChargeControlMode::Legacy && config.upper < 100;
            let slept = control::pace_after(before, p, config, PowerEvent::WillSleep, now, value);
            let woke = control::pace_after(before, p, config, PowerEvent::DidWake, now, value);
            &&& slept.last_tick == before.last_tick
            &&& live && value == Ok::<Action, Fault>(Action::InhibitedForSleep)
                ==> slept.resume_after_wake
            &&& !(live && value == Ok::<Action, Fault>(Action::InhibitedForSleep))
                ==> slept.resume_after_wake == before.resume_after_wake
            &&& live ==> woke.last_tick == Some(now) && !woke.resume_after_wake
            &&& !live ==> woke == before
        }),
{
}

/// A power event goes to the control loop with the limits in force, and changes
/// no setting. One that failed is noted and says nothing; any other says its
/// battery percent.
pub proof fn a_power_event_reaches_the_loop(
    s: State,
    p: Probe,
    event: PowerEvent,
    now: u64,
    log: Seq<Exchange>,
    at: int,
)
    ensures
        ({
            let leg = legs::power_leg(s, p, event, now, log, at);
            let config = if s.config.top_up_active {
                Config { upper: 100, lower: 100, ..s.config }
            } else {
                s.config
            };
            let power = control::power_run(p, config, event, log, at);
            &&& power.sent.is_prefix_of(leg.sent)
            &&& leg.state.config == s.config
            &&& leg.state.unsaved == s.unsaved
            &&& leg.value is None <==> power.value is Err
            &&& power.value is Err ==> leg.sent == power.sent && leg.state.errors.len()
                == s.errors.len() + 1
            &&& leg.state.pace == control::pace_after(s.pace, p, config, event, now, power.value)
        }),
{
    reveal(legs::power_leg);
}

// ---------------------------------------------------------------------------
// Shutdown and start
// ---------------------------------------------------------------------------

/// A shutdown tries everything, whatever became of the rest: the reset, the
/// adapter where there is one, the LED where there is one, in this order. Each
/// failure is reported on its own, and no setting changes.
pub proof fn a_shutdown_tries_everything(s: State, p: Probe, log: Seq<Exchange>, at: int)
    ensures
        ({
            let leg = legs::shutdown_leg(s, p, log, at);
            let gate = run::reset_run(p, log, at);
            let at2 = run::past(at, gate);
            let adapter = run::set_adapter_run(p, true, log, at2);
            let gated = run::adapter_key(p) is Some;
            let at3 = if gated {
                run::past(at2, adapter)
            } else {
                at2
            };
            let led = run::set_led_run(p, MagsafeLed::System, log, at3);
            let lit = p.present.contains_key(0x41434c43);
            let none = Seq::empty();
            &&& leg.state == s
            &&& leg.sent == gate.sent + (if gated {
                adapter.sent
            } else {
                none
            }) + (if lit {
                led.sent
            } else {
                none
            })
            &&& leg.value.gate is None <==> gate.value is Ok
            &&& leg.value.adapter is None <==> !gated || adapter.value is Ok
            &&& leg.value.led is None <==> !lit || led.value is Ok
        }),
{
    reveal(legs::shutdown_leg);
    run::lemma_known_codes();
    memory::lemma_known_keys();
    let leg = legs::shutdown_leg(s, p, log, at);
    let gate = run::reset_run(p, log, at);
    let at2 = run::past(at, gate);
    let adapter = run::set_adapter_run(p, true, log, at2);
    let gated = run::adapter_key(p) is Some;
    let at3 = if gated {
        run::past(at2, adapter)
    } else {
        at2
    };
    let led = run::set_led_run(p, MagsafeLed::System, log, at3);
    let none = Seq::empty();
    assert(leg.sent =~= gate.sent + (if gated {
        adapter.sent
    } else {
        none
    }) + (if p.present.contains_key(0x41434c43) {
        led.sent
    } else {
        none
    }));
}

/// A daemon starts with the configuration of its file, as it is. Without a file,
/// and with one that cannot be read, it starts with an 80 percent limit, two
/// points of hysteresis, the adapter on and the LED left to the system; and only
/// a file that cannot be read is complained of.
pub proof fn a_daemon_starts_with_its_file(
    loaded: Result<Option<Config>, Seq<char>>,
    path: Seq<char>,
)
    ensures
        ({
            let (config, complaint) = startup::starting_config(loaded, path);
            &&& loaded matches Ok(Some(kept)) ==> config == kept
            &&& !(loaded matches Ok(Some(_))) ==> {
                &&& config.upper == 80
                &&& config.lower == 78
                &&& config.magsafe_led == MagsafeLedMode::System
                &&& config.adapter_enabled
                &&& !config.top_up_active
                &&& !config.inhibit_on_sleep_always
            }
            &&& complaint is Some <==> loaded is Err
        }),
{
}

/// An error becomes the last one, and is kept behind those before it. A save
/// that worked notes none.
pub proof fn an_error_is_noted_last(s: State, message: Seq<char>)
    ensures
        ({
            let end = legs::noted(s, message);
            &&& end.last_error == Some(message)
            &&& end.errors.len() == s.errors.len() + 1
            &&& end.errors.last() == message
            &&& s.errors.is_prefix_of(end.errors)
            &&& end == (State { last_error: end.last_error, errors: end.errors, ..s })
        }),
        legs::after_save(s, None) == s,
        legs::after_save(s, Some(message)).last_error == Some(
            "cannot save config to "@ + s.config_path + ": "@ + message,
        ),
        legs::after_save(s, Some(message)).config == s.config,
{
}

/// An operation that worked notes nothing and gives its value; one that failed
/// gives none, and its message is noted.
pub proof fn a_failed_operation_is_noted(s: State, run: run::Run<u8>)
    ensures
        ({
            let leg = legs::heard(s, run);
            &&& leg.sent == run.sent
            &&& run.value matches Ok(v) ==> leg.value == Some(v) && leg.state == s
            &&& run.value matches Err(e) ==> {
                &&& leg.value is None
                &&& leg.state.last_error == Some(error::fault_text(e))
                &&& leg.state.errors.len() == s.errors.len() + 1
                &&& leg.state.config == s.config
            }
        }),
{
}

/// A daemon that starts has the configuration that it was given, no error, and
/// nothing to save; its first tick is not late, and it hands the LED to the
/// system where that is wanted.
pub proof fn a_fresh_daemon_has_nothing_behind_it(
    config: Config,
    path: Seq<char>,
    now: u64,
    p: Probe,
    log: Seq<Exchange>,
    at: int,
)
    ensures
        ({
            let s = legs::fresh(config, path);
            &&& s.config == config
            &&& s.config_path == path
            &&& s.last_error is None && s.errors.len() == 0 && s.last_action is None
            &&& !s.unsaved
            &&& !control::missed(s.pace.last_tick, now)
            &&& !s.pace.resume_after_wake
            &&& config.magsafe_led == MagsafeLedMode::System && p.present.contains_key(0x41434c43)
                ==> legs::led_leg(s, p, log, at).sent == run::set_led_run(
                p,
                MagsafeLed::System,
                log,
                at,
            ).sent
        }),
{
    the_led_follows_its_mode(legs::fresh(config, path), p, log, at);
}

/// A top-up looks at the battery, and no other tick does for its sake. It ends
/// at 100 percent, and then the configuration is to be saved.
pub proof fn a_top_up_looks_at_the_battery(s: State, p: Probe, log: Seq<Exchange>, at: int)
    ensures
        ({
            let leg = legs::top_up_leg(s, p, log, at);
            let battery = run::battery_run(p, log, at);
            let full = battery.value matches Ok(percent) && percent >= 100;
            &&& !s.config.top_up_active ==> leg.sent.len() == 0 && leg.state == s
            &&& s.config.top_up_active ==> leg.sent == battery.sent
            &&& s.config.top_up_active && full ==> leg.state == (State {
                config: Config { top_up_active: false, ..s.config },
                unsaved: true,
                ..s
            })
            &&& s.config.top_up_active && !full ==> leg.state.config == s.config
                && leg.state.unsaved == s.unsaved
        }),
{
    reveal(legs::top_up_leg);
}

/// What a power event says: the event, the battery percent, what was done, and
/// whether a gate was closed for sleep. A battery that cannot be read counts as
/// zero.
pub proof fn a_power_event_says_what_was_done(
    s: State,
    p: Probe,
    event: PowerEvent,
    now: u64,
    log: Seq<Exchange>,
    at: int,
)
    ensures
        ({
            let leg = legs::power_leg(s, p, event, now, log, at);
            let power = control::power_run(p, legs::effective(s.config), event, log, at);
            let battery = run::battery_run(p, log, run::past(at, power));
            let percent = if battery.value is Ok {
                battery.value->Ok_0
            } else {
                0u8
            };
            let name = if event == PowerEvent::WillSleep {
                "WillSleep"@
            } else {
                "DidWake"@
            };
            &&& power.value is Ok ==> leg.value == Some(
                name + ": battery "@ + text::decimal(percent as nat) + "%, "@
                    + control::action_name(power.value->Ok_0) + ", inhibited for sleep "@ + (
                if leg.state.pace.resume_after_wake {
                    "true"@
                } else {
                    "false"@
                }),
            )
            &&& power.value is Err ==> leg.state.last_error == Some(
                name + " failed: "@ + error::fault_text(power.value->Err_0),
            )
        }),
{
    reveal(legs::power_leg);
}

/// Each part that a shutdown could not hand back is told with its reason.
pub proof fn a_shutdown_tells_each_failure(s: State, p: Probe, log: Seq<Exchange>, at: int)
    ensures
        ({
            let told = legs::shutdown_leg(s, p, log, at).value;
            let gate = run::reset_run(p, log, at);
            let at2 = run::past(at, gate);
            let adapter = run::set_adapter_run(p, true, log, at2);
            let gated = run::adapter_key(p) is Some;
            let at3 = if gated {
                run::past(at2, adapter)
            } else {
                at2
            };
            let led = run::set_led_run(p, MagsafeLed::System, log, at3);
            &&& gate.value matches Err(e) ==> told.gate == Some(
                "cannot reset charge control: "@ + error::fault_text(e),
            )
            &&& gated ==> (adapter.value matches Err(e) ==> told.adapter == Some(
                "cannot enable the adapter: "@ + error::fault_text(e),
            ))
            &&& p.present.contains_key(0x41434c43) ==> (led.value matches Err(e) ==> told.led
                == Some("cannot reset MagSafe LED: "@ + error::fault_text(e)))
        }),
{
    reveal(legs::shutdown_leg);
    run::lemma_known_codes();
    memory::lemma_known_keys();
}

/// Every action is called by its own name.
pub proof fn actions_have_their_names(lower: u8, upper: u8)
    ensures
        control::action_name(Action::Sailing) == "Sailing"@,
        control::action_name(Action::Inhibited) == "Inhibited"@,
        control::action_name(Action::Allowed) == "Allowed"@,
        control::action_name(Action::InhibitedAfterMissedTicks) == "InhibitedAfterMissedTicks"@,
        control::action_name(Action::FirmwareCleared) == "FirmwareCleared"@,
        control::action_name(Action::Unsupported) == "Unsupported"@,
        control::action_name(Action::InhibitedForSleep) == "InhibitedForSleep"@,
        control::action_name(Action::FirmwareSet { lower, upper }) == "FirmwareSet { lower: "@
            + text::decimal(lower as nat) + ", upper: "@ + text::decimal(upper as nat) + " }"@,
        error::mode_name(ChargeControlMode::Legacy) == "Legacy"@,
        error::mode_name(ChargeControlMode::Firmware) == "Firmware"@,
        error::mode_name(ChargeControlMode::Unsupported) == "Unsupported"@,
{
}

/// A power event that was handled looks at the battery, after everything else
/// that it does. One that failed asks for nothing more.
pub proof fn a_power_event_looks_at_the_battery_last(
    s: State,
    p: Probe,
    event: PowerEvent,
    now: u64,
    log: Seq<Exchange>,
    at: int,
)
    ensures
        ({
            let sent = legs::power_leg(s, p, event, now, log, at).sent;
            let power = control::power_run(p, legs::effective(s.config), event, log, at);
            let battery = run::battery_run(p, log, run::past(at, power));
            &&& power.value is Ok ==> sent == power.sent + battery.sent
            &&& power.value is Err ==> sent == power.sent
        }),
{
    reveal(legs::power_leg);
    let power = control::power_run(p, legs::effective(s.config), event, log, at);
    assert(power.sent + Seq::empty() =~= power.sent);
    let battery = run::battery_run(p, log, run::past(at, power));
    if battery.sent.len() == 0 {
        assert(power.sent + battery.sent =~= power.sent);
    }
}

} // verus!
