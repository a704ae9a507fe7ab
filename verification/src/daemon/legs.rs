//! What the daemon does with a tick, a request or a power event: what it
//! sends, what it says, and the state that it is in afterwards, as a function
//! of the replies that come in.

use crate::daemon::config::Config;
use crate::daemon::control::{self, Action, Pace, PowerEvent};
use crate::proto::{self, ChargeControlMode, MagsafeLedMode, Request, ResponseView, StatusView};
use crate::proto::{MAX_UPPER, VERSION};
use crate::smc::driver::{Exchange, Packet};
use crate::smc::error;
use crate::smc::run::{self, Probe, Run};
use crate::smc::{MagsafeLed, KEY_ACLC};
use crate::text;
use vstd::prelude::*;

verus! {

broadcast use {run::group_runs, run::group_typed_runs};

/// The state of a daemon, apart from the Mac that it runs on.
pub struct State {
    pub config: Config,
    pub pace: Pace,
    pub config_path: Seq<char>,
    /// The last error, until a tick does something.
    pub last_error: Option<Seq<char>>,
    /// Every error that was not handed out yet, oldest first.
    pub errors: Seq<Seq<char>>,
    /// What the last tick did, where it did something.
    pub last_action: Option<Action>,
    /// The last LED colour that was written.
    pub last_led: Option<MagsafeLed>,
    /// The configuration was changed by the daemon itself and is not saved.
    pub unsaved: bool,
}

/// The state of a daemon that has done nothing yet.
pub open spec fn fresh(config: Config, config_path: Seq<char>) -> State {
    State {
        config,
        pace: Pace { last_tick: None, resume_after_wake: false },
        config_path,
        last_error: None,
        errors: Seq::empty(),
        last_action: None,
        last_led: None,
        unsaved: false,
    }
}

/// The packets of a step, in order, the state after it, and its result.
pub struct Leg<T> {
    pub sent: Seq<Packet>,
    pub state: State,
    pub value: T,
}

/// The step that does nothing.
pub open spec fn stay<T>(s: State, value: T) -> Leg<T> {
    Leg { sent: Seq::empty(), state: s, value }
}

/// `first`, and then `second`.
pub open spec fn both<A, B>(first: Leg<A>, second: Leg<B>) -> Leg<B> {
    Leg { sent: run::joined(first.sent, second.sent), state: second.state, value: second.value }
}

/// The position in the log after `leg`, which started at `at`.
pub open spec fn beyond<T>(at: int, leg: Leg<T>) -> int {
    at + leg.sent.len()
}

/// The state with one more error.
pub open spec fn noted(s: State, message: Seq<char>) -> State {
    State { last_error: Some(message), errors: s.errors.push(message), ..s }
}

/// One operation on the SMC. An error is noted, and nothing else comes of it.
pub open spec fn heard<T>(s: State, run: Run<T>) -> Leg<Option<T>> {
    match run.value {
        Ok(v) => Leg { sent: run.sent, state: s, value: Some(v) },
        Err(e) => Leg { sent: run.sent, state: noted(s, error::fault_text(e)), value: None },
    }
}

// ---------------------------------------------------------------------------
// One tick
// ---------------------------------------------------------------------------

/// The configuration that the control loop works with: while a top-up is
/// active there is no limit.
pub open spec fn effective(config: Config) -> Config {
    if config.top_up_active {
        Config { upper: MAX_UPPER, lower: MAX_UPPER, ..config }
    } else {
        config
    }
}

/// A top-up ends when the battery is full.
#[verifier::opaque]
pub open spec fn top_up_leg(s: State, p: Probe, log: Seq<Exchange>, at: int) -> Leg<()> {
    if !s.config.top_up_active {
        stay(s, ())
    } else {
        let battery = heard(s, run::battery_run(p, log, at));
        let full = battery.value is Some && battery.value->0 >= 100;
        Leg {
            sent: battery.sent,
            state: if full {
                State {
                    config: Config { top_up_active: false, ..s.config },
                    unsaved: true,
                    ..battery.state
                }
            } else {
                battery.state
            },
            value: (),
        }
    }
}

/// The control loop ticks. An action clears the last error; an error is noted.
#[verifier::opaque]
pub open spec fn control_leg(s: State, p: Probe, now: u64, log: Seq<Exchange>, at: int) -> Leg<()> {
    let tick = control::tick_run(
        p,
        effective(s.config),
        control::missed(s.pace.last_tick, now),
        log,
        at,
    );
    let s1 = State { pace: Pace { last_tick: Some(now), ..s.pace }, last_action: None, ..s };
    Leg {
        sent: tick.sent,
        state: match tick.value {
            Ok(Action::Sailing) => s1,
            Ok(action) => State { last_error: None, last_action: Some(action), ..s1 },
            Err(e) => noted(s1, "tick failed: "@ + error::fault_text(e)),
        },
        value: (),
    }
}

/// A discharge ends at the limit: the adapter is wanted again once the battery
/// is no higher.
pub open spec fn discharge_leg(s: State, p: Probe, log: Seq<Exchange>, at: int) -> Leg<()> {
    if s.config.adapter_enabled {
        stay(s, ())
    } else {
        let battery = heard(s, run::battery_run(p, log, at));
        let there = battery.value is Some && battery.value->0 <= s.config.upper;
        Leg {
            sent: battery.sent,
            state: if there {
                State {
                    config: Config { adapter_enabled: true, ..s.config },
                    unsaved: true,
                    ..battery.state
                }
            } else {
                battery.state
            },
            value: (),
        }
    }
}

/// The adapter gate is moved where the configuration wants it.
pub open spec fn adapter_gate_leg(s: State, p: Probe, log: Seq<Exchange>, at: int) -> Leg<()> {
    let gate = heard(s, run::adapter_run(p, log, at));
    let want = s.config.adapter_enabled;
    if gate.value is None || gate.value->0 == want {
        both(gate, stay(gate.state, ()))
    } else {
        let set = heard(gate.state, run::set_adapter_run(p, want, log, beyond(at, gate)));
        both(gate, both(set, stay(set.state, ())))
    }
}

/// The power adapter, on a Mac that can gate it.
#[verifier::opaque]
pub open spec fn adapter_leg(s: State, p: Probe, log: Seq<Exchange>, at: int) -> Leg<()> {
    if run::adapter_key(p) is None {
        stay(s, ())
    } else {
        let discharge = discharge_leg(s, p, log, at);
        both(discharge, adapter_gate_leg(discharge.state, p, log, beyond(at, discharge)))
    }
}

/// Whether the machine may charge right now. What cannot be read counts as no.
#[verifier::opaque]
pub open spec fn charging_leg(
    s: State,
    p: Probe,
    percent: u8,
    log: Seq<Exchange>,
    at: int,
) -> Leg<bool> {
    match p.mode {
        ChargeControlMode::Legacy => {
            let gate = heard(s, run::allowed_run(p, log, at));
            Leg {
                sent: gate.sent,
                state: gate.state,
                value: gate.value is Some && gate.value->0,
            }
        },
        ChargeControlMode::Firmware => {
            let limit = heard(s, run::firmware_limit_run(p, log, at));
            Leg {
                sent: limit.sent,
                state: limit.state,
                value: limit.value is Some && !(limit.value->0.active && percent
                    >= limit.value->0.upper),
            }
        },
        ChargeControlMode::Unsupported => stay(s, true),
    }
}

/// Writes one LED colour, and remembers it.
pub open spec fn write_led_leg(
    s: State,
    p: Probe,
    led: MagsafeLed,
    log: Seq<Exchange>,
    at: int,
) -> Leg<()> {
    let set = heard(s, run::set_led_run(p, led, log, at));
    Leg {
        sent: set.sent,
        state: if set.value is Some {
            State { last_led: Some(led), ..set.state }
        } else {
            set.state
        },
        value: (),
    }
}

/// Makes the LED show one colour, where it does not yet.
pub open spec fn show_led_leg(
    s: State,
    p: Probe,
    led: MagsafeLed,
    log: Seq<Exchange>,
    at: int,
) -> Leg<()> {
    let shown = heard(s, run::led_run(p, log, at));
    both(
        shown,
        if shown.value is None || shown.value->0 == led {
            stay(shown.state, ())
        } else {
            write_led_leg(shown.state, p, led, log, beyond(at, shown))
        },
    )
}

/// The MagSafe LED, on a Mac that has one.
///
/// A LED that was handed back to the system reads as the colour that the
/// system chose, so that mode goes by the last colour written. The other
/// modes go by the colour shown. Orange stands for a machine that may charge,
/// green for one that may not.
#[verifier::opaque]
pub open spec fn led_leg(s: State, p: Probe, log: Seq<Exchange>, at: int) -> Leg<()> {
    if !run::found(p, KEY_ACLC@) {
        stay(s, ())
    } else {
        match s.config.magsafe_led {
            MagsafeLedMode::System => if s.last_led == Some(MagsafeLed::System) {
                stay(s, ())
            } else {
                write_led_leg(s, p, MagsafeLed::System, log, at)
            },
            MagsafeLedMode::Off => show_led_leg(s, p, MagsafeLed::Off, log, at),
            MagsafeLedMode::Reflect => {
                let battery = heard(s, run::battery_run(p, log, at));
                let percent = if battery.value is Some {
                    battery.value->0
                } else {
                    0
                };
                let charging = charging_leg(battery.state, p, percent, log, beyond(at, battery));
                let third = beyond(beyond(at, battery), charging);
                let led = if charging.value {
                    MagsafeLed::Orange
                } else {
                    MagsafeLed::Green
                };
                both(battery, both(charging, show_led_leg(charging.state, p, led, log, third)))
            },
        }
    }
}

/// One tick: the top-up, the control loop, the adapter, the LED.
#[verifier::opaque]
pub open spec fn tick_leg(s: State, p: Probe, now: u64, log: Seq<Exchange>, at: int) -> Leg<()> {
    let first = top_up_leg(s, p, log, at);
    let at2 = beyond(at, first);
    let second = control_leg(first.state, p, now, log, at2);
    let at3 = beyond(at2, second);
    let third = adapter_leg(second.state, p, log, at3);
    let fourth = led_leg(third.state, p, log, beyond(at3, third));
    both(first, both(second, both(third, fourth)))
}

// ---------------------------------------------------------------------------
// Status and requests
// ---------------------------------------------------------------------------

/// The live state. A read that failed gives the field that it is for a
/// fallback, and its message becomes the last error.
#[verifier::opaque]
pub open spec fn status_leg(s: State, p: Probe, log: Seq<Exchange>, at: int) -> Leg<StatusView> {
    let battery = heard(s, run::battery_run(p, log, at));
    let percent = if battery.value is Some {
        battery.value->0
    } else {
        0
    };
    let at2 = beyond(at, battery);
    let plugged = heard(battery.state, run::plugged_in_run(p, log, at2));
    let charging = charging_leg(plugged.state, p, percent, log, beyond(at2, plugged));
    let status = StatusView {
        version: VERSION@,
        mode: p.mode,
        battery_percent: percent,
        plugged_in: plugged.value is Some && plugged.value->0,
        charging_allowed: charging.value,
        adapter_enabled: s.config.adapter_enabled,
        upper: s.config.upper,
        lower: s.config.lower,
        magsafe_led: s.config.magsafe_led,
        top_up_active: s.config.top_up_active,
        last_error: charging.state.last_error,
    };
    both(battery, both(plugged, both(charging, stay(charging.state, status))))
}

/// The configuration that a request asks for, where it asks for one, or why it
/// is turned down.
pub open spec fn planned(config: Config, request: Request) -> Result<Option<Config>, Seq<char>> {
    match request {
        Request::Status => Ok(None),
        Request::SetLimit { upper, lower } => match proto::validated(upper, lower) {
            Ok((upper, lower)) => Ok(Some(Config { upper, lower, ..config })),
            Err(message) => Err(message),
        },
        Request::SetAdapter { enabled } => Ok(Some(Config { adapter_enabled: enabled, ..config })),
        Request::SetMagsafeLed { mode } => Ok(Some(Config { magsafe_led: mode, ..config })),
        Request::TopUp => Ok(Some(Config { top_up_active: true, ..config })),
        Request::CancelTopUp => Ok(Some(Config { top_up_active: false, ..config })),
    }
}

/// What is said of a configuration that could not be saved.
pub open spec fn save_failure(path: Seq<char>, message: Seq<char>) -> Seq<char> {
    "cannot save config to "@ + path + ": "@ + message
}

/// The state after a configuration was saved, or could not be.
pub open spec fn after_save(s: State, failure: Option<Seq<char>>) -> State {
    match failure {
        None => s,
        Some(message) => noted(s, save_failure(s.config_path, message)),
    }
}

/// What a request sets in motion, once its configuration is in place: new
/// limits and top-ups take effect at once, and so does the adapter. The LED
/// follows on the next tick.
pub open spec fn prompted_leg(
    s: State,
    p: Probe,
    request: Request,
    now: u64,
    log: Seq<Exchange>,
    at: int,
) -> Leg<()> {
    match request {
        Request::Status => stay(s, ()),
        Request::SetLimit { upper, lower } => tick_leg(s, p, now, log, at),
        Request::SetAdapter { enabled } => adapter_leg(s, p, log, at),
        Request::SetMagsafeLed { mode } => stay(s, ()),
        Request::TopUp => tick_leg(s, p, now, log, at),
        Request::CancelTopUp => tick_leg(s, p, now, log, at),
    }
}

/// The answer to a request. A request that is turned down changes nothing;
/// every other one is answered with the status.
#[verifier::opaque]
pub open spec fn apply_leg(
    s: State,
    p: Probe,
    request: Request,
    failure: Option<Seq<char>>,
    now: u64,
    log: Seq<Exchange>,
    at: int,
) -> Leg<ResponseView> {
    match planned(s.config, request) {
        Err(message) => stay(State { last_action: None, ..s }, proto::refused(message)),
        Ok(wanted) => {
            let s1 = State { last_action: None, ..s };
            let s2 = match wanted {
                None => s1,
                Some(config) => after_save(State { config, ..s1 }, failure),
            };
            let prompted = prompted_leg(s2, p, request, now, log, at);
            let status = status_leg(prompted.state, p, log, beyond(at, prompted));
            both(prompted, both(status, stay(status.state, proto::accepted(status.value))))
        },
    }
}

// ---------------------------------------------------------------------------
// Power events and shutdown
// ---------------------------------------------------------------------------

/// The name of a power event, as the log shows it.
pub open spec fn event_name(event: PowerEvent) -> Seq<char> {
    match event {
        PowerEvent::WillSleep => "WillSleep"@,
        PowerEvent::DidWake => "DidWake"@,
    }
}

/// What the log says of a power event.
pub open spec fn event_line(event: PowerEvent, percent: u8, action: Action, resume: bool) -> Seq<
    char,
> {
    event_name(event) + ": battery "@ + text::decimal(percent as nat) + "%, "@
        + control::action_name(action) + ", inhibited for sleep "@ + text::truth(resume)
}

/// A power event goes to the control loop. What came of it is said with the
/// battery percent; an error is noted.
#[verifier::opaque]
pub open spec fn power_leg(
    s: State,
    p: Probe,
    event: PowerEvent,
    now: u64,
    log: Seq<Exchange>,
    at: int,
) -> Leg<Option<Seq<char>>> {
    let config = effective(s.config);
    let power = control::power_run(p, config, event, log, at);
    let s1 = State {
        pace: control::pace_after(s.pace, p, config, event, now, power.value),
        ..s
    };
    match power.value {
        Err(e) => Leg {
            sent: power.sent,
            state: noted(s1, event_name(event) + " failed: "@ + error::fault_text(e)),
            value: None,
        },
        Ok(action) => {
            let battery = heard(s1, run::battery_run(p, log, run::past(at, power)));
            let percent = if battery.value is Some {
                battery.value->0
            } else {
                0
            };
            Leg {
                sent: run::joined(power.sent, battery.sent),
                state: battery.state,
                value: Some(event_line(event, percent, action, s1.pace.resume_after_wake)),
            }
        },
    }
}

/// What a shutdown says of the parts of the machine that could not be handed
/// back.
pub struct ResetView {
    pub gate: Option<Seq<char>>,
    pub adapter: Option<Seq<char>>,
    pub led: Option<Seq<char>>,
}

/// The message of an operation that failed.
pub open spec fn failure_of<T>(run: Run<T>, what: Seq<char>) -> Option<Seq<char>> {
    match run.value {
        Ok(_) => None,
        Err(e) => Some(what + error::fault_text(e)),
    }
}

/// Hands the machine back: the charge gate is opened or the firmware limit
/// cleared, the adapter is enabled, and the system drives the LED again. Each
/// is tried, whatever became of the others.
#[verifier::opaque]
pub open spec fn shutdown_leg(s: State, p: Probe, log: Seq<Exchange>, at: int) -> Leg<ResetView> {
    let gate = run::reset_run(p, log, at);
    let at2 = run::past(at, gate);
    let adapter = if run::adapter_key(p) is Some {
        run::set_adapter_run(p, true, log, at2)
    } else {
        run::done(())
    };
    let at3 = run::past(at2, adapter);
    let led = if run::found(p, KEY_ACLC@) {
        run::set_led_run(p, MagsafeLed::System, log, at3)
    } else {
        run::done(())
    };
    Leg {
        sent: run::joined(gate.sent, run::joined(adapter.sent, led.sent)),
        state: s,
        value: ResetView {
            gate: failure_of(gate, "cannot reset charge control: "@),
            adapter: failure_of(adapter, "cannot enable the adapter: "@),
            led: failure_of(led, "cannot reset MagSafe LED: "@),
        },
    }
}

// ---------------------------------------------------------------------------
// What comes after a step does not change it
// ---------------------------------------------------------------------------

pub broadcast proof fn lemma_top_up_kept(
    s: State,
    p: Probe,
    log: Seq<Exchange>,
    longer: Seq<Exchange>,
    at: int,
)
    requires
        #[trigger] run::extends(longer, log),
        0 <= at,
        beyond(at, top_up_leg(s, p, log, at)) <= log.len(),
    ensures
        #[trigger] top_up_leg(s, p, longer, at) == top_up_leg(s, p, log, at),
{
    reveal(top_up_leg);
}

pub broadcast proof fn lemma_control_kept(
    s: State,
    p: Probe,
    now: u64,
    log: Seq<Exchange>,
    longer: Seq<Exchange>,
    at: int,
)
    requires
        #[trigger] run::extends(longer, log),
        0 <= at,
        beyond(at, control_leg(s, p, now, log, at)) <= log.len(),
    ensures
        #[trigger] control_leg(s, p, now, longer, at) == control_leg(s, p, now, log, at),
{
    broadcast use control::lemma_tick_kept;

    reveal(control_leg);
}

pub broadcast proof fn lemma_adapter_kept(
    s: State,
    p: Probe,
    log: Seq<Exchange>,
    longer: Seq<Exchange>,
    at: int,
)
    requires
        #[trigger] run::extends(longer, log),
        0 <= at,
        beyond(at, adapter_leg(s, p, log, at)) <= log.len(),
    ensures
        #[trigger] adapter_leg(s, p, longer, at) == adapter_leg(s, p, log, at),
{
    reveal(adapter_leg);
}

pub broadcast proof fn lemma_charging_kept(
    s: State,
    p: Probe,
    percent: u8,
    log: Seq<Exchange>,
    longer: Seq<Exchange>,
    at: int,
)
    requires
        #[trigger] run::extends(longer, log),
        0 <= at,
        beyond(at, charging_leg(s, p, percent, log, at)) <= log.len(),
    ensures
        #[trigger] charging_leg(s, p, percent, longer, at) == charging_leg(s, p, percent, log, at),
{
    reveal(charging_leg);
}

pub broadcast proof fn lemma_led_kept(
    s: State,
    p: Probe,
    log: Seq<Exchange>,
    longer: Seq<Exchange>,
    at: int,
)
    requires
        #[trigger] run::extends(longer, log),
        0 <= at,
        beyond(at, led_leg(s, p, log, at)) <= log.len(),
    ensures
        #[trigger] led_leg(s, p, longer, at) == led_leg(s, p, log, at),
{
    broadcast use lemma_charging_kept;

    reveal(led_leg);
}

pub broadcast proof fn lemma_tick_kept(
    s: State,
    p: Probe,
    now: u64,
    log: Seq<Exchange>,
    longer: Seq<Exchange>,
    at: int,
)
    requires
        #[trigger] run::extends(longer, log),
        0 <= at,
        beyond(at, tick_leg(s, p, now, log, at)) <= log.len(),
    ensures
        #[trigger] tick_leg(s, p, now, longer, at) == tick_leg(s, p, now, log, at),
{
    broadcast use {lemma_top_up_kept, lemma_control_kept, lemma_adapter_kept, lemma_led_kept};

    reveal(tick_leg);
}

pub broadcast proof fn lemma_status_kept(
    s: State,
    p: Probe,
    log: Seq<Exchange>,
    longer: Seq<Exchange>,
    at: int,
)
    requires
        #[trigger] run::extends(longer, log),
        0 <= at,
        beyond(at, status_leg(s, p, log, at)) <= log.len(),
    ensures
        #[trigger] status_leg(s, p, longer, at) == status_leg(s, p, log, at),
{
    broadcast use lemma_charging_kept;

    reveal(status_leg);
}

/// That the steps of the daemon are settled by the part of the log that they
/// made.
pub broadcast group group_legs {
    lemma_top_up_kept,
    lemma_control_kept,
    lemma_adapter_kept,
    lemma_charging_kept,
    lemma_led_kept,
    lemma_tick_kept,
    lemma_status_kept,
}

} // verus!
