//! The charge control loop.
//!
//! [`ControlLoop::tick`] reads the battery state of an [`Smc`], then opens or
//! closes the charge gate as a [`Config`] and the current time ask for. Time
//! is a count of nanoseconds on a clock that never goes back.

use crate::daemon::config::Config;
use crate::proto::{ChargeControlMode, MAX_UPPER};
use crate::smc::driver::{self, Driver, Exchange};
use crate::smc::error::{self, Fault, SmcError};
use crate::smc::run::{self, Probe, Run};
use crate::smc::{FirmwareLimit, Smc};
use crate::text;
use vstd::prelude::*;

verus! {

broadcast use {run::group_runs, run::group_typed_runs, driver::group_reached};

/// Time between loop ticks, in nanoseconds.
pub const LOOP_INTERVAL: u64 = 10_000_000_000;

/// A gap longer than this between ticks counts as a missed tick, in
/// nanoseconds. The machine was most likely asleep, so the battery state is
/// stale.
pub const MISSED_TICK_AFTER: u64 = 90_000_000_000;

/// What a tick did. Reported in the log, never on the wire.
#[derive(Debug, Clone, Copy, PartialEq, Eq, Structural)]
pub enum Action {
    /// The charge gate was already where it belongs.
    Sailing,
    /// The charge gate was closed because the battery reached `upper`.
    Inhibited,
    /// The charge gate was opened because the battery fell below `lower`.
    Allowed,
    /// Ticks were missed, so the charge gate was closed before re-evaluating.
    InhibitedAfterMissedTicks,
    /// The firmware limit was written.
    FirmwareSet { lower: u8, upper: u8 },
    /// The firmware limit was deactivated.
    FirmwareCleared,
    /// This Mac has no charge control.
    Unsupported,
    /// The charge gate was closed because the machine is about to sleep.
    InhibitedForSleep,
}

/// The name of an action, as the log shows it.
pub open spec fn action_name(action: Action) -> Seq<char> {
    match action {
        Action::Sailing => "Sailing"@,
        Action::Inhibited => "Inhibited"@,
        Action::Allowed => "Allowed"@,
        Action::InhibitedAfterMissedTicks => "InhibitedAfterMissedTicks"@,
        Action::FirmwareSet { lower, upper } => "FirmwareSet { lower: "@ + text::decimal(
            lower as nat,
        ) + ", upper: "@ + text::decimal(upper as nat) + " }"@,
        Action::FirmwareCleared => "FirmwareCleared"@,
        Action::Unsupported => "Unsupported"@,
        Action::InhibitedForSleep => "InhibitedForSleep"@,
    }
}

impl Action {
    /// The name of this action, as the log shows it.
    pub fn name(&self) -> (r: String)
        ensures
            r@ == action_name(*self),
    {
        match self {
            Action::Sailing => "Sailing".to_string(),
            Action::Inhibited => "Inhibited".to_string(),
            Action::Allowed => "Allowed".to_string(),
            Action::InhibitedAfterMissedTicks => "InhibitedAfterMissedTicks".to_string(),
            Action::FirmwareSet { lower, upper } => text::text5(
                "FirmwareSet { lower: ",
                text::decimal_text(*lower as u64).as_str(),
                ", upper: ",
                text::decimal_text(*upper as u64).as_str(),
                " }",
            ),
            Action::FirmwareCleared => "FirmwareCleared".to_string(),
            Action::Unsupported => "Unsupported".to_string(),
            Action::InhibitedForSleep => "InhibitedForSleep".to_string(),
        }
    }
}

/// A sleep or wake notification from the system.
///
/// The daemon reacts to both in legacy mode only: firmware mode holds the
/// band in hardware, so the machine keeps the limit while it sleeps.
#[derive(Debug, Clone, Copy, PartialEq, Eq, Structural)]
pub enum PowerEvent {
    /// The machine is about to sleep. The control loop stops running.
    WillSleep,
    /// The machine has woken. The battery reading is stale.
    DidWake,
}

// ---------------------------------------------------------------------------
// Decisions
// ---------------------------------------------------------------------------

/// What the band asks of the legacy gate: closed at `upper`, open below
/// `lower`, and as it is in between.
pub open spec fn band_action(config: Config, allowed: bool, percent: u8) -> Action {
    if percent >= config.upper && allowed {
        Action::Inhibited
    } else if percent < config.lower && !allowed {
        Action::Allowed
    } else {
        Action::Sailing
    }
}

/// Where an action leaves the legacy gate.
pub open spec fn gate_after(action: Action, allowed: bool) -> bool {
    match action {
        Action::Allowed => true,
        Action::Inhibited => false,
        Action::InhibitedAfterMissedTicks => false,
        Action::InhibitedForSleep => false,
        _ => allowed,
    }
}

/// Ticks were missed between `last` and `now`.
pub open spec fn missed(last: Option<u64>, now: u64) -> bool {
    last is Some && now - last->0 > MISSED_TICK_AFTER
}

// ---------------------------------------------------------------------------
// What a tick sends and what it returns
// ---------------------------------------------------------------------------

/// Moves the legacy gate, and then reports `action`.
pub open spec fn move_gate_run(
    p: Probe,
    allow: bool,
    action: Action,
    log: Seq<Exchange>,
    at: int,
) -> Run<Action> {
    run::chain(run::set_gate_run(p, allow, log, at), run::done(action))
}

/// Does what the band asks of the legacy gate.
pub open spec fn band_run(
    p: Probe,
    config: Config,
    allowed: bool,
    log: Seq<Exchange>,
    at: int,
) -> Run<Action> {
    let battery = run::battery_run(p, log, at);
    let then = run::past(at, battery);
    run::chain(
        battery,
        match band_action(config, allowed, battery.value->Ok_0) {
            Action::Inhibited => move_gate_run(p, false, Action::Inhibited, log, then),
            Action::Allowed => move_gate_run(p, true, Action::Allowed, log, then),
            _ => run::done(Action::Sailing),
        },
    )
}

/// One tick with the legacy gate. A limit of 100 is no limit. After missed
/// ticks an open gate is closed before the battery is looked at.
#[verifier::opaque]
pub open spec fn legacy_tick_run(
    p: Probe,
    config: Config,
    missed: bool,
    log: Seq<Exchange>,
    at: int,
) -> Run<Action> {
    let read = run::allowed_run(p, log, at);
    let then = run::past(at, read);
    let allowed = read.value->Ok_0;
    run::chain(
        read,
        if config.upper >= MAX_UPPER {
            if allowed {
                run::done(Action::Sailing)
            } else {
                move_gate_run(p, true, Action::Allowed, log, then)
            }
        } else if missed && allowed {
            move_gate_run(p, false, Action::InhibitedAfterMissedTicks, log, then)
        } else {
            band_run(p, config, allowed, log, then)
        },
    )
}

/// One tick with the firmware limit: written where it differs from the band,
/// cleared where the limit is 100, and left alone otherwise.
#[verifier::opaque]
pub open spec fn firmware_tick_run(p: Probe, config: Config, log: Seq<Exchange>, at: int) -> Run<
    Action,
> {
    let read = run::firmware_limit_run(p, log, at);
    let then = run::past(at, read);
    let current = read.value->Ok_0;
    run::chain(
        read,
        if config.upper >= MAX_UPPER {
            if current.active {
                run::chain(
                    run::clear_firmware_limit_run(p, log, then),
                    run::done(Action::FirmwareCleared),
                )
            } else {
                run::done(Action::Sailing)
            }
        } else if current == (FirmwareLimit {
            active: true,
            lower: config.lower,
            upper: config.upper,
        }) {
            run::done(Action::Sailing)
        } else {
            run::chain(
                run::set_firmware_limit_run(p, config.lower, config.upper, log, then),
                run::done(Action::FirmwareSet { lower: config.lower, upper: config.upper }),
            )
        },
    )
}

/// One tick of the control loop.
#[verifier::opaque]
pub open spec fn tick_run(
    p: Probe,
    config: Config,
    missed: bool,
    log: Seq<Exchange>,
    at: int,
) -> Run<Action> {
    match p.mode {
        ChargeControlMode::Unsupported => run::done(Action::Unsupported),
        ChargeControlMode::Firmware => firmware_tick_run(p, config, log, at),
        ChargeControlMode::Legacy => legacy_tick_run(p, config, missed, log, at),
    }
}

/// The charge gate before sleep: an open one is closed, unless the battery is below
/// `lower` and the configuration does not ask for it.
#[verifier::opaque]
pub open spec fn will_sleep_run(p: Probe, config: Config, log: Seq<Exchange>, at: int) -> Run<
    Action,
> {
    let read = run::allowed_run(p, log, at);
    let battery = run::battery_run(p, log, run::past(at, read));
    let then = run::past(run::past(at, read), battery);
    run::chain(
        read,
        if !read.value->Ok_0 {
            run::done(Action::Sailing)
        } else {
            run::chain(
                battery,
                if battery.value->Ok_0 < config.lower && !config.inhibit_on_sleep_always {
                    run::done(Action::Sailing)
                } else {
                    move_gate_run(p, false, Action::InhibitedForSleep, log, then)
                },
            )
        },
    )
}

/// The daemon has something to do at sleep and wake: the Mac is in legacy
/// mode, and the limit is live.
pub open spec fn minds_sleep(p: Probe, config: Config) -> bool {
    p.mode == ChargeControlMode::Legacy && config.upper < MAX_UPPER
}

/// What a sleep or wake notification leads to. The tick at wake trusts the
/// battery reading, whatever the time since the last tick.
#[verifier::opaque]
pub open spec fn power_run(
    p: Probe,
    config: Config,
    event: PowerEvent,
    log: Seq<Exchange>,
    at: int,
) -> Run<Action> {
    if !minds_sleep(p, config) {
        run::done(Action::Sailing)
    } else {
        match event {
            PowerEvent::WillSleep => will_sleep_run(p, config, log, at),
            PowerEvent::DidWake => tick_run(p, config, false, log, at),
        }
    }
}

/// What comes after an operation does not change it.
pub broadcast proof fn lemma_tick_kept(
    p: Probe,
    config: Config,
    missed: bool,
    log: Seq<Exchange>,
    longer: Seq<Exchange>,
    at: int,
)
    requires
        #[trigger] run::extends(longer, log),
        0 <= at,
        run::past(at, tick_run(p, config, missed, log, at)) <= log.len(),
    ensures
        #[trigger] tick_run(p, config, missed, longer, at) == tick_run(p, config, missed, log, at),
{
    reveal(tick_run);
    reveal(legacy_tick_run);
    reveal(firmware_tick_run);
}

/// What comes after an operation does not change it.
pub broadcast proof fn lemma_power_kept(
    p: Probe,
    config: Config,
    event: PowerEvent,
    log: Seq<Exchange>,
    longer: Seq<Exchange>,
    at: int,
)
    requires
        #[trigger] run::extends(longer, log),
        0 <= at,
        run::past(at, power_run(p, config, event, log, at)) <= log.len(),
    ensures
        #[trigger] power_run(p, config, event, longer, at) == power_run(p, config, event, log, at),
{
    reveal(power_run);
    reveal(will_sleep_run);
    if minds_sleep(p, config) && event == PowerEvent::DidWake {
        lemma_tick_kept(p, config, false, log, longer, at);
    }
}

// ---------------------------------------------------------------------------
// The loop
// ---------------------------------------------------------------------------

/// Loop state that survives between ticks.
#[derive(Debug)]
pub struct ControlLoop {
    last_tick: Option<u64>,
    resume_after_wake: bool,
}

/// The state of a [`ControlLoop`].
pub struct Pace {
    /// When the loop last ticked.
    pub last_tick: Option<u64>,
    /// The charge gate was closed for sleep and not yet re-checked.
    pub resume_after_wake: bool,
}

impl View for ControlLoop {
    type V = Pace;

    closed spec fn view(&self) -> Pace {
        Pace { last_tick: self.last_tick, resume_after_wake: self.resume_after_wake }
    }
}

/// The state of the loop after a sleep or wake notification.
pub open spec fn pace_after(
    before: Pace,
    p: Probe,
    config: Config,
    event: PowerEvent,
    now: u64,
    value: Result<Action, Fault>,
) -> Pace {
    if !minds_sleep(p, config) {
        before
    } else {
        match event {
            PowerEvent::WillSleep => if value == Ok::<Action, Fault>(Action::InhibitedForSleep) {
                Pace { resume_after_wake: true, ..before }
            } else {
                before
            },
            PowerEvent::DidWake => Pace { last_tick: Some(now), resume_after_wake: false },
        }
    }
}

impl Default for ControlLoop {
    fn default() -> (r: Self)
        ensures
            r@ == (Pace { last_tick: None, resume_after_wake: false }),
    {
        ControlLoop::new()
    }
}

impl ControlLoop {
    /// Returns a loop that has never ticked.
    pub fn new() -> (r: Self)
        ensures
            r@ == (Pace { last_tick: None, resume_after_wake: false }),
    {
        ControlLoop { last_tick: None, resume_after_wake: false }
    }

    /// Returns a loop whose previous tick was at `last_tick`.
    pub fn with_last_tick(last_tick: u64) -> (r: Self)
        ensures
            r@ == (Pace { last_tick: Some(last_tick), resume_after_wake: false }),
    {
        ControlLoop { last_tick: Some(last_tick), resume_after_wake: false }
    }

    /// Reports whether the charge gate was closed for sleep and not yet re-checked.
    pub fn resume_after_wake(&self) -> (r: bool)
        ensures
            r == self@.resume_after_wake,
    {
        self.resume_after_wake
    }

    /// Runs one tick of the control loop and returns what it did.
    ///
    /// The caller records the error and calls again on the next interval:
    /// one failed SMC call must never stop the loop.
    pub fn tick<D: Driver>(&mut self, smc: &mut Smc<D>, config: &Config, now: u64) -> (r: Result<
        Action,
        SmcError,
    >)
        ensures
            final(self)@ == (Pace { last_tick: Some(now), ..old(self)@ }),
            final(smc)@ == old(smc)@,
            driver::reached(old(smc).device(), final(smc).device()),
            run::performed(
                old(smc).log(),
                final(smc).log(),
                tick_run(
                    old(smc)@,
                    *config,
                    missed(old(self)@.last_tick, now),
                    final(smc).log(),
                    old(smc).log().len() as int,
                ),
                error::fault_of(r),
            ),
    {
        proof {
            reveal(tick_run);
        }
        let missed = match self.last_tick {
            Some(last) => now > last && now - last > MISSED_TICK_AFTER,
            None => false,
        };
        self.last_tick = Some(now);
        match smc.charge_control_mode() {
            ChargeControlMode::Unsupported => Ok(Action::Unsupported),
            ChargeControlMode::Firmware => tick_firmware(smc, config),
            ChargeControlMode::Legacy => tick_legacy(smc, config, missed),
        }
    }

    /// Handles one sleep or wake notification and returns what it did.
    ///
    /// Both events are no-ops unless the Mac is in legacy mode with a live
    /// limit: firmware mode holds the band in hardware, and an upper of 100
    /// means the user turned the limit off.
    pub fn on_power_event<D: Driver>(
        &mut self,
        smc: &mut Smc<D>,
        config: &Config,
        event: PowerEvent,
        now: u64,
    ) -> (r: Result<Action, SmcError>)
        ensures
            final(self)@ == pace_after(
                old(self)@,
                old(smc)@,
                *config,
                event,
                now,
                error::fault_of(r),
            ),
            final(smc)@ == old(smc)@,
            driver::reached(old(smc).device(), final(smc).device()),
            run::performed(
                old(smc).log(),
                final(smc).log(),
                power_run(
                    old(smc)@,
                    *config,
                    event,
                    final(smc).log(),
                    old(smc).log().len() as int,
                ),
                error::fault_of(r),
            ),
    {
        proof {
            reveal(power_run);
        }
        if smc.charge_control_mode() != ChargeControlMode::Legacy || config.upper >= MAX_UPPER {
            return Ok(Action::Sailing);
        }
        match event {
            PowerEvent::WillSleep => self.on_will_sleep(smc, config),
            PowerEvent::DidWake => self.on_did_wake(smc, config, now),
        }
    }

    /// Closes the charge gate before sleep, so a sleeping Mac cannot overshoot.
    ///
    /// Below `lower` the charge gate stays open by default: the machine may need
    /// the charge, and the missed-tick guard closes the charge gate on the first
    /// tick after wake. Set `inhibit_on_sleep_always` to close it anyway.
    fn on_will_sleep<D: Driver>(&mut self, smc: &mut Smc<D>, config: &Config) -> (r: Result<
        Action,
        SmcError,
    >)
        ensures
            final(self)@ == (if error::fault_of(r) == Ok::<Action, Fault>(
                Action::InhibitedForSleep,
            ) {
                Pace { resume_after_wake: true, ..old(self)@ }
            } else {
                old(self)@
            }),
            final(smc)@ == old(smc)@,
            driver::reached(old(smc).device(), final(smc).device()),
            run::performed(
                old(smc).log(),
                final(smc).log(),
                will_sleep_run(old(smc)@, *config, final(smc).log(), old(smc).log().len() as int),
                error::fault_of(r),
            ),
    {
        proof {
            reveal(will_sleep_run);
        }
        match smc.is_charging_allowed() {
            Ok(true) => {},
            Ok(false) => return Ok(Action::Sailing),
            Err(e) => return Err(e),
        }
        let percent = match smc.battery_percent() {
            Ok(percent) => percent,
            Err(e) => return Err(e),
        };
        if percent < config.lower && !config.inhibit_on_sleep_always {
            return Ok(Action::Sailing);
        }
        match smc.inhibit_charging() {
            Ok(_) => {},
            Err(e) => return Err(e),
        }
        self.resume_after_wake = true;
        Ok(Action::InhibitedForSleep)
    }

    /// Re-evaluates the band as soon as the machine wakes.
    ///
    /// The missed-tick guard is skipped for this one tick: the charge gate state is
    /// known, because the daemon set it before sleep, so a fresh reading can
    /// be trusted at once.
    fn on_did_wake<D: Driver>(&mut self, smc: &mut Smc<D>, config: &Config, now: u64) -> (r: Result<
        Action,
        SmcError,
    >)
        ensures
            final(self)@ == (Pace { last_tick: Some(now), resume_after_wake: false }),
            final(smc)@ == old(smc)@,
            driver::reached(old(smc).device(), final(smc).device()),
            run::performed(
                old(smc).log(),
                final(smc).log(),
                tick_run(
                    old(smc)@,
                    *config,
                    false,
                    final(smc).log(),
                    old(smc).log().len() as int,
                ),
                error::fault_of(r),
            ),
    {
        self.last_tick = None;
        let action = self.tick(smc, config, now);
        self.resume_after_wake = false;
        action
    }
}

/// Holds the band with the legacy gate and a hysteresis window.
fn tick_legacy<D: Driver>(smc: &mut Smc<D>, config: &Config, missed: bool) -> (r: Result<
    Action,
    SmcError,
>)
    ensures
        final(smc)@ == old(smc)@,
        driver::reached(old(smc).device(), final(smc).device()),
        run::performed(
            old(smc).log(),
            final(smc).log(),
            legacy_tick_run(
                old(smc)@,
                *config,
                missed,
                final(smc).log(),
                old(smc).log().len() as int,
            ),
            error::fault_of(r),
        ),
{
    proof {
        reveal(legacy_tick_run);
    }
    let allowed = match smc.is_charging_allowed() {
        Ok(allowed) => allowed,
        Err(e) => return Err(e),
    };
    // A limit of 100 means the user turned the limit off.
    if config.upper >= MAX_UPPER {
        if !allowed {
            match smc.allow_charging() {
                Ok(_) => return Ok(Action::Allowed),
                Err(e) => return Err(e),
            }
        }
        return Ok(Action::Sailing);
    }
    // After missed ticks the battery reading is stale and may already be
    // above the limit. Close the charge gate first and look again on the next
    // tick: an overshoot costs more than a late resume.
    if missed && allowed {
        match smc.inhibit_charging() {
            Ok(_) => return Ok(Action::InhibitedAfterMissedTicks),
            Err(e) => return Err(e),
        }
    }
    let percent = match smc.battery_percent() {
        Ok(percent) => percent,
        Err(e) => return Err(e),
    };
    if percent >= config.upper && allowed {
        match smc.inhibit_charging() {
            Ok(_) => return Ok(Action::Inhibited),
            Err(e) => return Err(e),
        }
    }
    if percent < config.lower && !allowed {
        match smc.allow_charging() {
            Ok(_) => return Ok(Action::Allowed),
            Err(e) => return Err(e),
        }
    }
    Ok(Action::Sailing)
}

/// Hands the band to the firmware. The SMC holds it, so never poll-toggle.
fn tick_firmware<D: Driver>(smc: &mut Smc<D>, config: &Config) -> (r: Result<Action, SmcError>)
    ensures
        final(smc)@ == old(smc)@,
        driver::reached(old(smc).device(), final(smc).device()),
        run::performed(
            old(smc).log(),
            final(smc).log(),
            firmware_tick_run(old(smc)@, *config, final(smc).log(), old(smc).log().len() as int),
            error::fault_of(r),
        ),
{
    proof {
        reveal(firmware_tick_run);
    }
    let current = match smc.firmware_limit() {
        Ok(current) => current,
        Err(e) => return Err(e),
    };
    if config.upper >= MAX_UPPER {
        if current.active {
            match smc.clear_firmware_limit() {
                Ok(_) => return Ok(Action::FirmwareCleared),
                Err(e) => return Err(e),
            }
        }
        return Ok(Action::Sailing);
    }
    let want = FirmwareLimit { active: true, lower: config.lower, upper: config.upper };
    if current == want {
        return Ok(Action::Sailing);
    }
    match smc.set_firmware_limit(config.lower, config.upper) {
        Ok(_) => Ok(Action::FirmwareSet { lower: config.lower, upper: config.upper }),
        Err(e) => Err(e),
    }
}

} // verus!
