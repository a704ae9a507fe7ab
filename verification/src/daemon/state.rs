//! Daemon state: the SMC handle, the config and the control loop.
//!
//! [`Daemon`] is the one place that mutates state. It reads and writes no
//! file: [`Daemon::plan`] tells which configuration to save before a request
//! is applied, and [`Daemon::unsaved`] whether there is one to save afterwards.

use crate::daemon::config::Config;
use crate::daemon::control::{self, Action, ControlLoop, Pace, PowerEvent};
use crate::daemon::legs::{self, Leg, ResetView, State};
use crate::proto::{
    validate_limits, ChargeControlMode, MagsafeLedMode, Request, Response, Status, MAX_UPPER,
    VERSION,
};
use crate::smc::driver::{self, Driver, Exchange};
use crate::smc::error::{self, SmcError};
use crate::smc::run::{self, Probe};
use crate::smc::{MagsafeLed, Smc};
use crate::text;
use vstd::prelude::*;

verus! {

broadcast use {
    run::group_runs,
    run::group_typed_runs,
    legs::group_legs,
    driver::group_reached,
};

/// Everything one running daemon owns.
#[derive(Debug)]
pub struct Daemon<D: Driver> {
    smc: Smc<D>,
    config: Config,
    control: ControlLoop,
    config_path: String,
    last_error: Option<String>,
    errors: Vec<String>,
    last_action: Option<Action>,
    last_led: Option<MagsafeLed>,
    unsaved: bool,
}

/// What a shutdown could not hand back, with the message for each part.
#[derive(Debug, PartialEq, Eq)]
pub struct Reset {
    /// The charge gate or the firmware limit.
    pub gate: Option<String>,
    /// The power adapter.
    pub adapter: Option<String>,
    /// The MagSafe LED.
    pub led: Option<String>,
}

impl View for Reset {
    type V = ResetView;

    open spec fn view(&self) -> ResetView {
        ResetView {
            gate: text::chars(self.gate),
            adapter: text::chars(self.adapter),
            led: text::chars(self.led),
        }
    }
}

impl<D: Driver> View for Daemon<D> {
    type V = State;

    closed spec fn view(&self) -> State {
        State {
            config: self.config,
            pace: self.control@,
            config_path: self.config_path@,
            last_error: text::chars(self.last_error),
            errors: text::texts(self.errors@),
            last_action: self.last_action,
            last_led: self.last_led,
            unsaved: self.unsaved,
        }
    }
}

/// From `before` to `after` the log grew by the packets of `leg`, and the
/// daemon came to be in the state that `leg` leads to.
pub open spec fn travelled<T>(
    before: Seq<Exchange>,
    after: Seq<Exchange>,
    leg: Leg<T>,
    state: State,
) -> bool {
    &&& run::followed(before, after, leg.sent)
    &&& state == leg.state
}

impl<D: Driver> Daemon<D> {
    /// The SMC that this daemon controls.
    pub closed spec fn machine(&self) -> Smc<D> {
        self.smc
    }

    /// The driver under that SMC.
    pub open spec fn device(&self) -> D {
        self.machine().device()
    }

    /// What the probe of the Mac found.
    pub open spec fn probe(&self) -> Probe {
        self.machine()@
    }

    /// Every round trip to the SMC so far.
    pub open spec fn log(&self) -> Seq<Exchange> {
        self.machine().log()
    }

    /// Builds a daemon around `smc`, whose config is saved at `config_path`.
    pub fn new(smc: Smc<D>, config: Config, config_path: String) -> (r: Self)
        ensures
            r.machine() == smc,
            r@ == legs::fresh(config, config_path@),
    {
        let r = Daemon {
            smc,
            config,
            control: ControlLoop::new(),
            config_path,
            last_error: None,
            errors: Vec::new(),
            last_action: None,
            last_led: None,
            unsaved: false,
        };
        assert(r@.errors =~= Seq::empty());
        r
    }

    /// Returns the current config.
    pub fn config(&self) -> (r: &Config)
        ensures
            *r == self@.config,
    {
        &self.config
    }

    /// The SMC that this daemon controls.
    pub fn smc(&self) -> (r: &Smc<D>)
        ensures
            *r == self.machine(),
    {
        &self.smc
    }

    /// The SMC that this daemon controls, to be changed behind its back.
    pub fn smc_mut(&mut self) -> (r: &mut Smc<D>)
        ensures
            *r == old(self).machine(),
            final(self).machine() == *final(r),
            final(self)@ == old(self)@,
    {
        &mut self.smc
    }

    /// What the last tick did, where it did something.
    pub fn last_action(&self) -> (r: Option<Action>)
        ensures
            r == self@.last_action,
    {
        self.last_action
    }

    /// Returns true when the daemon changed its own config and it has to be
    /// saved.
    pub fn unsaved(&self) -> (r: bool)
        ensures
            r == self@.unsaved,
    {
        self.unsaved
    }

    /// Hands out every error since the last call, oldest first.
    pub fn take_errors(&mut self) -> (r: Vec<String>)
        ensures
            text::texts(r@) == old(self)@.errors,
            final(self)@ == (State { errors: Seq::empty(), ..old(self)@ }),
            final(self).machine() == old(self).machine(),
    {
        let mut out: Vec<String> = Vec::new();
        out.append(&mut self.errors);
        assert(text::texts(out@) =~= old(self)@.errors);
        assert(self@.errors =~= Seq::empty());
        out
    }

    /// Takes note of how a save of the daemon's own config went.
    pub fn saved(&mut self, failure: Option<String>)
        ensures
            final(self)@ == legs::after_save(
                State { unsaved: false, ..old(self)@ },
                text::chars(failure),
            ),
            final(self).machine() == old(self).machine(),
    {
        self.unsaved = false;
        self.note_save(failure);
    }

    fn note_save(&mut self, failure: Option<String>)
        ensures
            final(self)@ == legs::after_save(old(self)@, text::chars(failure)),
            final(self).machine() == old(self).machine(),
    {
        if let Some(failure) = failure {
            let message = text::text4(
                "cannot save config to ",
                self.config_path.as_str(),
                ": ",
                failure.as_str(),
            );
            self.record_error(message);
        }
    }

    fn record_error(&mut self, message: String)
        ensures
            final(self)@ == legs::noted(old(self)@, message@),
            final(self).machine() == old(self).machine(),
    {
        let copy = message.clone();
        self.last_error = Some(copy);
        self.errors.push(message);
        assert(self@.errors =~= old(self)@.errors.push(message@));
    }

    /// Keeps the value of an SMC operation, recording its error instead.
    fn keep<T>(&mut self, outcome: Result<T, SmcError>) -> (r: Option<T>)
        ensures
            final(self).machine() == old(self).machine(),
            match outcome {
                Ok(v) => final(self)@ == old(self)@ && r == Some(v),
                Err(e) => final(self)@ == legs::noted(old(self)@, error::fault_text(e@))
                    && r is None,
            },
    {
        match outcome {
            Ok(value) => Some(value),
            Err(e) => {
                self.record_error(e.message());
                None
            },
        }
    }

    /// Reads the battery percent, recording the error instead of returning it.
    fn read_battery(&mut self) -> (r: Option<u8>)
        ensures
            final(self).probe() == old(self).probe(),
            driver::reached(old(self).device(), final(self).device()),
            ({
                let leg = legs::heard(
                    old(self)@,
                    run::battery_run(
                        old(self).probe(),
                        final(self).log(),
                        old(self).log().len() as int,
                    ),
                );
                &&& travelled(old(self).log(), final(self).log(), leg, final(self)@)
                &&& r == leg.value
            }),
    {
        let outcome = self.smc.battery_percent();
        self.keep(outcome)
    }

    /// Returns the config that the control loop works with.
    fn effective_config(&self) -> (r: Config)
        ensures
            r == legs::effective(self@.config),
    {
        let mut config = self.config;
        if config.top_up_active {
            config.upper = MAX_UPPER;
            config.lower = MAX_UPPER;
        }
        config
    }

    /// Runs one tick: the top-up, the control loop, the adapter and the LED.
    /// Every SMC error is stored, and the loop keeps running.
    pub fn tick(&mut self, now: u64)
        ensures
            final(self).probe() == old(self).probe(),
            driver::reached(old(self).device(), final(self).device()),
            travelled(
                old(self).log(),
                final(self).log(),
                legs::tick_leg(
                    old(self)@,
                    old(self).probe(),
                    now,
                    final(self).log(),
                    old(self).log().len() as int,
                ),
                final(self)@,
            ),
    {
        proof {
            reveal(legs::tick_leg);
        }
        self.tick_top_up();
        self.tick_control(now);
        self.tick_adapter();
        self.tick_magsafe_led();
    }

    /// Ends a top-up once the battery is full.
    fn tick_top_up(&mut self)
        ensures
            final(self).probe() == old(self).probe(),
            driver::reached(old(self).device(), final(self).device()),
            travelled(
                old(self).log(),
                final(self).log(),
                legs::top_up_leg(
                    old(self)@,
                    old(self).probe(),
                    final(self).log(),
                    old(self).log().len() as int,
                ),
                final(self)@,
            ),
    {
        proof {
            reveal(legs::top_up_leg);
        }
        if !self.config.top_up_active {
            return;
        }
        if let Some(percent) = self.read_battery() {
            if percent >= 100 {
                self.config.top_up_active = false;
                self.unsaved = true;
            }
        }
    }

    /// Runs the control loop once.
    fn tick_control(&mut self, now: u64)
        ensures
            final(self).probe() == old(self).probe(),
            driver::reached(old(self).device(), final(self).device()),
            travelled(
                old(self).log(),
                final(self).log(),
                legs::control_leg(
                    old(self)@,
                    old(self).probe(),
                    now,
                    final(self).log(),
                    old(self).log().len() as int,
                ),
                final(self)@,
            ),
    {
        proof {
            reveal(legs::control_leg);
        }
        let config = self.effective_config();
        let outcome = self.control.tick(&mut self.smc, &config, now);
        self.last_action = None;
        match outcome {
            Ok(Action::Sailing) => {},
            Ok(action) => {
                self.last_error = None;
                self.last_action = Some(action);
            },
            Err(e) => self.record_error(text::text2("tick failed: ", e.message().as_str())),
        }
    }

    /// Ends a discharge at the limit, and moves the adapter gate where the
    /// config wants it.
    fn tick_adapter(&mut self)
        ensures
            final(self).probe() == old(self).probe(),
            driver::reached(old(self).device(), final(self).device()),
            travelled(
                old(self).log(),
                final(self).log(),
                legs::adapter_leg(
                    old(self)@,
                    old(self).probe(),
                    final(self).log(),
                    old(self).log().len() as int,
                ),
                final(self)@,
            ),
    {
        proof {
            reveal(legs::adapter_leg);
        }
        if !self.smc.has_adapter_control() {
            return;
        }
        if !self.config.adapter_enabled {
            if let Some(percent) = self.read_battery() {
                if percent <= self.config.upper {
                    self.config.adapter_enabled = true;
                    self.unsaved = true;
                }
            }
        }
        let want = self.config.adapter_enabled;
        let outcome = self.smc.is_adapter_enabled();
        if let Some(on) = self.keep(outcome) {
            if on != want {
                let outcome = self.smc.set_adapter_enabled(want);
                self.keep(outcome);
            }
        }
    }

    /// Makes the MagSafe LED follow the config.
    fn tick_magsafe_led(&mut self)
        ensures
            final(self).probe() == old(self).probe(),
            driver::reached(old(self).device(), final(self).device()),
            travelled(
                old(self).log(),
                final(self).log(),
                legs::led_leg(
                    old(self)@,
                    old(self).probe(),
                    final(self).log(),
                    old(self).log().len() as int,
                ),
                final(self)@,
            ),
    {
        proof {
            reveal(legs::led_leg);
        }
        if !self.smc.has_magsafe_led() {
            return;
        }
        match self.config.magsafe_led {
            MagsafeLedMode::System => {
                let written = match self.last_led {
                    Some(led) => led == MagsafeLed::System,
                    None => false,
                };
                if !written {
                    self.write_led(MagsafeLed::System);
                }
            },
            MagsafeLedMode::Off => self.show_led(MagsafeLed::Off),
            MagsafeLedMode::Reflect => {
                let percent = match self.read_battery() {
                    Some(percent) => percent,
                    None => 0,
                };
                let led = if self.charging_allowed(percent) {
                    MagsafeLed::Orange
                } else {
                    MagsafeLed::Green
                };
                self.show_led(led);
            },
        }
    }

    fn show_led(&mut self, led: MagsafeLed)
        ensures
            final(self).probe() == old(self).probe(),
            driver::reached(old(self).device(), final(self).device()),
            travelled(
                old(self).log(),
                final(self).log(),
                legs::show_led_leg(
                    old(self)@,
                    old(self).probe(),
                    led,
                    final(self).log(),
                    old(self).log().len() as int,
                ),
                final(self)@,
            ),
    {
        let outcome = self.smc.magsafe_led();
        if let Some(shown) = self.keep(outcome) {
            if shown != led {
                self.write_led(led);
            }
        }
    }

    fn write_led(&mut self, led: MagsafeLed)
        ensures
            final(self).probe() == old(self).probe(),
            driver::reached(old(self).device(), final(self).device()),
            travelled(
                old(self).log(),
                final(self).log(),
                legs::write_led_leg(
                    old(self)@,
                    old(self).probe(),
                    led,
                    final(self).log(),
                    old(self).log().len() as int,
                ),
                final(self)@,
            ),
    {
        let outcome = self.smc.set_magsafe_led(led);
        if self.keep(outcome).is_some() {
            self.last_led = Some(led);
        }
    }

    /// Reports whether the machine may charge right now.
    fn charging_allowed(&mut self, percent: u8) -> (r: bool)
        ensures
            final(self).probe() == old(self).probe(),
            driver::reached(old(self).device(), final(self).device()),
            ({
                let leg = legs::charging_leg(
                    old(self)@,
                    old(self).probe(),
                    percent,
                    final(self).log(),
                    old(self).log().len() as int,
                );
                &&& travelled(old(self).log(), final(self).log(), leg, final(self)@)
                &&& r == leg.value
            }),
    {
        proof {
            reveal(legs::charging_leg);
        }
        match self.smc.charge_control_mode() {
            ChargeControlMode::Legacy => {
                let outcome = self.smc.is_charging_allowed();
                match self.keep(outcome) {
                    Some(allowed) => allowed,
                    None => false,
                }
            },
            ChargeControlMode::Firmware => {
                let outcome = self.smc.firmware_limit();
                match self.keep(outcome) {
                    Some(limit) => !(limit.active && percent >= limit.upper),
                    None => false,
                }
            },
            ChargeControlMode::Unsupported => true,
        }
    }

    /// Reads the live state and returns it as a [`Status`].
    ///
    /// A failed read never fails the response: the field falls back and the
    /// message goes to `last_error`.
    pub fn status(&mut self) -> (r: Status)
        ensures
            final(self).probe() == old(self).probe(),
            driver::reached(old(self).device(), final(self).device()),
            ({
                let leg = legs::status_leg(
                    old(self)@,
                    old(self).probe(),
                    final(self).log(),
                    old(self).log().len() as int,
                );
                &&& travelled(old(self).log(), final(self).log(), leg, final(self)@)
                &&& r@ == leg.value
            }),
    {
        proof {
            reveal(legs::status_leg);
            reveal(legs::charging_leg);
        }
        let mode = self.smc.charge_control_mode();
        let battery_percent = match self.read_battery() {
            Some(percent) => percent,
            None => 0,
        };
        let outcome = self.smc.is_plugged_in();
        let plugged_in = match self.keep(outcome) {
            Some(plugged_in) => plugged_in,
            None => false,
        };
        let charging_allowed = self.charging_allowed(battery_percent);
        let last_error = match &self.last_error {
            Some(message) => Some(message.clone()),
            None => None,
        };
        Status {
            version: VERSION.to_string(),
            mode,
            battery_percent,
            plugged_in,
            charging_allowed,
            adapter_enabled: self.config.adapter_enabled,
            upper: self.config.upper,
            lower: self.config.lower,
            magsafe_led: self.config.magsafe_led,
            top_up_active: self.config.top_up_active,
            last_error,
        }
    }

    /// The config that has to be saved before `request` is applied. `None` for
    /// a request that changes none, or that will be turned down.
    pub fn plan(&self, request: &Request) -> (r: Option<Config>)
        ensures
            r == match legs::planned(self@.config, *request) {
                Ok(wanted) => wanted,
                Err(_) => None,
            },
    {
        match self.wanted(request) {
            Ok(wanted) => wanted,
            Err(_) => None,
        }
    }

    fn wanted(&self, request: &Request) -> (r: Result<Option<Config>, String>)
        ensures
            text::told(r) == legs::planned(self@.config, *request),
    {
        let mut config = self.config;
        match request {
            Request::Status => return Ok(None),
            Request::SetLimit { upper, lower } => match validate_limits(*upper, *lower) {
                Ok((upper, lower)) => {
                    config.upper = upper;
                    config.lower = lower;
                },
                Err(message) => return Err(message),
            },
            Request::SetAdapter { enabled } => config.adapter_enabled = *enabled,
            Request::SetMagsafeLed { mode } => config.magsafe_led = *mode,
            Request::TopUp => config.top_up_active = true,
            Request::CancelTopUp => config.top_up_active = false,
        }
        Ok(Some(config))
    }

    /// Applies one request and returns the response to write back.
    ///
    /// `failure` is what went wrong with saving the config that
    /// [`Daemon::plan`] asked for.
    pub fn apply(&mut self, request: Request, failure: Option<String>, now: u64) -> (r: Response)
        ensures
            final(self).probe() == old(self).probe(),
            driver::reached(old(self).device(), final(self).device()),
            ({
                let leg = legs::apply_leg(
                    old(self)@,
                    old(self).probe(),
                    request,
                    text::chars(failure),
                    now,
                    final(self).log(),
                    old(self).log().len() as int,
                );
                &&& travelled(old(self).log(), final(self).log(), leg, final(self)@)
                &&& r@ == leg.value
            }),
    {
        proof {
            reveal(legs::apply_leg);
        }
        self.last_action = None;
        match self.wanted(&request) {
            Err(message) => return Response::err(message),
            Ok(None) => {},
            Ok(Some(config)) => {
                self.config = config;
                self.note_save(failure);
            },
        }
        match request {
            // A new band takes effect at once, not on the next tick.
            Request::SetLimit { .. } => self.tick(now),
            Request::TopUp => self.tick(now),
            Request::CancelTopUp => self.tick(now),
            Request::SetAdapter { .. } => self.tick_adapter(),
            Request::Status => {},
            Request::SetMagsafeLed { .. } => {},
        }
        Response::ok(self.status())
    }

    /// Handles one sleep or wake notification and returns the line to log.
    pub fn on_power_event(&mut self, event: PowerEvent, now: u64) -> (r: Option<String>)
        ensures
            final(self).probe() == old(self).probe(),
            driver::reached(old(self).device(), final(self).device()),
            ({
                let leg = legs::power_leg(
                    old(self)@,
                    old(self).probe(),
                    event,
                    now,
                    final(self).log(),
                    old(self).log().len() as int,
                );
                &&& travelled(old(self).log(), final(self).log(), leg, final(self)@)
                &&& text::chars(r) == leg.value
            }),
    {
        broadcast use control::lemma_power_kept;

        proof {
            reveal(legs::power_leg);
        }
        let config = self.effective_config();
        let name = match event {
            PowerEvent::WillSleep => "WillSleep",
            PowerEvent::DidWake => "DidWake",
        };
        match self.control.on_power_event(&mut self.smc, &config, event, now) {
            Err(e) => {
                self.record_error(text::text3(name, " failed: ", e.message().as_str()));
                None
            },
            Ok(action) => {
                let resume = text::truth_text(self.control.resume_after_wake());
                let percent = match self.read_battery() {
                    Some(percent) => percent,
                    None => 0,
                };
                let head = text::text4(
                    name,
                    ": battery ",
                    text::decimal_text(percent as u64).as_str(),
                    "%, ",
                );
                Some(
                    text::text4(
                        head.as_str(),
                        action.name().as_str(),
                        ", inhibited for sleep ",
                        resume,
                    ),
                )
            },
        }
    }

    /// Opens the charge gate, enables the adapter and returns the MagSafe LED
    /// to the system.
    ///
    /// Called on SIGTERM/SIGINT and by `uninstall`. The machine must never
    /// be left with charging switched off.
    pub fn reset_charge_control(&mut self) -> (r: Reset)
        ensures
            final(self).probe() == old(self).probe(),
            driver::reached(old(self).device(), final(self).device()),
            ({
                let leg = legs::shutdown_leg(
                    old(self)@,
                    old(self).probe(),
                    final(self).log(),
                    old(self).log().len() as int,
                );
                &&& travelled(old(self).log(), final(self).log(), leg, final(self)@)
                &&& r@ == leg.value
            }),
    {
        proof {
            reveal(legs::shutdown_leg);
        }
        let gate = failure(self.smc.reset_charge_control(), "cannot reset charge control: ");
        let adapter = if self.smc.has_adapter_control() {
            failure(self.smc.set_adapter_enabled(true), "cannot enable the adapter: ")
        } else {
            None
        };
        let led = if self.smc.has_magsafe_led() {
            failure(
                self.smc.set_magsafe_led(MagsafeLed::System),
                "cannot reset MagSafe LED: ",
            )
        } else {
            None
        };
        Reset { gate, adapter, led }
    }
}

/// The message of an operation that failed.
fn failure(outcome: Result<(), SmcError>, what: &str) -> (r: Option<String>)
    ensures
        text::chars(r) == match outcome {
            Ok(_) => None,
            Err(e) => Some(what@ + error::fault_text(e@)),
        },
{
    match outcome {
        Ok(_) => None,
        Err(e) => Some(text::text2(what, e.message().as_str())),
    }
}

} // verus!
