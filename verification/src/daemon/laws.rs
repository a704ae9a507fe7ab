//! What holds of the daemon whatever it is told and whatever the SMC answers.

use crate::daemon::config::{self, Config};
use crate::daemon::control;
use crate::daemon::legs::{self, State};
use crate::proto::{self, ChargeControlMode, MagsafeLedMode, Request, MAX_UPPER};
use crate::smc::driver::{self, Exchange};
use crate::smc::memory::{self, Memory};
use crate::smc::run::{self, Probe};
use crate::smc::{MagsafeLed, ADAPTER_ON, KEY_ACLC};
use vstd::prelude::*;

verus! {

// ---------------------------------------------------------------------------
// The configuration
// ---------------------------------------------------------------------------

/// `after` is `before`, but for a top-up that ended and an adapter that was
/// enabled.
pub open spec fn same_wishes(before: Config, after: Config) -> bool {
    &&& after.upper == before.upper
    &&& after.lower == before.lower
    &&& after.magsafe_led == before.magsafe_led
    &&& after.inhibit_on_sleep_always == before.inhibit_on_sleep_always
    &&& after.top_up_active ==> before.top_up_active
    &&& before.adapter_enabled ==> after.adapter_enabled
}

/// A tick changes nothing that the user asked for, except that a top-up may
/// end and that an adapter that was switched off may be enabled again. Where
/// it does, the configuration is to be saved.
pub proof fn a_tick_keeps_the_config(s: State, p: Probe, now: u64, log: Seq<Exchange>, at: int)
    ensures
        same_wishes(s.config, legs::tick_leg(s, p, now, log, at).state.config),
        legs::tick_leg(s, p, now, log, at).state.config != s.config ==> legs::tick_leg(
            s,
            p,
            now,
            log,
            at,
        ).state.unsaved,
{
    lemma_tick_config(s, p, now, log, at);
}

proof fn lemma_tick_config(s: State, p: Probe, now: u64, log: Seq<Exchange>, at: int)
    ensures
        ({
            let end = legs::tick_leg(s, p, now, log, at).state;
            &&& same_wishes(s.config, end.config)
            &&& end.config != s.config ==> end.unsaved
            &&& s.unsaved ==> end.unsaved
            &&& end.config.top_up_active == legs::top_up_leg(
                s,
                p,
                log,
                at,
            ).state.config.top_up_active
        }),
{
    reveal(legs::tick_leg);
    let first = legs::top_up_leg(s, p, log, at);
    let at2 = legs::beyond(at, first);
    let second = legs::control_leg(first.state, p, now, log, at2);
    let at3 = legs::beyond(at2, second);
    let third = legs::adapter_leg(second.state, p, log, at3);
    lemma_control_config(first.state, p, now, log, at2);
    lemma_led_config(third.state, p, log, legs::beyond(at3, third));
    reveal(legs::top_up_leg);
    reveal(legs::adapter_leg);
}

proof fn lemma_control_config(s: State, p: Probe, now: u64, log: Seq<Exchange>, at: int)
    ensures
        legs::control_leg(s, p, now, log, at).state.config == s.config,
        legs::control_leg(s, p, now, log, at).state.unsaved == s.unsaved,
{
    reveal(legs::control_leg);
}

proof fn lemma_led_config(s: State, p: Probe, log: Seq<Exchange>, at: int)
    ensures
        legs::led_leg(s, p, log, at).state.config == s.config,
        legs::led_leg(s, p, log, at).state.unsaved == s.unsaved,
{
    reveal(legs::led_leg);
    reveal(legs::charging_leg);
}

/// A status report changes nothing but the errors.
pub proof fn a_status_keeps_the_config(s: State, p: Probe, log: Seq<Exchange>, at: int)
    ensures
        ({
            let end = legs::status_leg(s, p, log, at).state;
            end == (State { last_error: end.last_error, errors: end.errors, ..s })
        }),
{
    reveal(legs::status_leg);
    reveal(legs::charging_leg);
}

/// An SMC that does not answer fails no status: what could not be read has a
/// fallback, and the status tells an error.
pub proof fn failed_reads_are_told(s: State, p: Probe, log: Seq<Exchange>, at: int)
    ensures
        ({
            let status = legs::status_leg(s, p, log, at).value;
            let battery = run::battery_run(p, log, at);
            let plugged = run::plugged_in_run(p, log, run::past(at, battery));
            &&& battery.value is Err ==> status.battery_percent == 0 && status.last_error is Some
            &&& plugged.value is Err ==> !status.plugged_in && status.last_error is Some
        }),
{
    reveal(legs::status_leg);
    reveal(legs::charging_leg);
}

/// The configuration after an accepted request is the one that it asked for,
/// but for a top-up that ended and an adapter that was enabled.
pub proof fn requests_get_what_they_ask_for(
    s: State,
    p: Probe,
    request: Request,
    failure: Option<Seq<char>>,
    now: u64,
    log: Seq<Exchange>,
    at: int,
)
    requires
        legs::planned(s.config, request) is Ok,
    ensures
        ({
            let leg = legs::apply_leg(s, p, request, failure, now, log, at);
            let wanted = match legs::planned(s.config, request)->Ok_0 {
                Some(config) => config,
                None => s.config,
            };
            &&& same_wishes(wanted, leg.state.config)
            &&& leg.value.ok
            &&& leg.value.error is None
            &&& leg.value.status matches Some(status) && {
                &&& status.upper == wanted.upper
                &&& status.lower == wanted.lower
                &&& status.magsafe_led == wanted.magsafe_led
                &&& status.adapter_enabled == leg.state.config.adapter_enabled
                &&& status.top_up_active == leg.state.config.top_up_active
                &&& status.last_error == leg.state.last_error
                &&& status.mode == p.mode
            }
        }),
{
    reveal(legs::apply_leg);
    let s1 = State { last_action: None, ..s };
    let s2 = match legs::planned(s.config, request)->Ok_0 {
        None => s1,
        Some(config) => legs::after_save(State { config, ..s1 }, failure),
    };
    lemma_tick_config(s2, p, now, log, at);
    let prompted = legs::prompted_leg(s2, p, request, now, log, at);
    reveal(legs::adapter_leg);
    a_status_keeps_the_config(prompted.state, p, log, legs::beyond(at, prompted));
    reveal(legs::status_leg);
}

/// Only a limit that is out of range is turned down, with the reason. Nothing
/// is sent then, and the configuration stays.
pub proof fn a_refused_request_changes_nothing(
    s: State,
    p: Probe,
    request: Request,
    failure: Option<Seq<char>>,
    now: u64,
    log: Seq<Exchange>,
    at: int,
)
    ensures
        ({
            let leg = legs::apply_leg(s, p, request, failure, now, log, at);
            let reason = match request {
                Request::SetLimit { upper, lower } => proto::validated(upper, lower),
                _ => Ok((0u8, 0u8)),
            };
            &&& leg.value.ok <==> reason is Ok
            &&& reason matches Err(message) ==> {
                &&& leg.sent.len() == 0
                &&& leg.state == (State { last_action: None, ..s })
                &&& leg.value == proto::refused(message)
            }
        }),
{
    reveal(legs::apply_leg);
}

/// The limits of a daemon that started with a band are a band, whatever it was
/// asked for since.
pub proof fn the_limits_stay_a_band(
    s: State,
    p: Probe,
    request: Request,
    failure: Option<Seq<char>>,
    now: u64,
    log: Seq<Exchange>,
    at: int,
)
    requires
        proto::band(s.config.upper, s.config.lower),
    ensures
        ({
            let told = legs::apply_leg(s, p, request, failure, now, log, at).state.config;
            let ticked = legs::tick_leg(s, p, now, log, at).state.config;
            &&& proto::band(told.upper, told.lower)
            &&& proto::band(ticked.upper, ticked.lower)
        }),
{
    lemma_tick_config(s, p, now, log, at);
    if legs::planned(s.config, request) is Ok {
        requests_get_what_they_ask_for(s, p, request, failure, now, log, at);
    } else {
        a_refused_request_changes_nothing(s, p, request, failure, now, log, at);
    }
}

/// The default configuration has a band.
pub proof fn the_default_is_a_band()
    ensures
        proto::band(config::default_config().upper, config::default_config().lower),
        proto::validated(config::default_config().upper, None) == Ok::<(u8, u8), Seq<char>>(
            (config::default_config().upper, config::default_config().lower),
        ),
{
}

// ---------------------------------------------------------------------------
// Top-ups, discharges and the LED
// ---------------------------------------------------------------------------

/// A top-up lasts until the battery is full, and no longer.
pub proof fn a_top_up_ends_when_full(s: State, p: Probe, now: u64, log: Seq<Exchange>, at: int)
    requires
        s.config.top_up_active,
    ensures
        ({
            let battery = run::battery_run(p, log, at).value;
            let end = legs::tick_leg(s, p, now, log, at).state;
            end.config.top_up_active <==> !(battery matches Ok(percent) && percent >= 100)
        }),
{
    lemma_tick_config(s, p, now, log, at);
    reveal(legs::top_up_leg);
}

/// While a top-up is active the control loop knows no limit, and once it is
/// over it knows the one that was set.
pub proof fn a_top_up_suspends_the_limit(config: Config)
    ensures
        config.top_up_active ==> legs::effective(config).upper == MAX_UPPER,
        !config.top_up_active ==> legs::effective(config) == config,
{
}

/// A request for limits and the end of a top-up take effect at once: the first
/// thing that is sent is a tick of the control loop with the new limits.
pub proof fn new_limits_take_effect_at_once(
    s: State,
    p: Probe,
    request: Request,
    failure: Option<Seq<char>>,
    now: u64,
    log: Seq<Exchange>,
    at: int,
)
    requires
        ({
            ||| request is CancelTopUp
            ||| request is SetLimit && !s.config.top_up_active && legs::planned(
                s.config,
                request,
            ) is Ok
        }),
    ensures
        ({
            let wanted = legs::planned(s.config, request)->Ok_0->0;
            let tick = control::tick_run(
                p,
                wanted,
                control::missed(s.pace.last_tick, now),
                log,
                at,
            );
            tick.sent.is_prefix_of(legs::apply_leg(s, p, request, failure, now, log, at).sent)
        }),
{
    reveal(legs::apply_leg);
    reveal(legs::tick_leg);
    reveal(legs::top_up_leg);
    reveal(legs::control_leg);
}

/// A discharge ends at the limit: once the battery is no higher, the adapter is
/// wanted again, and above it is not.
pub proof fn a_discharge_ends_at_the_limit(s: State, p: Probe, log: Seq<Exchange>, at: int)
    requires
        run::adapter_key(p) is Some,
        !s.config.adapter_enabled,
    ensures
        ({
            let battery = run::battery_run(p, log, at).value;
            let end = legs::adapter_leg(s, p, log, at).state;
            end.config.adapter_enabled <==> (battery matches Ok(percent) && percent
                <= s.config.upper)
        }),
{
    reveal(legs::adapter_leg);
}

/// A LED that was handed back to the system is not written again, whatever
/// colour it shows.
pub proof fn the_system_led_is_written_once(
    s: State,
    p: Probe,
    log: Seq<Exchange>,
    at: int,
    later: Seq<Exchange>,
    then: int,
)
    requires
        s.config.magsafe_led == MagsafeLedMode::System,
        run::found(p, KEY_ACLC@),
        s.last_led == Some(MagsafeLed::System) || run::set_led_run(
            p,
            MagsafeLed::System,
            log,
            at,
        ).value is Ok,
    ensures
        ({
            let end = legs::led_leg(s, p, log, at).state;
            legs::led_leg(end, p, later, then) == legs::stay(end, ())
        }),
{
    reveal(legs::led_leg);
}

// ---------------------------------------------------------------------------
// Shutdown
// ---------------------------------------------------------------------------

/// The keys that a shutdown writes.
pub open spec fn shutdown_codes(p: Probe) -> Set<u32> {
    memory::gate_codes().union(memory::firmware_codes()).insert(
        driver::key_code(KEY_ACLC@)->0,
    ).insert(driver::key_code(run::adapter_key(p)->0)->0)
}

/// Everything that a shutdown writes takes the write.
pub open spec fn shutdown_settable(p: Probe, m: Memory) -> bool {
    &&& match p.mode {
        ChargeControlMode::Legacy => memory::gate_settable(p, m),
        ChargeControlMode::Firmware => memory::firmware_settable(p, m),
        ChargeControlMode::Unsupported => true,
    }
    &&& run::adapter_key(p) is Some ==> {
        &&& memory::settable(p, m, run::adapter_key(p)->0)
        &&& memory::bytes_at(m, run::adapter_key(p)->0).len() == 1
    }
    &&& run::found(p, KEY_ACLC@) ==> {
        &&& memory::settable(p, m, KEY_ACLC@)
        &&& memory::bytes_at(m, KEY_ACLC@).len() == 1
    }
}

/// The machine may charge.
pub open spec fn free_to_charge(p: Probe, m: Memory) -> bool {
    &&& match p.mode {
        ChargeControlMode::Legacy => memory::gate_open(p, m),
        ChargeControlMode::Firmware => !memory::limit_in(m).active,
        ChargeControlMode::Unsupported => true,
    }
    &&& run::adapter_key(p) is Some ==> memory::bytes_at(m, run::adapter_key(p)->0) == seq![
        ADAPTER_ON,
    ]
    &&& run::found(p, KEY_ACLC@) ==> memory::bytes_at(m, KEY_ACLC@) == seq![
        run::led_byte(MagsafeLed::System),
    ]
}

/// The memory after the charge control was reset.
pub open spec fn reset_memory(p: Probe, m: Memory) -> Memory {
    match p.mode {
        ChargeControlMode::Legacy => memory::with_gate(p, m, true),
        ChargeControlMode::Firmware => memory::stored(
            m,
            crate::smc::KEY_BFF0@,
            seq![crate::smc::FIRMWARE_OFF],
        ),
        ChargeControlMode::Unsupported => m,
    }
}

/// The memory after a shutdown.
pub open spec fn shutdown_memory(p: Probe, m: Memory) -> Memory {
    let m1 = reset_memory(p, m);
    let m2 = if run::adapter_key(p) is Some {
        memory::stored(m1, run::adapter_key(p)->0, seq![ADAPTER_ON])
    } else {
        m1
    };
    if run::found(p, KEY_ACLC@) {
        memory::stored(m2, KEY_ACLC@, seq![run::led_byte(MagsafeLed::System)])
    } else {
        m2
    }
}

proof fn lemma_shutdown_memory(p: Probe, m: Memory)
    requires
        shutdown_settable(p, m),
    ensures
        shutdown_settable(p, reset_memory(p, m)),
        free_to_charge(p, shutdown_memory(p, m)),
{
    run::lemma_known_codes();
    memory::lemma_known_keys();
    if p.mode == ChargeControlMode::Legacy {
        memory::lemma_with_gate(p, m, true);
    }
}

/// A shutdown never leaves the machine with charging switched off: the charge
/// gate is open or the firmware limit off, the adapter is on, and the system
/// drives the LED. Nothing is reported as not handed back, except that a Mac
/// without charge control has none to hand back.
pub proof fn a_shutdown_leaves_the_machine_charging(
    s: State,
    p: Probe,
    m: Memory,
    log: Seq<Exchange>,
    at: int,
)
    requires
        shutdown_settable(p, m),
        memory::keeps(m, log, at, shutdown_codes(p)),
        memory::stands(log, at, legs::shutdown_leg(s, p, log, at).sent),
    ensures
        ({
            let leg = legs::shutdown_leg(s, p, log, at);
            &&& leg.value.gate is None <==> p.mode != ChargeControlMode::Unsupported
            &&& leg.value.adapter is None
            &&& leg.value.led is None
            &&& memory::keeps(
                shutdown_memory(p, m),
                log,
                legs::beyond(at, leg),
                shutdown_codes(p),
            )
            &&& free_to_charge(p, shutdown_memory(p, m))
        }),
{
    reveal(legs::shutdown_leg);
    reveal(run::reset_run);
    reveal(run::set_adapter_run);
    reveal(run::set_led_run);
    lemma_shutdown_memory(p, m);
    run::lemma_known_codes();
    memory::lemma_known_keys();
    let codes = shutdown_codes(p);
    let gate = run::reset_run(p, log, at);
    let at2 = run::past(at, gate);
    let adapter = if run::adapter_key(p) is Some {
        run::set_adapter_run(p, true, log, at2)
    } else {
        run::done(())
    };
    let at3 = run::past(at2, adapter);
    let led = if run::found(p, KEY_ACLC@) {
        run::set_led_run(p, MagsafeLed::System, log, at3)
    } else {
        run::done(())
    };
    memory::lemma_stands_joined(log, at, gate.sent, run::joined(adapter.sent, led.sent));
    memory::lemma_stands_joined(log, at2, adapter.sent, led.sent);
    if p.mode == ChargeControlMode::Legacy {
        memory::lemma_gate_set(p, m, codes, true, log, at);
    } else if p.mode == ChargeControlMode::Firmware {
        memory::lemma_limit_cleared(p, m, codes, log, at);
    }
    let m1 = reset_memory(p, m);
    let m2 = if run::adapter_key(p) is Some {
        memory::stored(m1, run::adapter_key(p)->0, seq![ADAPTER_ON])
    } else {
        m1
    };
    if run::adapter_key(p) is Some {
        memory::lemma_write(p, m1, codes, run::adapter_key(p)->0, seq![ADAPTER_ON], log, at2);
    }
    if run::found(p, KEY_ACLC@) {
        let value = seq![run::led_byte(MagsafeLed::System)];
        memory::lemma_write(p, m2, codes, KEY_ACLC@, value, log, at3);
    }
}

} // verus!
