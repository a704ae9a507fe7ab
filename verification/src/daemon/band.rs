//! What the control loop holds: the band, whatever the Mac holds it with.

use crate::daemon::config::Config;
use crate::daemon::control::{self, Action, PowerEvent};
use crate::proto::{ChargeControlMode, MAX_UPPER};
use crate::smc::driver::{self, Exchange, Packet};
use crate::smc::error::Fault;
use crate::smc::memory::{self, Memory};
use crate::smc::mock::{self, MockDriver};
use crate::smc::recall;
use crate::smc::run::{self, Probe};
use crate::smc::{self, FirmwareLimit, Smc, FIRMWARE_OFF, KEY_BFF0};
use vstd::prelude::*;

verus! {

/// The band decides where the charge gate ends up: closed at `upper`, open below
/// `lower`, and where it was in between.
pub proof fn the_band_decides_the_gate(config: Config, allowed: bool, percent: u8)
    requires
        config.lower <= config.upper,
    ensures
        ({
            let gate = control::gate_after(
                control::band_action(config, allowed, percent),
                allowed,
            );
            &&& percent >= config.upper ==> !gate
            &&& percent < config.lower ==> gate
            &&& config.lower <= percent < config.upper ==> gate == allowed
        }),
{
}

/// The band asks once: with the charge gate where it asked for it, and the battery
/// where it was, it asks for nothing.
pub proof fn the_band_asks_once(config: Config, allowed: bool, percent: u8)
    requires
        config.lower <= config.upper,
    ensures
        ({
            let gate = control::gate_after(
                control::band_action(config, allowed, percent),
                allowed,
            );
            control::band_action(config, gate, percent) == Action::Sailing
        }),
{
}

/// None of the packets is a write.
pub open spec fn only_reads(sent: Seq<Packet>) -> bool {
    forall|i: int| 0 <= i < sent.len() ==> (#[trigger] sent[i]).data8 != driver::CMD_WRITE_BYTES
}

/// An SMC that keeps what it is told keeps it while it is only asked.
proof fn lemma_reads_keep(
    m: Memory,
    log: Seq<Exchange>,
    at: int,
    codes: Set<u32>,
    sent: Seq<Packet>,
)
    requires
        memory::keeps(m, log, at, codes),
        memory::stands(log, at, sent),
        only_reads(sent),
    ensures
        memory::keeps(m, log, at + sent.len(), codes),
    decreases sent.len(),
{
    reveal(memory::stands);
    if sent.len() > 0 {
        assert(log[at + 0].sent == sent[0]);
        memory::lemma_keeps_on(m, log, at, codes);
        let rest = sent.skip(1);
        assert forall|i: int| 0 <= i < rest.len() implies (#[trigger] log[at + 1 + i]).sent
            == rest[i] by {
            assert(log[at + (i + 1)].sent == sent[i + 1]);
        }
        assert forall|i: int| 0 <= i < rest.len() implies (#[trigger] rest[i]).data8
            != driver::CMD_WRITE_BYTES by {
            assert(rest[i] == sent[i + 1]);
        }
        lemma_reads_keep(m, log, at + 1, codes, rest);
    }
}

/// Reading the battery writes nothing.
proof fn lemma_battery_reads(p: Probe, log: Seq<Exchange>, at: int)
    ensures
        only_reads(run::battery_run(p, log, at).sent),
{
    reveal(run::battery_run);
    reveal(run::read_u8_run);
    reveal(run::read_run);
}

/// A tick leaves the legacy gate where its action says: open with the limit
/// off, closed after missed ticks, and otherwise where the band asks for it.
pub proof fn a_tick_moves_the_gate(
    p: Probe,
    m: Memory,
    config: Config,
    missed: bool,
    log: Seq<Exchange>,
    at: int,
)
    requires
        p.mode == ChargeControlMode::Legacy,
        recall::gate_free(p, m),
        memory::keeps(m, log, at, memory::gate_codes()),
        ({
            let tick = control::tick_run(p, config, missed, log, at);
            let then = run::past(at, tick);
            &&& tick.value is Ok
            &&& memory::stands(log, at, tick.sent)
            &&& memory::stands(log, then, run::allowed_run(p, log, then).sent)
        }),
    ensures
        ({
            let tick = control::tick_run(p, config, missed, log, at);
            let then = run::past(at, tick);
            let allowed = recall::gate_in(p, m)->Ok_0;
            let battery = run::battery_run(p, log, run::past(at, run::allowed_run(p, log, at)));
            let gate = run::allowed_run(p, log, then).value;
            &&& recall::gate_in(p, m) is Ok
            &&& gate == Ok::<bool, Fault>(control::gate_after(tick.value->Ok_0, allowed))
            &&& config.upper >= MAX_UPPER ==> gate == Ok::<bool, Fault>(true)
            &&& config.upper < MAX_UPPER && missed && allowed ==> gate == Ok::<bool, Fault>(false)
            &&& config.upper < MAX_UPPER && !(missed && allowed) ==> {
                &&& battery.value is Ok
                &&& tick.value->Ok_0 == control::band_action(
                    config,
                    allowed,
                    battery.value->Ok_0,
                )
            }
        }),
{
    reveal(control::tick_run);
    lemma_legacy_tick(p, m, config, missed, log, at);
    let tick = control::legacy_tick_run(p, config, missed, log, at);
    let m1 = gate_memory(p, m, tick.value->Ok_0);
    recall::lemma_gate_in(p, m1, memory::gate_codes(), log, run::past(at, tick));
}

/// The daemon holds the limit: after a tick with a live limit and no missed
/// ticks, the legacy gate is closed with the battery at `upper` or above, open
/// below `lower`, and where it was in between.
pub proof fn a_tick_holds_the_band(
    p: Probe,
    m: Memory,
    config: Config,
    log: Seq<Exchange>,
    at: int,
)
    requires
        p.mode == ChargeControlMode::Legacy,
        config.lower <= config.upper < MAX_UPPER,
        recall::gate_free(p, m),
        memory::keeps(m, log, at, memory::gate_codes()),
        ({
            let tick = control::tick_run(p, config, false, log, at);
            let then = run::past(at, tick);
            &&& tick.value is Ok
            &&& memory::stands(log, at, tick.sent)
            &&& memory::stands(log, then, run::allowed_run(p, log, then).sent)
        }),
    ensures
        ({
            let tick = control::tick_run(p, config, false, log, at);
            let battery = run::battery_run(p, log, run::past(at, run::allowed_run(p, log, at)));
            let gate = run::allowed_run(p, log, run::past(at, tick)).value;
            &&& battery.value matches Ok(percent) && {
                &&& percent >= config.upper ==> gate == Ok::<bool, Fault>(false)
                &&& percent < config.lower ==> gate == Ok::<bool, Fault>(true)
                &&& config.lower <= percent < config.upper ==> gate is Ok && gate
                    == recall::gate_in(p, m)
            }
        }),
{
    a_tick_moves_the_gate(p, m, config, false, log, at);
}

/// The control loop holds the limit over the mock: after a tick with a live
/// limit and no missed ticks, the legacy gate reads closed with the battery at
/// `upper` or above, open below `lower`, and as it was in between.
pub proof fn a_tick_over_the_mock_holds_the_band(
    before: Smc<MockDriver>,
    ticked: Smc<MockDriver>,
    read: Smc<MockDriver>,
    config: Config,
    action: Action,
    gate: Result<bool, Fault>,
)
    requires
        before@.mode == ChargeControlMode::Legacy,
        config.lower <= config.upper < MAX_UPPER,
        recall::gate_free(before@, before.device().memory()),
        smc::did(
            before,
            ticked,
            control::tick_run(
                before@,
                config,
                false,
                ticked.log(),
                before.log().len() as int,
            ),
            Ok(action),
        ),
        smc::did(
            ticked,
            read,
            run::allowed_run(ticked@, read.log(), ticked.log().len() as int),
            gate,
        ),
    ensures
        ({
            let (p, log, at) = (before@, read.log(), before.log().len() as int);
            let battery = run::battery_run(p, log, run::past(at, run::allowed_run(p, log, at)));
            &&& battery.value matches Ok(percent) && {
                &&& percent >= config.upper ==> gate == Ok::<bool, Fault>(false)
                &&& percent < config.lower ==> gate == Ok::<bool, Fault>(true)
                &&& config.lower <= percent < config.upper ==> gate is Ok && gate
                    == recall::gate_in(p, before.device().memory())
            }
        }),
{
    let (p, log, at) = (before@, read.log(), before.log().len() as int);
    let codes = memory::gate_codes();
    let tick = control::tick_run(p, config, false, ticked.log(), at);
    run::lemma_followed_extends(before.log(), ticked.log(), tick.sent);
    run::lemma_followed_extends(
        ticked.log(),
        log,
        run::allowed_run(p, log, ticked.log().len() as int).sent,
    );
    control::lemma_tick_kept(p, config, false, ticked.log(), log, at);
    driver::lemma_reached_twice(before.device(), ticked.device(), read.device());
    mock::the_mock_keeps_what_it_is_told(before.device(), read.device(), codes);
    assert(memory::stands(log, at, tick.sent)) by {
        reveal(memory::stands);
        assert forall|i: int| 0 <= i < tick.sent.len() implies (#[trigger] log[at + i]).sent
            == tick.sent[i] by {
            assert(ticked.log()[at + i].sent == tick.sent[i]);
        }
    }
    let then = run::past(at, tick);
    assert(memory::stands(log, then, run::allowed_run(p, log, then).sent)) by {
        reveal(memory::stands);
    }
    a_tick_holds_the_band(p, before.device().memory(), config, log, at);
}

/// Wake re-checks the band at once, however long the machine slept: the charge
/// gate is closed with the battery at `upper` or above, open below `lower`, and
/// where it was in between.
pub proof fn wake_holds_the_band(p: Probe, m: Memory, config: Config, log: Seq<Exchange>, at: int)
    requires
        p.mode == ChargeControlMode::Legacy,
        config.lower <= config.upper < MAX_UPPER,
        recall::gate_free(p, m),
        memory::keeps(m, log, at, memory::gate_codes()),
        ({
            let wake = control::power_run(p, config, PowerEvent::DidWake, log, at);
            let then = run::past(at, wake);
            &&& wake.value is Ok
            &&& memory::stands(log, at, wake.sent)
            &&& memory::stands(log, then, run::allowed_run(p, log, then).sent)
        }),
    ensures
        ({
            let wake = control::power_run(p, config, PowerEvent::DidWake, log, at);
            let battery = run::battery_run(p, log, run::past(at, run::allowed_run(p, log, at)));
            let gate = run::allowed_run(p, log, run::past(at, wake)).value;
            &&& battery.value matches Ok(percent) && {
                &&& percent >= config.upper ==> gate == Ok::<bool, Fault>(false)
                &&& percent < config.lower ==> gate == Ok::<bool, Fault>(true)
                &&& config.lower <= percent < config.upper ==> gate is Ok && gate
                    == recall::gate_in(p, m)
            }
        }),
{
    reveal(control::power_run);
    a_tick_holds_the_band(p, m, config, log, at);
}

/// The memory after an action on the legacy gate.
pub open spec fn gate_memory(p: Probe, m: Memory, action: Action) -> Memory {
    match action {
        Action::Allowed => recall::gate_told(p, m, true),
        Action::Inhibited => recall::gate_told(p, m, false),
        Action::InhibitedAfterMissedTicks => recall::gate_told(p, m, false),
        _ => m,
    }
}

/// A gate that was moved is where it was moved to.
proof fn lemma_move_gate(
    p: Probe,
    m: Memory,
    allow: bool,
    action: Action,
    log: Seq<Exchange>,
    at: int,
)
    requires
        recall::gate_free(p, m),
        memory::keeps(m, log, at, memory::gate_codes()),
        ({
            let moved = control::move_gate_run(p, allow, action, log, at);
            &&& moved.value is Ok
            &&& memory::stands(log, at, moved.sent)
        }),
    ensures
        ({
            let moved = control::move_gate_run(p, allow, action, log, at);
            let now = recall::gate_told(p, m, allow);
            &&& moved.value == Ok::<Action, Fault>(action)
            &&& memory::keeps(now, log, run::past(at, moved), memory::gate_codes())
            &&& recall::gate_in(p, now) == Ok::<bool, Fault>(allow)
            &&& recall::gate_free(p, now)
        }),
{
    memory::lemma_stands(
        log,
        at,
        run::set_gate_run(p, allow, log, at),
        run::done::<Action>(action),
    );
    recall::lemma_set_gate_in(p, m, memory::gate_codes(), allow, log, at);
    recall::lemma_gate_told(p, m, allow, allow);
}

proof fn lemma_legacy_tick(
    p: Probe,
    m: Memory,
    config: Config,
    missed: bool,
    log: Seq<Exchange>,
    at: int,
)
    requires
        p.mode == ChargeControlMode::Legacy,
        recall::gate_free(p, m),
        memory::keeps(m, log, at, memory::gate_codes()),
        ({
            let tick = control::legacy_tick_run(p, config, missed, log, at);
            &&& tick.value is Ok
            &&& memory::stands(log, at, tick.sent)
        }),
    ensures
        ({
            let tick = control::legacy_tick_run(p, config, missed, log, at);
            let allowed = recall::gate_in(p, m)->Ok_0;
            let now = gate_memory(p, m, tick.value->Ok_0);
            let battery = run::battery_run(p, log, run::past(at, run::allowed_run(p, log, at)));
            &&& recall::gate_in(p, m) is Ok
            &&& memory::keeps(now, log, run::past(at, tick), memory::gate_codes())
            &&& recall::gate_free(p, now)
            &&& recall::gate_in(p, now) == Ok::<bool, Fault>(
                control::gate_after(tick.value->Ok_0, allowed),
            )
            &&& tick.value->Ok_0 == if config.upper >= MAX_UPPER {
                if allowed {
                    Action::Sailing
                } else {
                    Action::Allowed
                }
            } else if missed && allowed {
                Action::InhibitedAfterMissedTicks
            } else {
                control::band_action(config, allowed, battery.value->Ok_0)
            }
            &&& !(config.upper >= MAX_UPPER) && !(missed && allowed) ==> battery.value is Ok
        }),
{
    reveal(control::legacy_tick_run);
    let codes = memory::gate_codes();
    let read = run::allowed_run(p, log, at);
    let then = run::past(at, read);
    let allowed = read.value->Ok_0;
    let rest = if config.upper >= MAX_UPPER {
        if allowed {
            run::done(Action::Sailing)
        } else {
            control::move_gate_run(p, true, Action::Allowed, log, then)
        }
    } else if missed && allowed {
        control::move_gate_run(p, false, Action::InhibitedAfterMissedTicks, log, then)
    } else {
        control::band_run(p, config, allowed, log, then)
    };
    memory::lemma_stands(log, at, read, rest);
    recall::lemma_gate_in(p, m, memory::gate_codes(), log, at);
    if config.upper >= MAX_UPPER {
        if !allowed {
            lemma_move_gate(p, m, true, Action::Allowed, log, then);
        }
    } else if missed && allowed {
        lemma_move_gate(p, m, false, Action::InhibitedAfterMissedTicks, log, then);
    } else {
        let battery = run::battery_run(p, log, then);
        let last = run::past(then, battery);
        let action = control::band_action(config, allowed, battery.value->Ok_0);
        let tail = match action {
            Action::Inhibited => control::move_gate_run(p, false, Action::Inhibited, log, last),
            Action::Allowed => control::move_gate_run(p, true, Action::Allowed, log, last),
            _ => run::done(Action::Sailing),
        };
        memory::lemma_stands(log, then, battery, tail);
        lemma_battery_reads(p, log, then);
        lemma_reads_keep(m, log, then, codes, battery.sent);
        if action == Action::Inhibited {
            lemma_move_gate(p, m, false, Action::Inhibited, log, last);
        } else if action == Action::Allowed {
            lemma_move_gate(p, m, true, Action::Allowed, log, last);
        }
    }
}

/// The loop does not toggle the legacy gate: a tick that follows another with
/// no ticks missed, with the same configuration and the same battery reading,
/// leaves the charge gate alone.
pub proof fn the_next_legacy_tick_sails(
    p: Probe,
    m: Memory,
    config: Config,
    log: Seq<Exchange>,
    at: int,
)
    requires
        p.mode == ChargeControlMode::Legacy,
        config.lower <= config.upper,
        recall::gate_free(p, m),
        memory::keeps(m, log, at, memory::gate_codes()),
        ({
            let tick = control::tick_run(p, config, false, log, at);
            let then = run::past(at, tick);
            let next = control::tick_run(p, config, false, log, then);
            let first = run::battery_run(p, log, run::past(at, run::allowed_run(p, log, at)));
            let second = run::battery_run(p, log, run::past(then, run::allowed_run(p, log, then)));
            &&& tick.value is Ok
            &&& next.value is Ok
            &&& memory::stands(log, at, tick.sent)
            &&& memory::stands(log, then, next.sent)
            &&& first.value == second.value
        }),
    ensures
        control::tick_run(
            p,
            config,
            false,
            log,
            run::past(at, control::tick_run(p, config, false, log, at)),
        ).value == Ok::<Action, Fault>(Action::Sailing),
{
    reveal(control::tick_run);
    lemma_legacy_tick(p, m, config, false, log, at);
    let tick = control::legacy_tick_run(p, config, false, log, at);
    lemma_legacy_tick(
        p,
        gate_memory(p, m, tick.value->Ok_0),
        config,
        false,
        log,
        run::past(at, tick),
    );
}

/// What the SMC holds after an action on the firmware limit.
pub open spec fn limit_memory(p: Probe, m: Memory, action: Action) -> Memory {
    match action {
        Action::FirmwareSet { lower, upper } => recall::limit_told(p, m, lower, upper),
        Action::FirmwareCleared => recall::told(p, m, KEY_BFF0@, seq![FIRMWARE_OFF]),
        _ => m,
    }
}

/// The limit is what the configuration asks of the firmware.
pub open spec fn limit_agrees(limit: FirmwareLimit, config: Config) -> bool {
    if config.upper >= MAX_UPPER {
        !limit.active
    } else {
        limit == (FirmwareLimit { active: true, lower: config.lower, upper: config.upper })
    }
}

/// What a tick in firmware mode gives.
pub open spec fn firmware_tick_in(p: Probe, m: Memory, config: Config) -> Result<Action, Fault> {
    match recall::limit_in(p, m) {
        Err(e) => Err(e),
        Ok(limit) => if limit_agrees(limit, config) {
            Ok(Action::Sailing)
        } else if config.upper >= MAX_UPPER {
            match recall::clear_limit_in(p, m) {
                Err(e) => Err(e),
                Ok(_) => Ok(Action::FirmwareCleared),
            }
        } else {
            match recall::set_limit_in(p, m, config.lower, config.upper) {
                Err(e) => Err(e),
                Ok(_) => Ok(Action::FirmwareSet { lower: config.lower, upper: config.upper }),
            }
        },
    }
}

proof fn lemma_firmware_tick(p: Probe, m: Memory, config: Config, log: Seq<Exchange>, at: int)
    requires
        p.mode == ChargeControlMode::Firmware,
        recall::limit_free(m),
        memory::keeps(m, log, at, memory::firmware_codes()),
        memory::stands(log, at, control::firmware_tick_run(p, config, log, at).sent),
    ensures
        ({
            let tick = control::firmware_tick_run(p, config, log, at);
            let now = limit_memory(p, m, tick.value->Ok_0);
            &&& tick.value == firmware_tick_in(p, m, config)
            &&& tick.value is Ok ==> {
                &&& recall::limit_free(now)
                &&& memory::keeps(now, log, run::past(at, tick), memory::firmware_codes())
                &&& recall::limit_in(p, now) matches Ok(limit) && limit_agrees(limit, config)
            }
        }),
{
    reveal(control::firmware_tick_run);
    let codes = memory::firmware_codes();
    let read = run::firmware_limit_run(p, log, at);
    let then = run::past(at, read);
    let current = read.value->Ok_0;
    let clear = run::clear_firmware_limit_run(p, log, then);
    let set = run::set_firmware_limit_run(p, config.lower, config.upper, log, then);
    let cleared = run::done(Action::FirmwareCleared);
    let written = run::done(Action::FirmwareSet { lower: config.lower, upper: config.upper });
    let rest = if config.upper >= MAX_UPPER {
        if current.active {
            run::chain(clear, cleared)
        } else {
            run::done(Action::Sailing)
        }
    } else if current == (FirmwareLimit {
        active: true,
        lower: config.lower,
        upper: config.upper,
    }) {
        run::done(Action::Sailing)
    } else {
        run::chain(set, written)
    };
    memory::lemma_stands(log, at, read, rest);
    recall::lemma_limit_in(p, m, codes, log, at);
    if read.value is Ok && !limit_agrees(current, config) {
        if config.upper >= MAX_UPPER {
            memory::lemma_stands(log, then, clear, cleared);
            recall::lemma_clear_limit_in(p, m, codes, log, then);
            if clear.value is Ok {
                recall::lemma_limit_off(p, m);
            }
        } else {
            memory::lemma_stands(log, then, set, written);
            recall::lemma_set_limit_in(p, m, codes, config.lower, config.upper, log, then);
            if set.value is Ok {
                recall::lemma_limit_told(p, m, config.lower, config.upper);
            }
        }
    }
}

/// The firmware holds the band after a tick, and the loop writes it once: the
/// next tick with the same configuration leaves it alone.
pub proof fn the_firmware_band_is_written_once(
    p: Probe,
    m: Memory,
    config: Config,
    missed: bool,
    missed_next: bool,
    log: Seq<Exchange>,
    at: int,
)
    requires
        p.mode == ChargeControlMode::Firmware,
        recall::limit_free(m),
        memory::keeps(m, log, at, memory::firmware_codes()),
        ({
            let tick = control::tick_run(p, config, missed, log, at);
            let then = run::past(at, tick);
            let next = control::tick_run(p, config, missed_next, log, then);
            &&& tick.value is Ok
            &&& memory::stands(log, at, tick.sent)
            &&& memory::stands(log, then, next.sent)
        }),
    ensures
        ({
            let tick = control::tick_run(p, config, missed, log, at);
            let then = run::past(at, tick);
            let next = control::tick_run(p, config, missed_next, log, then);
            let limit = recall::limit_in(p, limit_memory(p, m, tick.value->Ok_0));
            &&& limit is Ok
            &&& limit_agrees(limit->Ok_0, config)
            &&& next.value == Ok::<Action, Fault>(Action::Sailing)
        }),
{
    reveal(control::tick_run);
    lemma_firmware_tick(p, m, config, log, at);
    let tick = control::firmware_tick_run(p, config, log, at);
    lemma_firmware_tick(
        p,
        limit_memory(p, m, tick.value->Ok_0),
        config,
        log,
        run::past(at, tick),
    );
}

/// A tick in firmware mode succeeds where the keys of the limit have the sizes
/// that it is written with, whatever band the configuration has.
pub proof fn a_firmware_tick_succeeds(
    p: Probe,
    m: Memory,
    config: Config,
    missed: bool,
    log: Seq<Exchange>,
    at: int,
)
    requires
        p.mode == ChargeControlMode::Firmware,
        config.upper >= MAX_UPPER || config.lower < config.upper,
        memory::firmware_settable(p, m),
        memory::keeps(m, log, at, memory::firmware_codes()),
        memory::stands(log, at, control::tick_run(p, config, missed, log, at).sent),
    ensures
        control::tick_run(p, config, missed, log, at).value is Ok,
{
    reveal(control::tick_run);
    recall::lemma_limit_settable(p, m, config.lower, config.upper);
    lemma_firmware_tick(p, m, config, log, at);
}

/// A tick that sails writes nothing.
pub proof fn sailing_writes_nothing(
    p: Probe,
    config: Config,
    missed: bool,
    log: Seq<Exchange>,
    at: int,
)
    requires
        control::tick_run(p, config, missed, log, at).value == Ok::<Action, Fault>(
            Action::Sailing,
        ),
    ensures
        only_reads(control::tick_run(p, config, missed, log, at).sent),
{
    reveal(control::tick_run);
    reveal(control::legacy_tick_run);
    reveal(control::firmware_tick_run);
    lemma_gate_reads(p, log, at);
    lemma_limit_reads(p, log, at);
    lemma_battery_reads(p, log, run::past(at, run::allowed_run(p, log, at)));
}

proof fn lemma_gate_reads(p: Probe, log: Seq<Exchange>, at: int)
    ensures
        only_reads(run::allowed_run(p, log, at).sent),
{
    reveal(run::allowed_run);
    reveal(run::read_u8_run);
    reveal(run::read_run);
}

proof fn lemma_key_reads(p: Probe, key: Seq<char>, log: Seq<Exchange>, at: int)
    ensures
        only_reads(run::read_u8_run(p, key, log, at).sent),
        only_reads(run::read_u32_le_run(p, key, log, at).sent),
{
    reveal(run::read_u8_run);
    reveal(run::read_u32_le_run);
    reveal(run::read_run);
}

proof fn lemma_limit_reads(p: Probe, log: Seq<Exchange>, at: int)
    ensures
        only_reads(run::firmware_limit_run(p, log, at).sent),
{
    reveal(run::firmware_limit_run);
    let active = run::read_u8_run(p, crate::smc::KEY_BFF0@, log, at);
    let second = run::past(at, active);
    let upper = run::read_u32_le_run(p, crate::smc::KEY_BFD0@, log, second);
    lemma_key_reads(p, crate::smc::KEY_BFF0@, log, at);
    lemma_key_reads(p, crate::smc::KEY_BFD0@, log, second);
    lemma_key_reads(p, crate::smc::KEY_BFE0@, log, run::past(second, upper));
}

/// Sleep and wake are none of the daemon's business in firmware mode, on a Mac
/// without charge control, and with the limit off: nothing is sent.
pub proof fn sleep_and_wake_pass_by(
    p: Probe,
    config: Config,
    event: PowerEvent,
    log: Seq<Exchange>,
    at: int,
)
    requires
        p.mode != ChargeControlMode::Legacy || config.upper >= MAX_UPPER,
    ensures
        control::power_run(p, config, event, log, at) == run::done(Action::Sailing),
{
    reveal(control::power_run);
}

/// A Mac that is about to sleep does not charge past the limit: with a live
/// limit the charge gate is closed afterwards, unless the battery is below `lower`
/// and the configuration leaves the charge gate open there.
pub proof fn the_gate_is_closed_for_sleep(
    p: Probe,
    m: Memory,
    config: Config,
    log: Seq<Exchange>,
    at: int,
)
    requires
        p.mode == ChargeControlMode::Legacy,
        config.upper < MAX_UPPER,
        recall::gate_free(p, m),
        memory::keeps(m, log, at, memory::gate_codes()),
        ({
            let sleep = control::power_run(p, config, PowerEvent::WillSleep, log, at);
            let then = run::past(at, sleep);
            &&& sleep.value is Ok
            &&& memory::stands(log, at, sleep.sent)
            &&& memory::stands(log, then, run::allowed_run(p, log, then).sent)
        }),
    ensures
        ({
            let sleep = control::power_run(p, config, PowerEvent::WillSleep, log, at);
            let gate = run::allowed_run(p, log, run::past(at, sleep)).value;
            let battery = run::battery_run(p, log, run::past(at, run::allowed_run(p, log, at)));
            if gate == Ok::<bool, Fault>(false) {
                true
            } else {
                &&& gate == Ok::<bool, Fault>(true)
                &&& battery.value matches Ok(percent) && percent < config.lower
                &&& !config.inhibit_on_sleep_always
            }
        }),
{
    reveal(control::power_run);
    reveal(control::will_sleep_run);
    let codes = memory::gate_codes();
    let sleep = control::will_sleep_run(p, config, log, at);
    let read = run::allowed_run(p, log, at);
    let second = run::past(at, read);
    let battery = run::battery_run(p, log, second);
    let third = run::past(second, battery);
    let tail = if battery.value->Ok_0 < config.lower && !config.inhibit_on_sleep_always {
        run::done(Action::Sailing)
    } else {
        control::move_gate_run(p, false, Action::InhibitedForSleep, log, third)
    };
    let rest = if !read.value->Ok_0 {
        run::done(Action::Sailing)
    } else {
        run::chain(battery, tail)
    };
    memory::lemma_stands(log, at, read, rest);
    recall::lemma_gate_in(p, m, memory::gate_codes(), log, at);
    if read.value->Ok_0 {
        memory::lemma_stands(log, second, battery, tail);
        lemma_battery_reads(p, log, second);
        lemma_reads_keep(m, log, second, codes, battery.sent);
        if battery.value->Ok_0 < config.lower && !config.inhibit_on_sleep_always {
            recall::lemma_gate_in(p, m, memory::gate_codes(), log, third);
        } else {
            lemma_move_gate(p, m, false, Action::InhibitedForSleep, log, third);
            recall::lemma_gate_in(
                p,
                recall::gate_told(p, m, false),
                codes,
                log,
                run::past(at, sleep),
            );
        }
    } else {
        recall::lemma_gate_in(p, m, memory::gate_codes(), log, run::past(at, sleep));
    }
}

} // verus!
