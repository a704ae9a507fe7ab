use chargecap::daemon::config::Config;
use chargecap::daemon::control::{
    Action, ControlLoop, PowerEvent, LOOP_INTERVAL, MISSED_TICK_AFTER,
};
use chargecap::smc::error::SmcError;
use chargecap::smc::mock::MockDriver;
use chargecap::smc::{
    Smc, KEY_ACW, KEY_BFD0, KEY_BFE0, KEY_BFF0, KEY_BUIC, KEY_CH0B, KEY_CH0C,
};

/// One second, in nanoseconds.
const SECOND: u64 = 1_000_000_000;

/// Some time well after the clock started.
const NOW: u64 = 100_000 * SECOND;

/// A legacy Mac at `percent`, plugged in, with the charge gate open or closed.
fn legacy_mock(percent: u8, allowed: bool) -> MockDriver {
    let gate = if allowed { 0x00 } else { 0x02 };
    let mut mock = MockDriver::new();
    mock.seed(KEY_CH0B, &[gate])
        .seed(KEY_CH0C, &[gate])
        .seed(KEY_BUIC, &[percent])
        .seed(KEY_ACW, &[0x01]);
    mock
}

/// A firmware Mac with the limit off.
fn firmware_mock() -> MockDriver {
    let mut mock = MockDriver::new();
    mock.seed(KEY_BFF0, &[0x00])
        .seed(KEY_BFD0, &[0, 0, 0, 0])
        .seed(KEY_BFE0, &[0, 0, 0, 0])
        .seed(KEY_BUIC, &[80])
        .seed(KEY_ACW, &[0x01]);
    mock
}

fn band(upper: u8, lower: u8) -> Config {
    Config {
        upper,
        lower,
        ..Config::default()
    }
}

/// Runs one tick with fresh timing and returns the action.
fn tick(loop_: &mut ControlLoop, smc: &mut Smc<MockDriver>, config: &Config) -> Action {
    loop_.tick(smc, config, NOW).unwrap()
}

/// Delivers one power event with fresh timing and returns the action.
fn power(
    loop_: &mut ControlLoop,
    smc: &mut Smc<MockDriver>,
    config: &Config,
    event: PowerEvent,
) -> Action {
    loop_.on_power_event(smc, config, event, NOW).unwrap()
}

#[test]
fn legacy_holds_the_band() {
    let config = band(80, 78);

    // 79%, gate open: inside the band, so leave the charge gate alone.
    let mut smc = Smc::new(legacy_mock(79, true));
    assert_eq!(
        tick(&mut ControlLoop::new(), &mut smc, &config),
        Action::Sailing
    );
    assert!(smc.driver().writes().is_empty());

    // 80%, gate open: at the limit, so close the charge gate.
    let mut smc = Smc::new(legacy_mock(80, true));
    assert_eq!(
        tick(&mut ControlLoop::new(), &mut smc, &config),
        Action::Inhibited
    );
    assert_eq!(
        smc.driver().writes(),
        vec![
            (KEY_CH0B.to_string(), vec![0x02]),
            (KEY_CH0C.to_string(), vec![0x02]),
        ]
    );

    // 77%, gate closed: below the band, so open the charge gate.
    let mut smc = Smc::new(legacy_mock(77, false));
    assert_eq!(
        tick(&mut ControlLoop::new(), &mut smc, &config),
        Action::Allowed
    );
    assert_eq!(
        smc.driver().writes(),
        vec![
            (KEY_CH0B.to_string(), vec![0x00]),
            (KEY_CH0C.to_string(), vec![0x00]),
        ]
    );

    // 79%, gate closed: inside the band, so leave the charge gate alone.
    let mut smc = Smc::new(legacy_mock(79, false));
    assert_eq!(
        tick(&mut ControlLoop::new(), &mut smc, &config),
        Action::Sailing
    );
    assert!(smc.driver().writes().is_empty());
}

#[test]
fn legacy_upper_100_opens_the_gate_once() {
    let config = band(100, 100);
    let mut smc = Smc::new(legacy_mock(60, false));
    let mut control = ControlLoop::new();

    assert_eq!(tick(&mut control, &mut smc, &config), Action::Allowed);
    assert_eq!(smc.driver().writes().len(), 2);

    smc.driver_mut().clear_writes();
    assert_eq!(tick(&mut control, &mut smc, &config), Action::Sailing);
    assert!(smc.driver().writes().is_empty());
}

#[test]
fn firmware_writes_the_band_once() {
    let config = band(80, 78);
    let mut smc = Smc::new(firmware_mock());
    let mut control = ControlLoop::new();

    assert_eq!(
        tick(&mut control, &mut smc, &config),
        Action::FirmwareSet {
            lower: 78,
            upper: 80
        }
    );
    assert_eq!(
        smc.driver().writes(),
        vec![
            (KEY_BFD0.to_string(), vec![80, 0, 0, 0]),
            (KEY_BFE0.to_string(), vec![78, 0, 0, 0]),
            (KEY_BFF0.to_string(), vec![0x02]),
        ]
    );

    // The limit already matches, so the loop must not poll-toggle it.
    smc.driver_mut().clear_writes();
    assert_eq!(tick(&mut control, &mut smc, &config), Action::Sailing);
    assert!(smc.driver().writes().is_empty());

    // A limit of 100 clears the firmware band.
    smc.driver_mut().clear_writes();
    let off = band(100, 100);
    assert_eq!(tick(&mut control, &mut smc, &off), Action::FirmwareCleared);
    assert_eq!(smc.driver().writes(), vec![(KEY_BFF0.to_string(), vec![0x00])]);

    smc.driver_mut().clear_writes();
    assert_eq!(tick(&mut control, &mut smc, &off), Action::Sailing);
    assert!(smc.driver().writes().is_empty());
}

#[test]
fn missed_ticks_close_the_gate_first() {
    let config = band(80, 78);
    let mut smc = Smc::new(legacy_mock(60, true));

    let now = NOW;
    let stale = now
        .checked_sub(120 * SECOND)
        .expect("test host booted more than 120 s ago");
    let mut control = ControlLoop::with_last_tick(stale);

    assert_eq!(
        control.tick(&mut smc, &config, now).unwrap(),
        Action::InhibitedAfterMissedTicks
    );
    assert_eq!(
        smc.driver().writes(),
        vec![
            (KEY_CH0B.to_string(), vec![0x02]),
            (KEY_CH0C.to_string(), vec![0x02]),
        ]
    );

    // The next tick has fresh timing, so the band applies again.
    smc.driver_mut().clear_writes();
    assert_eq!(tick(&mut control, &mut smc, &config), Action::Allowed);
    assert_eq!(
        smc.driver().writes(),
        vec![
            (KEY_CH0B.to_string(), vec![0x00]),
            (KEY_CH0C.to_string(), vec![0x00]),
        ]
    );
}

#[test]
fn unsupported_mac_does_nothing() {
    let mut mock = MockDriver::new();
    mock.seed(KEY_BUIC, &[50]);
    let mut smc = Smc::new(mock);
    assert_eq!(
        tick(&mut ControlLoop::new(), &mut smc, &band(80, 78)),
        Action::Unsupported
    );
    assert!(smc.driver().writes().is_empty());
}

#[test]
fn smc_errors_reach_the_caller() {
    // A legacy Mac with no battery key: the read fails, the tick returns
    // the error, and the daemon keeps running.
    let mut mock = MockDriver::new();
    mock.seed(KEY_CH0B, &[0x00]).seed(KEY_CH0C, &[0x00]);
    let mut smc = Smc::new(mock);
    let result = ControlLoop::new().tick(&mut smc, &band(80, 78), NOW);
    assert!(matches!(result, Err(SmcError::KeyNotFound(_))));
}

/// At 79% inside a live band, sleep closes the charge gate.
#[test]
fn will_sleep_closes_the_gate_inside_the_band() {
    let config = band(80, 78);
    let mut smc = Smc::new(legacy_mock(79, true));
    let mut control = ControlLoop::new();

    assert_eq!(
        power(&mut control, &mut smc, &config, PowerEvent::WillSleep),
        Action::InhibitedForSleep
    );
    assert_eq!(
        smc.driver().writes(),
        vec![
            (KEY_CH0B.to_string(), vec![0x02]),
            (KEY_CH0C.to_string(), vec![0x02]),
        ]
    );
    assert!(control.resume_after_wake());
}

/// Below `lower` the default config leaves the charge gate open.
#[test]
fn will_sleep_leaves_the_gate_open_below_lower() {
    let config = band(80, 78);
    let mut smc = Smc::new(legacy_mock(60, true));
    let mut control = ControlLoop::new();

    assert_eq!(
        power(&mut control, &mut smc, &config, PowerEvent::WillSleep),
        Action::Sailing
    );
    assert!(smc.driver().writes().is_empty());
    assert!(!control.resume_after_wake());
}

/// `inhibit_on_sleep_always` closes the charge gate below `lower` too.
#[test]
fn will_sleep_always_closes_the_gate_when_configured() {
    let config = Config {
        inhibit_on_sleep_always: true,
        ..band(80, 78)
    };
    let mut smc = Smc::new(legacy_mock(60, true));
    let mut control = ControlLoop::new();

    assert_eq!(
        power(&mut control, &mut smc, &config, PowerEvent::WillSleep),
        Action::InhibitedForSleep
    );
    assert_eq!(
        smc.driver().writes(),
        vec![
            (KEY_CH0B.to_string(), vec![0x02]),
            (KEY_CH0C.to_string(), vec![0x02]),
        ]
    );
    assert!(control.resume_after_wake());
}

/// Wake re-checks the band at once, whatever the tick clock says.
#[test]
fn did_wake_re_checks_the_band_at_once() {
    let config = band(80, 78);

    // Still inside the band, so the charge gate stays closed.
    let mut smc = Smc::new(legacy_mock(79, true));
    let mut control = ControlLoop::new();
    power(&mut control, &mut smc, &config, PowerEvent::WillSleep);
    smc.driver_mut().clear_writes();
    smc.driver_mut().seed(KEY_BUIC, &[79]);
    assert_eq!(
        power(&mut control, &mut smc, &config, PowerEvent::DidWake),
        Action::Sailing
    );
    assert!(smc.driver().writes().is_empty());
    assert!(!control.resume_after_wake());

    // Below `lower` after the sleep, so the charge gate opens on wake.
    let mut smc = Smc::new(legacy_mock(79, true));
    let mut control = ControlLoop::new();
    power(&mut control, &mut smc, &config, PowerEvent::WillSleep);
    smc.driver_mut().clear_writes();
    smc.driver_mut().seed(KEY_BUIC, &[70]);
    assert_eq!(
        power(&mut control, &mut smc, &config, PowerEvent::DidWake),
        Action::Allowed
    );
    assert_eq!(
        smc.driver().writes(),
        vec![
            (KEY_CH0B.to_string(), vec![0x00]),
            (KEY_CH0C.to_string(), vec![0x00]),
        ]
    );
    assert!(!control.resume_after_wake());
}

/// The wake tick ignores the missed-tick guard, so it never closes a gate the
/// sleep hook already handled.
#[test]
fn did_wake_ignores_the_missed_tick_guard() {
    let config = band(80, 78);
    let mut smc = Smc::new(legacy_mock(60, false));

    let now = NOW;
    let stale = now
        .checked_sub(3600 * SECOND)
        .expect("test host booted more than an hour ago");
    let mut control = ControlLoop::with_last_tick(stale);

    // A plain tick would close the charge gate first. The wake tick trusts the
    // fresh reading and opens it.
    assert_eq!(
        control
            .on_power_event(&mut smc, &config, PowerEvent::DidWake, now)
            .unwrap(),
        Action::Allowed
    );
    assert_eq!(
        smc.driver().writes(),
        vec![
            (KEY_CH0B.to_string(), vec![0x00]),
            (KEY_CH0C.to_string(), vec![0x00]),
        ]
    );
}

/// Firmware Macs hold the band in hardware, so both events pass.
#[test]
fn firmware_mode_ignores_sleep_and_wake() {
    let config = band(80, 78);
    let mut smc = Smc::new(firmware_mock());
    let mut control = ControlLoop::new();

    for event in [PowerEvent::WillSleep, PowerEvent::DidWake] {
        assert_eq!(
            power(&mut control, &mut smc, &config, event),
            Action::Sailing
        );
        assert!(smc.driver().writes().is_empty(), "{event:?} wrote to the SMC");
    }
}

/// With the limit off there is nothing to protect.
#[test]
fn upper_100_ignores_sleep_and_wake() {
    let config = band(100, 100);
    let mut smc = Smc::new(legacy_mock(95, false));
    let mut control = ControlLoop::new();

    for event in [PowerEvent::WillSleep, PowerEvent::DidWake] {
        assert_eq!(
            power(&mut control, &mut smc, &config, event),
            Action::Sailing
        );
        assert!(smc.driver().writes().is_empty(), "{event:?} wrote to the SMC");
    }
}

/// An SMC failure during a power event reaches the caller, which logs it.
#[test]
fn power_event_errors_reach_the_caller() {
    let mut mock = MockDriver::new();
    mock.seed(KEY_CH0B, &[0x00]).seed(KEY_CH0C, &[0x00]);
    let mut smc = Smc::new(mock);
    let result = ControlLoop::new().on_power_event(
        &mut smc,
        &band(80, 78),
        PowerEvent::WillSleep,
        NOW,
    );
    assert!(matches!(result, Err(SmcError::KeyNotFound(_))));
}

// --- more of the loop ------------------------------------------------------

#[test]
fn the_loop_ticks_every_ten_seconds() {
    assert_eq!(LOOP_INTERVAL, 10 * SECOND);
    assert_eq!(MISSED_TICK_AFTER, 90 * SECOND);
}

#[test]
fn a_gap_of_the_guard_itself_is_no_missed_tick() {
    let config = band(80, 78);
    let mut smc = Smc::new(legacy_mock(79, true));
    let mut control = ControlLoop::with_last_tick(NOW - MISSED_TICK_AFTER);
    assert_eq!(control.tick(&mut smc, &config, NOW).unwrap(), Action::Sailing);

    let mut smc = Smc::new(legacy_mock(79, true));
    let mut control = ControlLoop::with_last_tick(NOW - MISSED_TICK_AFTER - 1);
    assert_eq!(
        control.tick(&mut smc, &config, NOW).unwrap(),
        Action::InhibitedAfterMissedTicks
    );
}

#[test]
fn the_tick_after_one_that_moved_the_gate_sails() {
    let config = band(80, 78);
    let mut smc = Smc::new(legacy_mock(85, true));
    let mut control = ControlLoop::new();
    assert_eq!(tick(&mut control, &mut smc, &config), Action::Inhibited);
    assert_eq!(tick(&mut control, &mut smc, &config), Action::Sailing);
    smc.driver_mut().seed(KEY_BUIC, &[77]);
    assert_eq!(tick(&mut control, &mut smc, &config), Action::Allowed);
    assert_eq!(tick(&mut control, &mut smc, &config), Action::Sailing);
    assert_eq!(smc.driver().writes().len(), 4);
}

#[test]
fn sleep_leaves_a_closed_gate_as_it_is() {
    let config = band(80, 78);
    let mut smc = Smc::new(legacy_mock(79, false));
    let mut control = ControlLoop::new();
    assert_eq!(
        power(&mut control, &mut smc, &config, PowerEvent::WillSleep),
        Action::Sailing
    );
    assert!(smc.driver().writes().is_empty());
}

#[test]
fn actions_have_names() {
    assert_eq!(Action::Sailing.name(), "Sailing");
    assert_eq!(
        Action::FirmwareSet { lower: 78, upper: 80 }.name(),
        "FirmwareSet { lower: 78, upper: 80 }"
    );
    for action in [
        Action::Inhibited,
        Action::Allowed,
        Action::InhibitedAfterMissedTicks,
        Action::FirmwareCleared,
        Action::Unsupported,
        Action::InhibitedForSleep,
    ] {
        assert_eq!(action.name(), format!("{action:?}"));
    }
}
