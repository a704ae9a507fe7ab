use chargecap::daemon::calendar::civil_from_days;
use chargecap::daemon::config::Config;
use chargecap::daemon::control::{Action, PowerEvent};
use chargecap::daemon::install::{
    bootstrap_failed, bootstrap_succeeded, install, plist, require_root, uninstall, Retry, Step,
    Verdict, INSTALL_BIN_PATH,
};
use chargecap::daemon::logging::{self, same_file, sinks, timestamp, FileId, Sinks};
use chargecap::daemon::power::{
    on_message, registered, PowerError, PowerNotice, Reaction, ACK_TIMEOUT,
    K_IO_MESSAGE_CAN_SYSTEM_SLEEP, K_IO_MESSAGE_SYSTEM_HAS_POWERED_ON,
    K_IO_MESSAGE_SYSTEM_WILL_SLEEP,
};
use chargecap::daemon::server::{applied_line, handle, SOCKET_MODE};
use chargecap::daemon::startup::{initial_config, may_run, starting_line, waiting};
use chargecap::daemon::state::{Daemon, Reset};
use chargecap::daemon::client;
use chargecap::proto::{
    ChargeControlMode, MagsafeLedMode, Request, Response, CONFIG_PATH, DAEMON_LABEL,
    DAEMON_PLIST_PATH, LOG_PATH, MAX_UPPER, VERSION,
};
use chargecap::smc::mock::MockDriver;
use chargecap::smc::{
    Smc, KEY_ACLC, KEY_ACW, KEY_BFD0, KEY_BFE0, KEY_BFF0, KEY_BUIC, KEY_CH0B, KEY_CH0C, KEY_CH0J,
};

/// One second, in nanoseconds.
const SECOND: u64 = 1_000_000_000;

const NOW: u64 = 1_000 * SECOND;

fn legacy_mock(percent: u8) -> MockDriver {
    let mut mock = MockDriver::new();
    mock.seed(KEY_CH0B, &[0x00])
        .seed(KEY_CH0C, &[0x00])
        .seed(KEY_BUIC, &[percent])
        .seed(KEY_ACW, &[0x01]);
    mock
}

fn daemon_with(mock: MockDriver) -> Daemon<MockDriver> {
    Daemon::new(Smc::new(mock), Config::default(), "/tmp/config.json".to_string())
}

fn daemon() -> Daemon<MockDriver> {
    daemon_with(legacy_mock(79))
}

/// Applies a request whose config was saved without trouble.
fn apply(daemon: &mut Daemon<MockDriver>, request: Request) -> Response {
    daemon.apply(request, None, NOW)
}

// --- the state -------------------------------------------------------------

#[test]
fn status_reports_the_live_state() {
    let mut daemon = daemon();
    let status = daemon.status();
    assert_eq!(status.mode, ChargeControlMode::Legacy);
    assert_eq!(status.battery_percent, 79);
    assert!(status.plugged_in);
    assert!(status.charging_allowed);
    assert_eq!(status.upper, 80);
    assert_eq!(status.lower, 78);
    assert_eq!(status.version, VERSION);
    assert_eq!(status.last_error, None);
}

#[test]
fn set_limit_takes_effect_at_once() {
    let mut daemon = daemon();
    let request = Request::SetLimit {
        upper: 79,
        lower: None,
    };
    assert_eq!(daemon.plan(&request).unwrap().upper, 79);
    let response = apply(&mut daemon, request);
    assert!(response.ok);
    let status = response.status.unwrap();
    assert_eq!((status.upper, status.lower), (79, 77));
    // 79% has reached the new limit, so the charge gate closed on this request.
    assert_eq!(
        daemon.smc().driver().writes(),
        vec![
            (KEY_CH0B.to_string(), vec![0x02]),
            (KEY_CH0C.to_string(), vec![0x02]),
        ]
    );
    assert!(!status.charging_allowed);
    assert_eq!(daemon.config().upper, 79);
}

#[test]
fn a_bad_limit_changes_nothing() {
    let mut daemon = daemon();
    let request = Request::SetLimit {
        upper: 49,
        lower: None,
    };
    assert_eq!(daemon.plan(&request), None);
    let response = apply(&mut daemon, request);
    assert!(!response.ok);
    assert_eq!(response.error.as_deref(), Some("upper must be 50..=100"));
    assert_eq!(daemon.config().upper, 80);
    assert!(daemon.smc().driver().writes().is_empty());
}

#[test]
fn contract_commands_are_persisted_and_echoed() {
    let mut daemon = daemon();
    assert!(apply(&mut daemon, Request::SetAdapter { enabled: false }).ok);
    assert!(
        apply(
            &mut daemon,
            Request::SetMagsafeLed {
                mode: MagsafeLedMode::Off
            }
        )
        .ok
    );
    let saved = daemon.plan(&Request::TopUp).unwrap();
    assert!(!saved.adapter_enabled);
    assert!(saved.top_up_active);

    let status = apply(&mut daemon, Request::TopUp).status.unwrap();
    assert!(!status.adapter_enabled);
    assert_eq!(status.magsafe_led, MagsafeLedMode::Off);
    assert!(status.top_up_active);

    let status = apply(&mut daemon, Request::CancelTopUp).status.unwrap();
    assert!(!status.top_up_active);
}

#[test]
fn smc_errors_are_reported_but_never_fatal() {
    // No battery key, so every status read of it fails.
    let mut mock = MockDriver::new();
    mock.seed(KEY_CH0B, &[0x00]).seed(KEY_CH0C, &[0x00]);
    let mut daemon = daemon_with(mock);
    daemon.tick(NOW);
    let status = daemon.status();
    assert_eq!(status.battery_percent, 0);
    assert!(status.last_error.is_some());
    let errors = daemon.take_errors();
    assert_eq!(errors[0], "tick failed: SMC key BUIC not found on this Mac");
    assert!(daemon.take_errors().is_empty());
}

/// Regression: in the default LED mode the daemon wrote `ACLC` on every tick,
/// because a read never shows the `System` that it wrote.
#[test]
fn magsafe_led_system_writes_once_when_the_read_never_matches() {
    let mut mock = legacy_mock(79);
    mock.seed_sticky(KEY_ACLC, &[0x02]);
    let mut daemon = daemon_with(mock);
    daemon.tick(NOW);
    assert_eq!(
        daemon.smc().driver().writes(),
        vec![(KEY_ACLC.to_string(), vec![0x00])]
    );
    daemon.tick(NOW + 10 * SECOND);
    daemon.tick(NOW + 20 * SECOND);
    assert_eq!(daemon.smc().driver().writes().len(), 1);
}

/// Regression: a cancelled top-up left the charge gate open until the next tick.
#[test]
fn cancelling_a_top_up_restores_the_band_at_once() {
    let mut daemon = daemon_with(legacy_mock(95));
    daemon.tick(NOW);
    assert_eq!(daemon.last_action(), Some(Action::Inhibited));
    let status = apply(&mut daemon, Request::TopUp).status.unwrap();
    assert!(status.charging_allowed);
    let status = apply(&mut daemon, Request::CancelTopUp).status.unwrap();
    assert!(!status.charging_allowed);
    assert_eq!((status.upper, status.lower), (80, 78));
}

#[test]
fn a_top_up_ends_at_a_full_battery() {
    let mut daemon = daemon_with(legacy_mock(99));
    apply(&mut daemon, Request::TopUp);
    daemon.tick(NOW);
    assert!(daemon.config().top_up_active);
    assert!(!daemon.unsaved());
    daemon.smc_mut().driver_mut().seed(KEY_BUIC, &[100]);
    daemon.tick(NOW);
    assert!(!daemon.config().top_up_active);
    assert!(daemon.unsaved());
    // The band is back in force on the same tick.
    assert_eq!(daemon.last_action(), Some(Action::Inhibited));
    daemon.saved(None);
    assert!(!daemon.unsaved());
}

#[test]
fn a_discharge_stops_at_the_limit() {
    let mut mock = legacy_mock(95);
    mock.seed(KEY_CH0J, &[0x00]);
    let mut daemon = daemon_with(mock);
    let status = apply(&mut daemon, Request::SetAdapter { enabled: false }).status.unwrap();
    assert!(!status.adapter_enabled);
    assert_eq!(daemon.smc().driver().value(KEY_CH0J), Some(vec![0x01]));
    daemon.smc_mut().driver_mut().seed(KEY_BUIC, &[80]);
    daemon.tick(NOW);
    assert!(daemon.config().adapter_enabled);
    assert!(daemon.unsaved());
    assert_eq!(daemon.smc().driver().value(KEY_CH0J), Some(vec![0x00]));
}

#[test]
fn the_led_reflects_the_gate() {
    let mut mock = legacy_mock(70);
    mock.seed(KEY_ACLC, &[0x00]);
    let mut daemon = daemon_with(mock);
    apply(&mut daemon, Request::SetMagsafeLed { mode: MagsafeLedMode::Reflect });
    daemon.tick(NOW);
    assert_eq!(daemon.smc().driver().value(KEY_ACLC), Some(vec![0x04]));
    daemon.smc_mut().driver_mut().seed(KEY_BUIC, &[80]);
    daemon.tick(NOW);
    assert_eq!(daemon.smc().driver().value(KEY_ACLC), Some(vec![0x03]));
    apply(&mut daemon, Request::SetMagsafeLed { mode: MagsafeLedMode::Off });
    daemon.tick(NOW);
    assert_eq!(daemon.smc().driver().value(KEY_ACLC), Some(vec![0x01]));
}

#[test]
fn a_config_that_cannot_be_saved_is_told() {
    let mut daemon = daemon();
    let response = daemon.apply(
        Request::TopUp,
        Some("No space left on device".to_string()),
        NOW,
    );
    assert!(response.ok);
    assert_eq!(
        daemon.take_errors(),
        vec!["cannot save config to /tmp/config.json: No space left on device"]
    );
    daemon.saved(Some("denied".to_string()));
    assert_eq!(
        daemon.status().last_error.as_deref(),
        Some("cannot save config to /tmp/config.json: denied")
    );
}

#[test]
fn an_action_clears_the_last_error() {
    let mut daemon = daemon_with(legacy_mock(85));
    daemon.saved(Some("denied".to_string()));
    daemon.tick(NOW);
    assert_eq!(daemon.last_action(), Some(Action::Inhibited));
    assert_eq!(daemon.status().last_error, None);
}

#[test]
fn power_events_are_told_in_one_line() {
    let mut daemon = daemon_with(legacy_mock(79));
    assert_eq!(
        daemon.on_power_event(PowerEvent::WillSleep, NOW).as_deref(),
        Some("WillSleep: battery 79%, InhibitedForSleep, inhibited for sleep true")
    );
    assert_eq!(
        daemon.on_power_event(PowerEvent::DidWake, NOW).as_deref(),
        Some("DidWake: battery 79%, Sailing, inhibited for sleep false")
    );
    // During a top-up there is no limit to protect.
    apply(&mut daemon, Request::TopUp);
    assert_eq!(
        daemon.on_power_event(PowerEvent::WillSleep, NOW).as_deref(),
        Some("WillSleep: battery 79%, Sailing, inhibited for sleep false")
    );
    let mut mock = MockDriver::new();
    mock.seed(KEY_CH0B, &[0x00]).seed(KEY_CH0C, &[0x00]);
    let mut daemon = daemon_with(mock);
    assert_eq!(daemon.on_power_event(PowerEvent::WillSleep, NOW), None);
    assert_eq!(
        daemon.take_errors(),
        vec!["WillSleep failed: SMC key BUIC not found on this Mac"]
    );
}

#[test]
fn a_shutdown_hands_everything_back() {
    let mut mock = legacy_mock(95);
    mock.seed(KEY_CH0J, &[0x00]).seed(KEY_ACLC, &[0x01]);
    let mut daemon = daemon_with(mock);
    apply(&mut daemon, Request::SetAdapter { enabled: false });
    daemon.tick(NOW);
    assert_eq!(daemon.smc().driver().value(KEY_CH0B), Some(vec![0x02]));
    let reset = daemon.reset_charge_control();
    assert_eq!(reset, Reset { gate: None, adapter: None, led: None });
    assert_eq!(daemon.smc().driver().value(KEY_CH0B), Some(vec![0x00]));
    assert_eq!(daemon.smc().driver().value(KEY_CH0C), Some(vec![0x00]));
    assert_eq!(daemon.smc().driver().value(KEY_CH0J), Some(vec![0x00]));
    assert_eq!(daemon.smc().driver().value(KEY_ACLC), Some(vec![0x00]));

    let mut mock = MockDriver::new();
    mock.seed(KEY_BUIC, &[50]);
    let reset = daemon_with(mock).reset_charge_control();
    assert_eq!(
        reset.gate.as_deref(),
        Some("cannot reset charge control: charge control mode is Unsupported, this call needs legacy or firmware charge control")
    );
}

#[test]
fn a_firmware_mac_charges_below_its_limit() {
    let mut mock = MockDriver::new();
    mock.seed(KEY_BFF0, &[0x00])
        .seed(KEY_BFD0, &[0, 0, 0, 0])
        .seed(KEY_BFE0, &[0, 0, 0, 0])
        .seed(KEY_BUIC, &[79])
        .seed(KEY_ACW, &[0x01]);
    let mut daemon = daemon_with(mock);
    daemon.tick(NOW);
    assert_eq!(daemon.last_action(), Some(Action::FirmwareSet { lower: 78, upper: 80 }));
    assert!(daemon.status().charging_allowed);
    daemon.smc_mut().driver_mut().seed(KEY_BUIC, &[80]);
    assert!(!daemon.status().charging_allowed);
}

// --- the server ------------------------------------------------------------

#[test]
fn socket_serves_every_contract_request() {
    let mut mock = legacy_mock(79);
    mock.seed(KEY_CH0J, &[0x00]);
    let mut daemon = daemon_with(mock);
    assert_eq!(SOCKET_MODE, 0o666);

    let requests = vec![
        Request::Status,
        Request::SetLimit {
            upper: 85,
            lower: None,
        },
        // Below the fixture's 79% battery, so discharging does not
        // immediately re-enable the adapter once `SetAdapter` runs.
        Request::SetLimit {
            upper: 75,
            lower: Some(70),
        },
        Request::SetAdapter { enabled: false },
        Request::SetMagsafeLed {
            mode: MagsafeLedMode::Reflect,
        },
        Request::TopUp,
        Request::CancelTopUp,
    ];
    for request in requests {
        let response = handle(&mut daemon, Ok(request), None, NOW);
        assert!(response.ok, "expected ok for {request:?}");
        assert!(response.status.is_some());
        assert!(response.error.is_none());
    }

    // An out-of-range limit and unknown JSON must both be refused.
    let bad = Request::SetLimit {
        upper: 49,
        lower: None,
    };
    let refused = handle(&mut daemon, Ok(bad), None, NOW);
    assert!(!refused.ok);
    assert_eq!(refused.error.as_deref(), Some("upper must be 50..=100"));

    let unknown = handle(
        &mut daemon,
        Err("unknown variant `explode`".to_string()),
        None,
        NOW,
    );
    assert!(!unknown.ok);
    assert!(unknown.error.unwrap().starts_with("bad request:"));

    // The last accepted limit is the one that stuck.
    let status = daemon.status();
    assert_eq!((status.upper, status.lower), (75, 70));
    assert_eq!(status.magsafe_led, MagsafeLedMode::Reflect);
    assert!(!status.adapter_enabled);
    assert!(!status.top_up_active);
}

#[test]
fn accepted_requests_are_logged() {
    let cases = vec![
        (Request::Status, None),
        (Request::SetLimit { upper: 83, lower: None }, Some("limit set to 83/81")),
        (Request::SetLimit { upper: 49, lower: None }, None),
        (Request::SetAdapter { enabled: true }, Some("adapter enabled: true")),
        (
            Request::SetMagsafeLed { mode: MagsafeLedMode::Reflect },
            Some("MagSafe LED: Reflect"),
        ),
        (Request::TopUp, Some("top-up requested")),
        (Request::CancelTopUp, Some("top-up cancelled")),
    ];
    for (request, line) in cases {
        assert_eq!(applied_line(&request).as_deref(), line);
    }
}

// --- the client commands ---------------------------------------------------

#[test]
fn a_command_prints_the_status_or_fails() {
    let mut daemon = daemon();
    let status = daemon.status();
    assert_eq!(
        client::run(Response::ok(status.clone()), false),
        Ok(Some(status.clone()))
    );
    assert_eq!(client::run(Response::ok(status), true), Ok(None));
    assert_eq!(
        client::run(Response::err("no".to_string()), false),
        Err("no".to_string())
    );
    assert_eq!(
        client::run(Response::err("no".to_string()), true),
        Err("no".to_string())
    );
    let silent = Response { ok: false, status: None, error: None };
    assert_eq!(client::run(silent, true), Err("request failed".to_string()));
    let silent = Response { ok: true, status: None, error: None };
    assert_eq!(
        client::run(silent, false),
        Err("the daemon sent a reply with no status and no error".to_string())
    );
}

// --- install ---------------------------------------------------------------

#[test]
fn plist_carries_every_required_key() {
    let text = plist(INSTALL_BIN_PATH);
    for needle in [
        DAEMON_LABEL,
        INSTALL_BIN_PATH,
        LOG_PATH,
        "<key>RunAtLoad</key>",
        "<key>KeepAlive</key>",
        "<string>Interactive</string>",
        "<string>daemon</string>",
    ] {
        assert!(text.contains(needle), "plist is missing {needle}");
    }
}

/// Tries on a clock that only pauses move.
fn retry_until(
    timeout: u64,
    poll: u64,
    mut attempt: impl FnMut() -> Result<(), String>,
) -> Result<(), String> {
    let mut now = NOW;
    let mut retry = Retry::new(now, timeout, poll);
    loop {
        match retry.tried(attempt(), now) {
            Verdict::Done => return Ok(()),
            Verdict::Again(pause) => now += pause,
            Verdict::GiveUp(message) => return Err(message),
        }
    }
}

/// Regression: `launchctl bootout` returns before launchd has finished
/// unloading, so the bootstrap that follows failed with
/// "Bootstrap failed: 5: Input/output error" and left no daemon.
#[test]
fn retry_until_rides_out_a_few_failures() {
    let mut calls = 0;
    let result = retry_until(5 * SECOND, SECOND / 1000, || {
        calls += 1;
        if calls < 3 {
            Err("Bootstrap failed: 5: Input/output error".to_string())
        } else {
            Ok(())
        }
    });
    assert_eq!(result, Ok(()));
    assert_eq!(calls, 3);
}

#[test]
fn retry_until_runs_once_and_reports_the_last_failure() {
    let mut calls = 0;
    let result = retry_until(30 * SECOND / 1000, 10 * SECOND / 1000, || {
        calls += 1;
        Err(format!("try {calls} failed"))
    });
    assert_eq!(result, Err(format!("try {calls} failed")));
    assert!(calls >= 1, "the attempt must run at least once");

    // A timeout below the poll interval still runs the attempt once.
    let mut once = 0;
    let result = retry_until(0, 60 * SECOND, || {
        once += 1;
        Err("no".to_string())
    });
    assert_eq!(result, Err("no".to_string()));
    assert_eq!(once, 1);
}

#[test]
fn tries_are_counted() {
    let mut retry = Retry::new(0, 10, 4);
    assert_eq!(retry.tried(Err("a".to_string()), 0), Verdict::Again(4));
    assert_eq!(retry.tried(Err("b".to_string()), 4), Verdict::Again(4));
    assert_eq!(retry.tried(Err("c".to_string()), 8), Verdict::GiveUp("c".to_string()));
    assert_eq!(retry.tries(), 3);
    assert_eq!(
        bootstrap_failed(3, "c"),
        "launchctl bootstrap failed after 3 tries: c"
    );
    assert_eq!(bootstrap_succeeded(1), None);
    assert_eq!(
        bootstrap_succeeded(3).as_deref(),
        Some("launchctl bootstrap succeeded on try 3")
    );
}

#[test]
fn install_and_uninstall_need_root() {
    let message = require_root("install", false).unwrap_err();
    assert!(message.contains("needs root"));
    assert!(install(false).is_err());
    assert!(uninstall(false, "/nonexistent.sock", false).is_err());
    assert_eq!(require_root("install", true), Ok(()));
}

#[test]
fn an_install_drops_the_old_daemon_before_the_new_one() {
    let target = format!("system/{DAEMON_LABEL}");
    let steps = install(true).unwrap();
    assert_eq!(steps.len(), 5);
    assert_eq!(steps[0], Step::CopyBinary(INSTALL_BIN_PATH.to_string()));
    assert_eq!(
        steps[1],
        Step::WritePlist {
            path: DAEMON_PLIST_PATH.to_string(),
            text: plist(INSTALL_BIN_PATH)
        }
    );
    assert_eq!(steps[2], Step::CreateDirOf(LOG_PATH.to_string()));
    assert_eq!(steps[3], Step::BootOut(target));
    assert_eq!(steps[4], Step::Bootstrap(DAEMON_PLIST_PATH.to_string()));
}

#[test]
fn an_uninstall_turns_the_limit_off_first() {
    let target = format!("system/{DAEMON_LABEL}");
    let steps = uninstall(true, "/x.sock", true).unwrap();
    assert_eq!(
        steps[0],
        Step::Ask(Request::SetLimit {
            upper: MAX_UPPER,
            lower: None
        })
    );
    assert_eq!(steps[1], Step::BootOut(target));
    assert_eq!(steps[2], Step::ResetSmc);
    assert_eq!(steps[5], Step::Remove("/x.sock".to_string()));
    assert_eq!(steps[6], Step::Keep(CONFIG_PATH.to_string()));
    assert_eq!(uninstall(true, "/x.sock", false).unwrap().len(), 6);
}

// --- logging ---------------------------------------------------------------

#[test]
fn timestamps_match_the_log_format() {
    assert_eq!(timestamp(0), "1970-01-01T00:00:00Z");
    assert_eq!(timestamp(1_757_473_445), "2025-09-10T03:04:05Z");
    // 2024-02-29: a leap day.
    assert_eq!(timestamp(1_709_208_000), "2024-02-29T12:00:00Z");
    assert_eq!(timestamp(1_789_009_200), "2026-09-10T03:00:00Z");
}

#[test]
fn dates_follow_the_calendar() {
    assert_eq!(civil_from_days(0), (1970, 1, 1));
    assert_eq!(civil_from_days(11_016), (2000, 2, 29));
    assert_eq!(civil_from_days(11_017), (2000, 3, 1));
    assert_eq!(civil_from_days(-1), (1969, 12, 31));
    assert_eq!(timestamp(logging::LAST_SECOND), "292277026596-12-04T15:30:07Z");
}

#[test]
fn lines_carry_the_time_and_the_level() {
    assert_eq!(logging::info("started", 0), "[1970-01-01T00:00:00Z] INFO started");
    assert_eq!(logging::warn("hm", 0), "[1970-01-01T00:00:00Z] WARN hm");
    assert_eq!(logging::error("no", 0), "[1970-01-01T00:00:00Z] ERROR no");
}

/// Regression: launchd points standard error at the log, so every line was
/// there twice.
#[test]
fn same_file_spots_a_descriptor_that_points_at_the_log() {
    let log = FileId { device: 1, inode: 42 };
    let terminal = FileId { device: 2, inode: 42 };
    assert!(same_file(Some(log), Some(log)));
    assert!(!same_file(Some(terminal), Some(log)));
    assert!(!same_file(None, Some(log)));
    assert!(!same_file(None, None));
    assert_eq!(sinks(Some(log), Some(log), true), Sinks { stderr: false, file: true });
    assert_eq!(sinks(Some(terminal), Some(log), true), Sinks { stderr: true, file: true });
    assert_eq!(sinks(Some(log), None, false), Sinks { stderr: true, file: false });
}

// --- power -----------------------------------------------------------------

/// The constants must match `IOKit/IOMessage.h`. A wrong value would
/// make the daemon ignore sleep, so pin them here.
#[test]
fn message_types_match_iokit() {
    assert_eq!(K_IO_MESSAGE_CAN_SYSTEM_SLEEP, 0xe0000270);
    assert_eq!(K_IO_MESSAGE_SYSTEM_WILL_SLEEP, 0xe0000280);
    assert_eq!(K_IO_MESSAGE_SYSTEM_HAS_POWERED_ON, 0xe0000300);
}

/// The callback waits at most 5 s, so sleep is never blocked for long.
#[test]
fn the_ack_timeout_is_five_seconds() {
    assert_eq!(ACK_TIMEOUT, 5 * SECOND);
}

#[test]
fn messages_lead_to_notices() {
    assert_eq!(
        on_message(K_IO_MESSAGE_CAN_SYSTEM_SLEEP),
        Reaction { notice: None, allow: true }
    );
    assert_eq!(
        on_message(K_IO_MESSAGE_SYSTEM_WILL_SLEEP),
        Reaction {
            notice: Some(PowerNotice { event: PowerEvent::WillSleep, awaited: true }),
            allow: true
        }
    );
    assert_eq!(
        on_message(K_IO_MESSAGE_SYSTEM_HAS_POWERED_ON),
        Reaction {
            notice: Some(PowerNotice { event: PowerEvent::DidWake, awaited: false }),
            allow: false
        }
    );
    assert_eq!(on_message(0), Reaction { notice: None, allow: false });
}

#[test]
fn registration_needs_both_ports() {
    assert_eq!(registered(7, true), Ok(()));
    assert_eq!(registered(0, true), Err(PowerError::Register));
    assert_eq!(registered(7, false), Err(PowerError::Register));
    assert_eq!(PowerError::Register.message(), "IORegisterForSystemPower failed");
    assert_eq!(
        PowerError::Thread("no".to_string()).message(),
        "cannot start the power thread: no"
    );
    assert_eq!(
        PowerError::ThreadGone.message(),
        "the power thread stopped while starting"
    );
}

// --- starting --------------------------------------------------------------

#[test]
fn missing_file_gives_defaults() {
    let (config, message) = initial_config(Ok(None), CONFIG_PATH);
    assert_eq!(config, Config::default());
    assert_eq!(config.upper, 80);
    assert_eq!(config.lower, 78);
    assert_eq!(message, None);
}

#[test]
fn a_file_that_cannot_be_read_gives_defaults_and_a_line() {
    let kept = Config { upper: 90, lower: 85, ..Config::default() };
    assert_eq!(initial_config(Ok(Some(kept)), "/c"), (kept, None));
    let (config, message) = initial_config(Err("denied".to_string()), "/c");
    assert_eq!(config, Config::default());
    assert_eq!(message.as_deref(), Some("cannot read /c: denied; using defaults"));
}

#[test]
fn the_daemon_needs_root_unless_told_otherwise() {
    assert_eq!(may_run(true, false), Ok(()));
    assert_eq!(may_run(false, true), Ok(()));
    assert_eq!(
        may_run(false, false),
        Err("the daemon needs root; run it with sudo or pass --allow-unprivileged".to_string())
    );
    assert_eq!(
        starting_line(ChargeControlMode::Legacy, &Config::default(), true),
        "chargecapd 0.1.0 starting: mode Legacy, band 80/78, root true"
    );
}

#[test]
fn the_wait_ends_with_the_interval_or_a_signal() {
    assert!(waiting(10, 10, 5, false));
    assert!(waiting(10, 14, 5, false));
    assert!(!waiting(10, 15, 5, false));
    assert!(!waiting(10, 11, 5, true));
}
