use chargecap::proto::ChargeControlMode;
use chargecap::smc::driver::{
    call_outcome, check_result, fourcc, fourcc_str, inquiry, open_next, Driver, OpenReply,
    OpenStep, SmcKeyData, CMD_READ_BYTES, K_IO_RETURN_NOT_PRIVILEGED, SMC_KEY_NOT_FOUND,
};
use chargecap::smc::error::SmcError;
use chargecap::smc::mock::MockDriver;
use chargecap::smc::{
    smcctl, FirmwareLimit, MagsafeLed, Smc, ALL_KEYS, KEY_ACLC, KEY_ACW, KEY_BFD0, KEY_BFE0,
    KEY_BFF0, KEY_BUIC, KEY_CH0B, KEY_CH0C, KEY_CH0I, KEY_CH0J, KEY_CHIE, KEY_CHTE,
};

fn reply(result: u8, key: u32) -> SmcKeyData {
    SmcKeyData {
        key,
        result,
        ..SmcKeyData::default()
    }
}

/// Regression: `smcctl read CH0B` on a Mac without the key reported
/// "SMC key  not found on this Mac", with the name missing, because the
/// SMC leaves the key field of a refused reply at zero.
#[test]
fn check_result_names_the_requested_key_when_the_reply_omits_it() {
    let requested = fourcc("CH0B").unwrap();
    let error = check_result(requested, &reply(SMC_KEY_NOT_FOUND, 0)).unwrap_err();
    assert_eq!(error, SmcError::KeyNotFound("CH0B".to_string()));
    assert_eq!(error.message(), "SMC key CH0B not found on this Mac");
}

#[test]
fn check_result_prefers_the_key_the_reply_carries() {
    let requested = fourcc("CH0B").unwrap();
    let echoed = fourcc("CH0C").unwrap();
    let error = check_result(requested, &reply(0x85, echoed)).unwrap_err();
    assert_eq!(
        error,
        SmcError::Smc {
            key: "CH0C".to_string(),
            result: 0x85
        }
    );
}

#[test]
fn check_result_accepts_a_zero_result() {
    assert_eq!(check_result(fourcc("BUIC").unwrap(), &reply(0, 0)), Ok(()));
}

/// `CH0B`/`CH0C` Mac: legacy gate, battery, adapter present.
fn legacy_mock() -> MockDriver {
    let mut mock = MockDriver::new();
    mock.seed(KEY_CH0B, &[0x00])
        .seed(KEY_CH0C, &[0x00])
        .seed(KEY_BUIC, &[78])
        .seed(KEY_ACW, &[0x01]);
    mock
}

/// `bfF0`/`bfD0`/`bfE0` Mac with the limit off.
fn firmware_mock() -> MockDriver {
    let mut mock = MockDriver::new();
    mock.seed(KEY_BFF0, &[0x00])
        .seed(KEY_BFD0, &[0, 0, 0, 0])
        .seed(KEY_BFE0, &[0, 0, 0, 0]);
    mock
}

#[test]
fn key_data_struct_is_80_bytes() {
    assert_eq!(std::mem::size_of::<SmcKeyData>(), 80);
}

#[test]
fn fourcc_round_trips() {
    for key in ALL_KEYS {
        let encoded = fourcc(key).unwrap();
        assert_eq!(fourcc_str(encoded), *key);
    }
    assert_eq!(fourcc(KEY_CH0B).unwrap(), u32::from_be_bytes(*b"CH0B"));
}

#[test]
fn fourcc_rejects_bad_keys() {
    assert!(matches!(fourcc("CH0"), Err(SmcError::InvalidKey(_))));
    assert!(matches!(fourcc("CH0BB"), Err(SmcError::InvalidKey(_))));
}

#[test]
fn fourcc_rejects_keys_that_are_not_ascii() {
    assert_eq!(fourcc("CHé"), Err(SmcError::InvalidKey("CHé".to_string())));
    assert_eq!(fourcc("CH0é"), Err(SmcError::InvalidKey("CH0é".to_string())));
}

#[test]
fn a_code_that_is_no_text_is_still_shown() {
    assert_eq!(fourcc_str(0xff41_4243), "\u{fffd}ABC");
    assert_eq!(fourcc_str(u32::from_be_bytes(*b"ui8 ")), "ui8 ");
}

#[test]
fn legacy_mode_is_detected() {
    let smc = Smc::new(legacy_mock());
    assert_eq!(smc.charge_control_mode(), ChargeControlMode::Legacy);
    assert!(smc.has_key(KEY_CH0B));
    assert!(!smc.has_key(KEY_BFF0));
}

#[test]
fn legacy_inhibit_writes_both_keys_in_order() {
    let mut smc = Smc::new(legacy_mock());
    smc.inhibit_charging().unwrap();
    assert_eq!(
        smc.driver().writes(),
        vec![
            (KEY_CH0B.to_string(), vec![0x02]),
            (KEY_CH0C.to_string(), vec![0x02]),
        ]
    );
    assert!(!smc.is_charging_allowed().unwrap());
}

#[test]
fn legacy_allow_writes_zero_to_both_keys() {
    let mut smc = Smc::new(legacy_mock());
    smc.inhibit_charging().unwrap();
    smc.driver_mut().clear_writes();
    smc.allow_charging().unwrap();
    assert_eq!(
        smc.driver().writes(),
        vec![
            (KEY_CH0B.to_string(), vec![0x00]),
            (KEY_CH0C.to_string(), vec![0x00]),
        ]
    );
    assert!(smc.is_charging_allowed().unwrap());
}

#[test]
fn battery_percent_decodes() {
    let mut smc = Smc::new(legacy_mock());
    assert_eq!(smc.battery_percent().unwrap(), 78);
}

#[test]
fn plugged_in_reads_signed_byte() {
    let mut smc = Smc::new(legacy_mock());
    assert!(smc.is_plugged_in().unwrap());
    smc.driver_mut().seed(KEY_ACW, &[0xFF]);
    assert!(!smc.is_plugged_in().unwrap());
}

#[test]
fn reset_charge_control_opens_the_legacy_gate() {
    let mut smc = Smc::new(legacy_mock());
    smc.inhibit_charging().unwrap();
    smc.driver_mut().clear_writes();
    smc.reset_charge_control().unwrap();
    assert_eq!(smc.driver().writes().len(), 2);
    assert!(smc.is_charging_allowed().unwrap());
}

#[test]
fn chte_only_mac_is_legacy() {
    let mut mock = MockDriver::new();
    mock.seed(KEY_CHTE, &[0x00, 0x00, 0x00, 0x00]);
    let mut smc = Smc::new(mock);
    assert_eq!(smc.charge_control_mode(), ChargeControlMode::Legacy);
    assert!(smc.is_charging_allowed().unwrap());

    smc.inhibit_charging().unwrap();
    assert_eq!(
        smc.driver().writes(),
        vec![(KEY_CHTE.to_string(), vec![0x01, 0x00, 0x00, 0x00])]
    );
    assert!(!smc.is_charging_allowed().unwrap());

    smc.driver_mut().clear_writes();
    smc.allow_charging().unwrap();
    assert_eq!(
        smc.driver().writes(),
        vec![(KEY_CHTE.to_string(), vec![0x00, 0x00, 0x00, 0x00])]
    );
}

#[test]
fn firmware_keys_win_over_legacy_keys() {
    let mut mock = MockDriver::new();
    mock.seed(KEY_BFF0, &[0x00])
        .seed(KEY_BFD0, &[0, 0, 0, 0])
        .seed(KEY_BFE0, &[0, 0, 0, 0])
        .seed(KEY_CH0B, &[0x00]);
    let mut smc = Smc::new(mock);
    assert_eq!(smc.charge_control_mode(), ChargeControlMode::Firmware);

    smc.set_firmware_limit(78, 80).unwrap();
    assert_eq!(
        smc.driver().writes(),
        vec![
            (KEY_BFD0.to_string(), vec![0x50, 0x00, 0x00, 0x00]),
            (KEY_BFE0.to_string(), vec![0x4E, 0x00, 0x00, 0x00]),
            (KEY_BFF0.to_string(), vec![0x02]),
        ]
    );
    assert_eq!(
        smc.firmware_limit().unwrap(),
        FirmwareLimit {
            active: true,
            lower: 78,
            upper: 80,
        }
    );

    smc.driver_mut().clear_writes();
    smc.clear_firmware_limit().unwrap();
    assert_eq!(smc.driver().writes(), vec![(KEY_BFF0.to_string(), vec![0x00])]);
    assert!(!smc.firmware_limit().unwrap().active);
}

#[test]
fn firmware_mac_rejects_legacy_calls() {
    let mut mock = MockDriver::new();
    mock.seed(KEY_BFF0, &[0x00])
        .seed(KEY_BFD0, &[0, 0, 0, 0])
        .seed(KEY_BFE0, &[0, 0, 0, 0])
        .seed(KEY_CH0B, &[0x00]);
    let mut smc = Smc::new(mock);
    assert!(matches!(
        smc.allow_charging(),
        Err(SmcError::WrongMode { .. })
    ));
    assert!(matches!(
        smc.is_charging_allowed(),
        Err(SmcError::WrongMode { .. })
    ));
}

#[test]
fn firmware_limit_range_is_validated() {
    let mut mock = MockDriver::new();
    mock.seed(KEY_BFF0, &[0x00])
        .seed(KEY_BFD0, &[0, 0, 0, 0])
        .seed(KEY_BFE0, &[0, 0, 0, 0]);
    let mut smc = Smc::new(mock);
    for (lower, upper) in [(80, 80), (81, 80), (98, 101)] {
        assert!(matches!(
            smc.set_firmware_limit(lower, upper),
            Err(SmcError::InvalidLimit(_))
        ));
    }
    assert!(smc.driver().writes().is_empty());
}

#[test]
fn unsupported_mac_rejects_every_control_call() {
    let mut mock = MockDriver::new();
    mock.seed(KEY_BUIC, &[50]);
    let mut smc = Smc::new(mock);
    assert_eq!(smc.charge_control_mode(), ChargeControlMode::Unsupported);
    assert!(matches!(
        smc.is_charging_allowed(),
        Err(SmcError::WrongMode { .. })
    ));
    assert!(matches!(
        smc.allow_charging(),
        Err(SmcError::WrongMode { .. })
    ));
    assert!(matches!(
        smc.inhibit_charging(),
        Err(SmcError::WrongMode { .. })
    ));
    assert!(matches!(
        smc.firmware_limit(),
        Err(SmcError::WrongMode { .. })
    ));
    assert!(matches!(
        smc.set_firmware_limit(78, 80),
        Err(SmcError::WrongMode { .. })
    ));
    assert!(matches!(
        smc.clear_firmware_limit(),
        Err(SmcError::WrongMode { .. })
    ));
    assert!(matches!(
        smc.reset_charge_control(),
        Err(SmcError::WrongMode { .. })
    ));
}

#[test]
fn adapter_uses_the_first_present_key() {
    let mut mock = MockDriver::new();
    mock.seed(KEY_CH0J, &[0x00]);
    let mut smc = Smc::new(mock);
    assert!(smc.has_adapter_control());
    assert!(smc.is_adapter_enabled().unwrap());
    smc.set_adapter_enabled(false).unwrap();
    assert_eq!(smc.driver().writes(), vec![(KEY_CH0J.to_string(), vec![0x01])]);
    assert!(!smc.is_adapter_enabled().unwrap());
}

#[test]
fn chie_adapter_uses_its_own_disabled_value() {
    let mut mock = MockDriver::new();
    mock.seed(KEY_CHIE, &[0x00]);
    let mut smc = Smc::new(mock);
    smc.set_adapter_enabled(false).unwrap();
    assert_eq!(smc.driver().writes(), vec![(KEY_CHIE.to_string(), vec![0x08])]);
    assert!(!smc.is_adapter_enabled().unwrap());
}

#[test]
fn adapter_calls_fail_without_the_hardware() {
    let mut smc = Smc::new(legacy_mock());
    assert!(!smc.has_adapter_control());
    assert!(matches!(
        smc.is_adapter_enabled(),
        Err(SmcError::Unsupported(_))
    ));
}

#[test]
fn magsafe_led_round_trips() {
    let mut mock = MockDriver::new();
    mock.seed(KEY_ACLC, &[0x00]);
    let mut smc = Smc::new(mock);
    assert!(smc.has_magsafe_led());
    smc.set_magsafe_led(MagsafeLed::Orange).unwrap();
    assert_eq!(smc.driver().writes(), vec![(KEY_ACLC.to_string(), vec![0x04])]);
    assert_eq!(smc.magsafe_led().unwrap(), MagsafeLed::Orange);

    smc.driver_mut().seed(KEY_ACLC, &[0x02]);
    assert_eq!(smc.magsafe_led().unwrap(), MagsafeLed::Green);
}

#[test]
fn magsafe_calls_fail_without_the_hardware() {
    let mut smc = Smc::new(legacy_mock());
    assert!(!smc.has_magsafe_led());
    assert!(matches!(smc.magsafe_led(), Err(SmcError::Unsupported(_))));
}

#[test]
fn missing_keys_report_key_not_found() {
    let mut smc = Smc::new(MockDriver::new());
    assert!(matches!(smc.read(KEY_BUIC), Err(SmcError::KeyNotFound(_))));
    assert!(matches!(
        smc.battery_percent(),
        Err(SmcError::KeyNotFound(_))
    ));
}

#[test]
fn write_rejects_the_wrong_length() {
    let mut smc = Smc::new(legacy_mock());
    assert!(matches!(
        smc.write(KEY_CH0B, &[0x00, 0x00]),
        Err(SmcError::UnexpectedSize { .. })
    ));
}

// --- the driver ------------------------------------------------------------

#[test]
fn a_struct_call_succeeds_or_names_its_failure() {
    let key = fourcc("BUIC").unwrap();
    let output = call_outcome(0, key, reply(0, key)).unwrap();
    assert_eq!(output.key, key);
    assert_eq!(
        call_outcome(K_IO_RETURN_NOT_PRIVILEGED, key, reply(0, key)).unwrap_err(),
        SmcError::NotPrivileged
    );
    assert_eq!(
        call_outcome(-536870212, key, reply(0, key)).unwrap_err(),
        SmcError::Io(-536870212)
    );
    assert_eq!(
        call_outcome(0, key, reply(SMC_KEY_NOT_FOUND, 0)).unwrap_err(),
        SmcError::KeyNotFound("BUIC".to_string())
    );
}

#[test]
fn opening_goes_step_by_step() {
    let mut step = OpenStep::MainPort;
    let mut steps = 1;
    loop {
        let reply = match step {
            OpenStep::MainPort | OpenStep::Services | OpenStep::Connect => OpenReply::Code(0),
            OpenStep::Matching | OpenStep::Device => OpenReply::Object(true),
            OpenStep::Connected => break,
        };
        step = open_next(step, reply).unwrap();
        steps += 1;
    }
    assert_eq!(steps, 6);
    assert_eq!(
        open_next(OpenStep::MainPort, OpenReply::Code(-1)).unwrap_err(),
        SmcError::Open(-1)
    );
    assert_eq!(
        open_next(OpenStep::Device, OpenReply::Object(false)).unwrap_err(),
        SmcError::ServiceNotFound
    );
}

#[test]
fn every_error_has_a_message() {
    let cases = vec![
        (SmcError::Open(-536870212), "cannot open AppleSMC: IOReturn 0xe00002bc"),
        (SmcError::ServiceNotFound, "AppleSMC service not found"),
        (SmcError::Io(2), "SMC call failed: IOReturn 0x00000002"),
        (SmcError::NotPrivileged, "SMC write needs root"),
        (
            SmcError::KeyNotFound("BUIC".to_string()),
            "SMC key BUIC not found on this Mac",
        ),
        (
            SmcError::Smc { key: "CH0C".to_string(), result: 0x85 },
            "SMC key CH0C returned result 0x85",
        ),
        (
            SmcError::InvalidKey("a\"b\n".to_string()),
            "invalid SMC key \"a\\\"b\\n\": need 4 ASCII characters",
        ),
        (
            SmcError::UnexpectedSize { key: "CH0B".to_string(), expected: 1, got: 2 },
            "SMC key CH0B takes 1 bytes, got 2",
        ),
        (
            SmcError::WrongMode {
                mode: ChargeControlMode::Firmware,
                need: "legacy charge control",
            },
            "charge control mode is Firmware, this call needs legacy charge control",
        ),
        (SmcError::Unsupported("MagSafe LED"), "this Mac has no MagSafe LED"),
        (
            SmcError::InvalidLimit("lower must be below upper".to_string()),
            "invalid charge limit: lower must be below upper",
        ),
    ];
    for (error, message) in cases {
        assert_eq!(error.message(), message);
        assert_eq!(error.clone(), error);
    }
}

// --- the mock --------------------------------------------------------------

#[test]
fn the_mock_keeps_types_values_and_writes() {
    let mut mock = MockDriver::new();
    mock.seed_typed(KEY_BFD0, "hex_", &[1, 2]).seed(KEY_BUIC, &[50]);
    assert_eq!(mock.value(KEY_BFD0), Some(vec![1, 2]));
    assert_eq!(mock.value(KEY_CHTE), None);
    assert_eq!(mock.value("no key"), None);
    let mut smc = Smc::new(mock);
    assert_eq!(fourcc_str(smc.key_info(KEY_BFD0).unwrap().data_type), "hex_");
    assert_eq!(fourcc_str(smc.key_info(KEY_BUIC).unwrap().data_type), "ui8 ");
    smc.write(KEY_BFD0, &[3, 4]).unwrap();
    assert_eq!(smc.driver().value(KEY_BFD0), Some(vec![3, 4]));
    assert_eq!(smc.read(KEY_BFD0).unwrap(), vec![3, 4]);
}

#[test]
fn a_sticky_key_records_a_write_and_keeps_its_bytes() {
    let mut mock = MockDriver::new();
    mock.seed_sticky(KEY_ACLC, &[0x02]);
    let mut smc = Smc::new(mock);
    smc.set_magsafe_led(MagsafeLed::System).unwrap();
    assert_eq!(smc.driver().writes(), vec![(KEY_ACLC.to_string(), vec![0x00])]);
    assert_eq!(smc.magsafe_led().unwrap(), MagsafeLed::Green);
}

#[test]
fn the_mock_answers_a_missing_key_and_an_unknown_command() {
    let mut mock = MockDriver::new();
    mock.seed(KEY_BUIC, &[50]);
    let key = fourcc(KEY_BUIC).unwrap();
    assert_eq!(mock.call(inquiry(key, CMD_READ_BYTES, 1)).unwrap().bytes[0], 50);
    assert_eq!(
        mock.call(inquiry(fourcc(KEY_ACW).unwrap(), CMD_READ_BYTES, 1)).unwrap_err(),
        SmcError::KeyNotFound(KEY_ACW.to_string())
    );
    assert_eq!(
        mock.call(inquiry(key, 77, 0)).unwrap_err(),
        SmcError::Smc { key: KEY_BUIC.to_string(), result: 77 }
    );
}

// --- the facade ------------------------------------------------------------

#[test]
fn a_key_that_is_no_key_is_refused() {
    let mut smc = Smc::new(legacy_mock());
    assert!(!smc.has_key("toolong"));
    assert_eq!(smc.read("abc").unwrap_err(), SmcError::InvalidKey("abc".to_string()));
}

#[test]
fn one_firmware_key_alone_is_not_firmware_mode() {
    let mut mock = MockDriver::new();
    mock.seed(KEY_BFD0, &[0, 0]).seed(KEY_CHTE, &[0, 0, 0, 0]);
    assert_eq!(Smc::new(mock).charge_control_mode(), ChargeControlMode::Legacy);
}

#[test]
fn the_limit_is_read_back_as_it_was_set() {
    let mut smc = Smc::new(firmware_mock());
    for (lower, upper) in [(40, 50), (78, 80), (0, 1), (99, 100)] {
        smc.set_firmware_limit(lower, upper).unwrap();
        assert_eq!(
            smc.firmware_limit().unwrap(),
            FirmwareLimit { active: true, lower, upper }
        );
    }
    smc.reset_charge_control().unwrap();
    assert!(!smc.firmware_limit().unwrap().active);
}

#[test]
fn the_first_adapter_key_wins() {
    let mut mock = MockDriver::new();
    mock.seed(KEY_CHIE, &[0x00]).seed(KEY_CH0J, &[0x00]).seed(KEY_CH0I, &[0x00]);
    let mut smc = Smc::new(mock);
    smc.set_adapter_enabled(false).unwrap();
    assert_eq!(smc.driver().writes(), vec![(KEY_CH0I.to_string(), vec![0x01])]);
    smc.set_adapter_enabled(true).unwrap();
    assert!(smc.is_adapter_enabled().unwrap());
}

#[test]
fn led_colours_have_their_bytes() {
    assert_eq!(MagsafeLed::System.to_byte(), 0x00);
    assert_eq!(MagsafeLed::Off.to_byte(), 0x01);
    for led in [MagsafeLed::System, MagsafeLed::Off, MagsafeLed::Green, MagsafeLed::Orange] {
        assert_eq!(MagsafeLed::from_byte(led.to_byte()), led);
    }
}

#[test]
fn a_key_is_read_at_the_size_the_probe_found() {
    let mut mock = MockDriver::new();
    mock.seed(KEY_CH0B, &[0x00]).seed(KEY_CH0C, &[0x00]).seed(KEY_BUIC, &[50]);
    let mut smc = Smc::new(mock);
    smc.driver_mut().seed(KEY_BUIC, &[]);
    assert_eq!(smc.battery_percent().unwrap(), 0);
    assert_eq!(smc.driver().value(KEY_BUIC), Some(vec![]));
}

// --- smcctl ----------------------------------------------------------------

#[test]
fn smcctl_reads_its_command_line() {
    let args = |words: &[&str]| words.iter().map(|w| w.to_string()).collect::<Vec<String>>();
    assert_eq!(smcctl::parse_args(&args(&["probe"])), smcctl::Command::Probe);
    assert_eq!(smcctl::parse_args(&args(&["status"])), smcctl::Command::Status);
    assert_eq!(
        smcctl::parse_args(&args(&["read", "CHTE"])),
        smcctl::Command::Read("CHTE".to_string())
    );
    assert_eq!(
        smcctl::parse_args(&args(&["write", "CHTE", "00000000"])),
        smcctl::Command::Write("CHTE".to_string(), "00000000".to_string())
    );
    for words in [&[][..], &["probe", "x"][..], &["read"][..], &["explode"][..]] {
        assert_eq!(smcctl::parse_args(&args(words)), smcctl::Command::Usage);
    }
    assert!(smcctl::USAGE.starts_with("usage: smcctl"));
}

#[test]
fn smcctl_writes_and_reads_hex() {
    assert_eq!(smcctl::hex(&[0x00, 0x0f, 0xa0, 0xff]), "00 0f a0 ff");
    assert_eq!(smcctl::hex(&[]), "");
    assert_eq!(smcctl::parse_hex("00 0f A0ff").unwrap(), vec![0x00, 0x0f, 0xa0, 0xff]);
    let bytes = vec![0x01, 0x00, 0x7f, 0x80];
    let text = smcctl::hex(&bytes);
    assert!(smcctl::splits_into_pairs(&text));
    assert_eq!(smcctl::parse_hex(&text).unwrap(), bytes);
    // A sign is a digit's place to the number parser.
    assert_eq!(smcctl::parse_hex("+f").unwrap(), vec![0x0f]);
}

#[test]
fn smcctl_refuses_what_is_no_hex() {
    assert_eq!(
        smcctl::parse_hex(" \t").unwrap_err().message(),
        "invalid charge limit: \" \\t\" is not an even-length hex string"
    );
    assert_eq!(
        smcctl::parse_hex("abc").unwrap_err().message(),
        "invalid charge limit: \"abc\" is not an even-length hex string"
    );
    assert_eq!(
        smcctl::parse_hex("0g").unwrap_err().message(),
        "invalid charge limit: \"0g\" is not hex"
    );
    // One character of two bytes is a pair that is no hex.
    assert!(smcctl::splits_into_pairs("é"));
    assert_eq!(
        smcctl::parse_hex("é").unwrap_err().message(),
        "invalid charge limit: \"é\" is not hex"
    );
    // Characters that a pair would cut in two.
    assert!(!smcctl::splits_into_pairs("0é0"));
    assert!(!smcctl::splits_into_pairs("€0"));
    // A text of odd length is refused before it is cut.
    assert!(smcctl::splits_into_pairs("0é"));
    assert_eq!(
        smcctl::parse_hex("0é").unwrap_err().message(),
        "invalid charge limit: \"0é\" is not an even-length hex string"
    );
}

#[test]
fn smcctl_probe_lists_every_key() {
    let mut mock = MockDriver::new();
    mock.seed(KEY_CHTE, &[0, 0, 0, 0])
        .seed_typed(KEY_BFD0, "hex_", &[0, 0])
        .seed(KEY_BUIC, &[90]);
    let mut smc = Smc::new(mock);
    assert_eq!(
        smcctl::probe(&mut smc),
        vec![
            "mode: Legacy",
            "CH0B  absent",
            "CH0C  absent",
            "CHTE  present  size  4  type ui32",
            "bfF0  absent",
            "bfD0  present  size  2  type hex_",
            "bfE0  absent",
            "BUIC  present  size  1  type ui8 ",
            "AC-W  absent",
            "ACLC  absent",
            "CH0I  absent",
            "CH0J  absent",
            "CHIE  absent",
        ]
    );
}

#[test]
fn smcctl_status_shows_what_it_can() {
    let mut mock = legacy_mock();
    mock.seed(KEY_CH0J, &[0x01]).seed(KEY_ACLC, &[0x03]);
    let mut smc = Smc::new(mock);
    assert_eq!(
        smcctl::status(&mut smc),
        vec![
            "mode:             Legacy",
            "battery percent:  78",
            "plugged in:       true",
            "charging allowed: true",
            "adapter control:  true",
            "adapter enabled:  false",
            "magsafe led:      Green",
        ]
    );

    let mut smc = Smc::new(firmware_mock());
    smc.set_firmware_limit(78, 80).unwrap();
    assert_eq!(
        smcctl::status(&mut smc),
        vec![
            "mode:             Firmware",
            "battery percent:  n/a (SMC key BUIC not found on this Mac)",
            "plugged in:       n/a (SMC key AC-W not found on this Mac)",
            "charging allowed: n/a (charge control mode is Firmware, this call needs legacy charge control)",
            "firmware limit:   active true lower 78 upper 80",
            "adapter control:  false",
            "magsafe led:      n/a (this Mac has no MagSafe LED)",
        ]
    );
}

#[test]
fn smcctl_reads_and_writes_raw_bytes() {
    let mut mock = MockDriver::new();
    mock.seed(KEY_CHTE, &[1, 0, 0, 0]);
    let mut smc = Smc::new(mock);
    assert_eq!(smcctl::read(&mut smc, "CHTE").unwrap(), "01 00 00 00");
    assert_eq!(
        smcctl::write(&mut smc, "CHTE", &[0, 0, 0, 0]).unwrap(),
        "CHTE = 00 00 00 00"
    );
    assert_eq!(smcctl::read(&mut smc, "CHTE").unwrap(), "00 00 00 00");
    let error = smcctl::read(&mut smc, "CH0B").unwrap_err();
    assert_eq!(smcctl::error_line(&error), "error: SMC key CH0B not found on this Mac");
    assert_eq!(
        smcctl::error_line(&SmcError::NotPrivileged),
        "error: SMC writes need root. Run smcctl again with sudo."
    );
}

// --- reading back ----------------------------------------------------------

#[test]
fn a_write_reads_back_and_leaves_other_keys() {
    let mut mock = legacy_mock();
    // A key that the probe does not look for.
    mock.seed("TEST", &[1, 2, 3]).seed_sticky("LOCK", &[7]);
    let mut smc = Smc::new(mock);
    assert_eq!(smc.read("TEST"), Ok(vec![1, 2, 3]));
    smc.write("TEST", &[4, 5, 6]).unwrap();
    assert_eq!(smc.read("TEST"), Ok(vec![4, 5, 6]));
    assert_eq!(smc.read(KEY_BUIC), Ok(vec![78]));
    assert_eq!(smc.read("LOCK"), Ok(vec![7]));
    // A write that is refused leaves them too.
    assert!(smc.write("TEST", &[9]).is_err());
    assert_eq!(smc.read("TEST"), Ok(vec![4, 5, 6]));
    // A sticky key takes the write and keeps its bytes.
    smc.write("LOCK", &[8]).unwrap();
    assert_eq!(smc.read("LOCK"), Ok(vec![7]));
    assert_eq!(
        smc.driver().writes(),
        vec![
            ("TEST".to_string(), vec![4, 5, 6]),
            ("LOCK".to_string(), vec![8])
        ]
    );
}

#[test]
fn a_long_key_reads_as_far_as_a_packet_carries_it() {
    let mut mock = MockDriver::new();
    let bytes: Vec<u8> = (0..40).collect();
    mock.seed("LONG", &bytes);
    let mut smc = Smc::new(mock);
    assert_eq!(smc.read("LONG"), Ok(bytes[..32].to_vec()));
    assert_eq!(
        smc.write("LONG", &bytes),
        Err(SmcError::UnexpectedSize {
            key: "LONG".to_string(),
            expected: 40,
            got: 40
        })
    );
}

#[test]
fn a_gate_can_be_set_again_and_again() {
    let mut chte = MockDriver::new();
    chte.seed(KEY_CHTE, &[0, 0, 0, 0]);
    let pair = |value: u8| {
        vec![
            ("CH0B".to_string(), vec![value]),
            ("CH0C".to_string(), vec![value]),
        ]
    };
    let four = |value: u8| vec![("CHTE".to_string(), vec![value, 0, 0, 0])];
    for (mock, open, closed) in [
        (legacy_mock(), pair(0), pair(2)),
        (chte, four(0), four(1)),
    ] {
        let mut smc = Smc::new(mock);
        smc.inhibit_charging().unwrap();
        smc.driver_mut().clear_writes();
        assert_eq!(smc.allow_charging(), Ok(()));
        assert_eq!(smc.is_charging_allowed(), Ok(true));
        assert_eq!(smc.driver().writes(), open);
        smc.driver_mut().clear_writes();
        assert_eq!(smc.inhibit_charging(), Ok(()));
        assert_eq!(smc.is_charging_allowed(), Ok(false));
        assert_eq!(smc.driver().writes(), closed);
    }
}

#[test]
fn clearing_the_limit_keeps_the_percents() {
    let mut smc = Smc::new(firmware_mock());
    smc.set_firmware_limit(70, 80).unwrap();
    smc.driver_mut().clear_writes();
    assert_eq!(smc.clear_firmware_limit(), Ok(()));
    assert_eq!(smc.driver().writes(), vec![("bfF0".to_string(), vec![0])]);
    assert_eq!(
        smc.firmware_limit(),
        Ok(FirmwareLimit { active: false, lower: 70, upper: 80 })
    );

    // An activation key of another size can be read, but not written.
    let mut wide = MockDriver::new();
    wide.seed(KEY_BFF0, &[2, 0])
        .seed(KEY_BFD0, &[80, 0, 0, 0])
        .seed(KEY_BFE0, &[70, 0, 0, 0]);
    let mut smc = Smc::new(wide);
    let limit = FirmwareLimit { active: true, lower: 70, upper: 80 };
    assert_eq!(smc.firmware_limit(), Ok(limit));
    assert_eq!(
        smc.clear_firmware_limit(),
        Err(SmcError::UnexpectedSize {
            key: "bfF0".to_string(),
            expected: 2,
            got: 1
        })
    );
    assert_eq!(smc.driver().writes(), vec![]);
    assert_eq!(smc.firmware_limit(), Ok(limit));
}

#[test]
fn each_adapter_key_reads_back() {
    for key in [KEY_CH0I, KEY_CH0J, KEY_CHIE] {
        let mut mock = MockDriver::new();
        mock.seed(key, &[0]);
        let mut smc = Smc::new(mock);
        assert!(smc.has_adapter_control());
        for on in [false, true] {
            smc.set_adapter_enabled(on).unwrap();
            assert_eq!(smc.is_adapter_enabled(), Ok(on));
        }
    }
}

#[test]
fn a_mac_without_a_led_is_written_nothing() {
    let mut smc = Smc::new(legacy_mock());
    assert_eq!(smc.set_magsafe_led(MagsafeLed::Green), Err(SmcError::Unsupported("MagSafe LED")));
    assert_eq!(smc.magsafe_led(), Err(SmcError::Unsupported("MagSafe LED")));
    assert_eq!(smc.driver().writes(), vec![]);
}

// --- other drivers ---------------------------------------------------------

/// A connection that always fails.
struct Broken;

impl Driver for Broken {
    fn call(&mut self, _input: SmcKeyData) -> Result<SmcKeyData, SmcError> {
        Err(SmcError::Io(-536870212))
    }
}

#[test]
fn a_broken_connection_is_an_unsupported_mac() {
    let mut smc = Smc::new(Broken);
    assert_eq!(smc.charge_control_mode(), ChargeControlMode::Unsupported);
    assert_eq!(smc.battery_percent(), Err(SmcError::Io(-536870212)));
    assert_eq!(smcctl::probe(&mut smc)[1], "CH0B  error    SMC call failed: IOReturn 0xe00002bc");
}
