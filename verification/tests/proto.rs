use chargecap::paths;
use chargecap::proto::{
    framed, payload, validate_limits, ChargeControlMode, MagsafeLedMode, Response, Status,
    DEFAULT_UPPER, MAX_UPPER, MIN_UPPER, SOCKET_PATH,
};

fn status_example() -> Status {
    Status {
        version: "0.1.0".to_string(),
        mode: ChargeControlMode::Legacy,
        battery_percent: 78,
        plugged_in: true,
        charging_allowed: false,
        adapter_enabled: true,
        upper: 80,
        lower: 78,
        magsafe_led: MagsafeLedMode::System,
        top_up_active: false,
        last_error: None,
    }
}

#[test]
fn validate_limits_defaults_lower() {
    assert_eq!(validate_limits(80, None), Ok((80, 78)));
}

#[test]
fn validate_limits_100_disables() {
    assert_eq!(validate_limits(100, None), Ok((100, 100)));
}

#[test]
fn validate_limits_rejects_out_of_range_upper() {
    assert_eq!(
        validate_limits(49, None),
        Err("upper must be 50..=100".to_string())
    );
}

#[test]
fn validate_limits_rejects_lower_above_upper() {
    assert_eq!(
        validate_limits(80, Some(85)),
        Err("lower must be below upper".to_string())
    );
}

#[test]
fn validate_limits_knows_its_edges() {
    assert_eq!(validate_limits(101, None), Err("upper must be 50..=100".to_string()));
    assert_eq!(validate_limits(MIN_UPPER, None), Ok((50, 48)));
    assert_eq!(validate_limits(50, Some(40)), Ok((50, 40)));
    assert_eq!(validate_limits(50, Some(39)), Err("lower must be below upper".to_string()));
    assert_eq!(validate_limits(50, Some(50)), Err("lower must be below upper".to_string()));
    // With the limit off, any lower limit gives way.
    assert_eq!(validate_limits(MAX_UPPER, Some(10)), Ok((100, 100)));
}

#[test]
fn a_band_leads_to_itself() {
    let (upper, lower) = validate_limits(DEFAULT_UPPER, None).unwrap();
    assert_eq!(validate_limits(upper, Some(lower)), Ok((upper, lower)));
}

#[test]
fn responses_carry_a_status_or_an_error() {
    let ok = Response::ok(status_example());
    assert!(ok.ok);
    assert_eq!(ok.status, Some(status_example()));
    assert_eq!(ok.error, None);

    let err = Response::err("upper must be 50..=100".to_string());
    assert!(!err.ok);
    assert_eq!(err.status, None);
    assert_eq!(err.error.as_deref(), Some("upper must be 50..=100"));
}

#[test]
fn a_clone_of_a_status_is_equal() {
    let mut status = status_example();
    status.last_error = Some("tick failed".to_string());
    assert_eq!(status.clone(), status);
}

#[test]
fn a_frame_is_one_line() {
    assert_eq!(framed(r#"{"cmd":"status"}"#), "{\"cmd\":\"status\"}\n");
    assert_eq!(payload("{\"cmd\":\"status\"}\n"), r#"{"cmd":"status"}"#);
    assert_eq!(payload("{} \r\n\n"), "{}");
    assert_eq!(payload(&framed("{}")), "{}");
    assert_eq!(payload("\n"), "");
}

fn path(bytes: &str) -> Option<Vec<u8>> {
    Some(bytes.as_bytes().to_vec())
}

#[test]
fn socket_path_falls_back_to_the_proto_default() {
    assert_eq!(paths::socket_path(None), SOCKET_PATH.as_bytes().to_vec());
    assert_eq!(paths::socket_path(path("")), SOCKET_PATH.as_bytes().to_vec());
    assert_eq!(paths::socket_path(path("/tmp/cc-fake.sock")), b"/tmp/cc-fake.sock".to_vec());
}

#[test]
fn files_of_the_app_live_below_the_home_directory() {
    assert_eq!(
        paths::state_path(None, path("/Users/a")),
        b"/Users/a/Library/Application Support/chargecap/app.json".to_vec()
    );
    assert_eq!(
        paths::plist_path(None, path("/Users/a")),
        b"/Users/a/Library/LaunchAgents/io.github.junixdev.chargecap.app.plist".to_vec()
    );
    assert_eq!(
        paths::cache_dir(path("/Users/a")),
        b"/Users/a/Library/Caches/chargecap".to_vec()
    );
    // An environment variable that is set wins.
    assert_eq!(paths::state_path(path("/x"), path("/Users/a")), b"/x".to_vec());
    assert_eq!(paths::plist_path(path("/y"), path("/Users/a")), b"/y".to_vec());
    // Without a home directory the path is relative.
    assert_eq!(
        paths::state_path(None, None),
        b"Library/Application Support/chargecap/app.json".to_vec()
    );
}

#[test]
fn a_path_is_joined_with_one_slash() {
    assert_eq!(paths::dev_socket_path(b"/tmp".to_vec()), b"/tmp/chargecap-dev.sock".to_vec());
    assert_eq!(paths::dev_socket_path(b"/tmp/".to_vec()), b"/tmp/chargecap-dev.sock".to_vec());
}

#[test]
fn the_installed_socket_wins() {
    let dev = b"/tmp/chargecap-dev.sock".to_vec();
    let installed = SOCKET_PATH.as_bytes().to_vec();
    assert_eq!(paths::default_socket_path(), installed);
    assert_eq!(paths::client_socket_path(b"/tmp".to_vec(), true, true), installed);
    assert_eq!(paths::client_socket_path(b"/tmp".to_vec(), false, true), dev);
    assert_eq!(paths::client_socket_path(b"/tmp".to_vec(), false, false), installed);
    assert_eq!(paths::socket_for_daemon(None, true, b"/tmp".to_vec()), installed);
    assert_eq!(paths::socket_for_daemon(None, false, b"/tmp".to_vec()), dev);
    assert_eq!(
        paths::socket_for_daemon(path("/given"), true, b"/tmp".to_vec()),
        b"/given".to_vec()
    );
}

#[test]
fn the_temp_file_is_hidden_and_names_the_process() {
    assert_eq!(
        paths::temp_file_name(Some("config.json".to_string()), 42),
        ".config.json.42.tmp"
    );
    assert_eq!(paths::temp_file_name(None, 7), ".config.json.7.tmp");
}
