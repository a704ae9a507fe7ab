use chargecap::menubar::client::{self, Answer};
use chargecap::menubar::fake;
use chargecap::menubar::launch_agent::{self, Switch};
use chargecap::menubar::menu::{
    build, handle, handle_custom, look, parse_limit, Action, CheckRow, Effect, Row, UpdateRow,
    ID_AUTO_UPDATE, ID_CUSTOM, ID_DISCHARGE, ID_ENABLED, ID_LOG, ID_LOGIN, ID_QUIT, ID_TOP_UP,
    ID_UPDATE,
};
use chargecap::menubar::session::{offer, Offer, Session, Task};
use chargecap::menubar::state::AppState;
use chargecap::menubar::ui::{
    daemon_row, limit_row, presets, summary, title, NOT_RUNNING_ROW,
};
use chargecap::menubar::update::{
    self, app_entry, bundle_of, cannot_reach, download_name, failure, install_script, newest,
    replace_steps, shell_quote, ApiAsset, ApiRelease, Release, ReplaceStep, APP_PATH,
    CHECK_INTERVAL, CURRENT,
};
use chargecap::menubar::version::Version;
use chargecap::proto::{
    ChargeControlMode, MagsafeLedMode, Request, Response, Status, APP_LABEL, DEFAULT_GAP,
    DEFAULT_UPPER, MAX_UPPER, VERSION,
};

fn status(percent: u8, plugged_in: bool, charging_allowed: bool, upper: u8) -> Status {
    Status {
        version: "0.1.0".to_string(),
        mode: ChargeControlMode::Legacy,
        battery_percent: percent,
        plugged_in,
        charging_allowed,
        adapter_enabled: true,
        upper,
        lower: upper.saturating_sub(DEFAULT_GAP),
        magsafe_led: MagsafeLedMode::System,
        top_up_active: false,
        last_error: None,
    }
}

// --- the texts -------------------------------------------------------------

#[test]
fn title_discharging() {
    let mut s = status(78, true, false, 80);
    s.adapter_enabled = false;
    assert_eq!(title(Some(&s)), "78% ↓");
}

#[test]
fn title_topping_up() {
    let mut s = status(78, true, true, 80);
    s.top_up_active = true;
    assert_eq!(title(Some(&s)), "78% ↑ 100");
}

#[test]
fn title_discharging_wins_over_top_up() {
    let mut s = status(78, true, false, 80);
    s.adapter_enabled = false;
    s.top_up_active = true;
    assert_eq!(title(Some(&s)), "78% ↓");
}

#[test]
fn title_charging_below_the_limit() {
    assert_eq!(title(Some(&status(78, true, true, 80))), "78% ↑");
}

#[test]
fn title_holding_at_the_limit() {
    assert_eq!(title(Some(&status(80, true, false, 80))), "80% ■");
}

#[test]
fn title_unplugged() {
    assert_eq!(title(Some(&status(64, false, false, 80))), "64%");
}

#[test]
fn title_limit_off() {
    assert_eq!(title(Some(&status(93, true, true, 100))), "93% ∞");
}

#[test]
fn title_without_a_daemon() {
    assert_eq!(title(None), "⚠︎");
}

#[test]
fn presets_run_from_50_to_95_in_fives() {
    assert_eq!(presets(), vec![50, 55, 60, 65, 70, 75, 80, 85, 90, 95]);
}

#[test]
fn summary_reads_as_the_first_row() {
    assert_eq!(
        summary(Some(&status(78, true, false, 80))),
        "🔋 78% · Holding at 80%"
    );
    assert_eq!(
        summary(Some(&status(64, false, false, 80))),
        "🔋 64% · On battery"
    );
    assert!(summary(None).contains("Daemon not running"));
}

#[test]
fn limit_row_shows_off_at_100() {
    assert_eq!(
        limit_row(Some(&status(90, true, true, 100))),
        "Charge limit: off"
    );
    assert_eq!(
        limit_row(Some(&status(78, true, true, 80))),
        "Charge limit: 80%"
    );
    assert_eq!(limit_row(None), "Charge limit: unknown");
}

#[test]
fn daemon_row_names_the_mode_and_version() {
    assert_eq!(
        daemon_row(Some(&status(78, true, true, 80))),
        "Daemon: running · legacy · v0.1.0"
    );
    assert_eq!(daemon_row(None), NOT_RUNNING_ROW);
}

#[test]
fn daemon_row_names_every_mode() {
    let mut s = status(78, true, true, 80);
    s.mode = ChargeControlMode::Firmware;
    assert_eq!(daemon_row(Some(&s)), "Daemon: running · firmware · v0.1.0");
    s.mode = ChargeControlMode::Unsupported;
    assert_eq!(daemon_row(Some(&s)), "Daemon: running · unsupported · v0.1.0");
}

// --- versions --------------------------------------------------------------

fn v(text: &str) -> Version {
    Version::parse(text).unwrap()
}

#[test]
fn parse_accepts_tags_and_plain_versions() {
    assert_eq!(v("v1.2.3").text(), "1.2.3");
    assert_eq!(v("1.2.3-beta.1").text(), "1.2.3-beta.1");
    assert_eq!(v("v0.1.0-rc.2+build.7").text(), "0.1.0-rc.2");
    assert!(Version::parse("1.2").is_none());
    assert!(Version::parse("1.2.3.4").is_none());
    assert!(Version::parse("1.2.3-").is_none());
    assert!(Version::parse("latest").is_none());
}

#[test]
fn ordering_follows_semver() {
    assert!(v("0.2.0") > v("0.1.9"));
    assert!(v("1.0.0") > v("1.0.0-beta.1"));
    assert!(v("1.0.0-beta.2") > v("1.0.0-beta.1"));
    assert!(v("1.0.0-beta.10") > v("1.0.0-beta.9"));
    assert!(v("1.0.0-rc.1") > v("1.0.0-beta.9"));
    assert!(v("1.0.0-beta.1") > v("1.0.0-alpha"));
    assert!(v("1.0.0-alpha.1") > v("1.0.0-alpha"));
    assert_eq!(v("v1.0.0"), v("1.0.0"));
}

#[test]
fn numbers_sort_before_words() {
    assert!(v("1.0.0-1") < v("1.0.0-alpha"));
    assert!(v("1.0.0-2") < v("1.0.0-10"));
    // Two ways to write one number count as one.
    assert_eq!(v("1.0.0-01").order(&v("1.0.0-1")), 0);
    assert!(v("1.0.0-01") != v("1.0.0-1"));
    assert_eq!(v("1.0.0-beta").order(&v("1.0.0")), -1);
    assert_eq!(v("1.0.1").order(&v("1.0.0")), 1);
}

#[test]
fn versions_are_read_with_care() {
    assert_eq!(v("  vv1.2.3 ").text(), "1.2.3");
    assert_eq!(v("1.2.3+x-y").text(), "1.2.3");
    assert_eq!(v("1.2.3-a-b").pre, vec!["a-b"]);
    assert_eq!(v("1.2.3-a..b").pre, vec!["a", "", "b"]);
    assert!(Version::parse("+1.2.3").is_none());
    assert!(Version::parse("").is_none());
    assert!(Version::parse("1..3").is_none());
    assert!(Version::parse("1.2.x").is_none());
    assert!(Version::parse("18446744073709551616.0.0").is_none());
    assert_eq!(v("18446744073709551615.0.0").major, u64::MAX);
    assert!(v("1.2.3-rc.1").is_prerelease());
    assert!(!v("1.2.3").is_prerelease());
}

#[test]
fn current_version_parses() {
    assert!(Version::parse(CURRENT).is_some());
}

// --- releases --------------------------------------------------------------

/// Reads the releases list as GitHub sends it.
fn releases(json: &str) -> Result<Vec<ApiRelease>, String> {
    let list: serde_json::Value = serde_json::from_str(json).map_err(|err| err.to_string())?;
    let text = |value: &serde_json::Value| value.as_str().unwrap_or_default().to_string();
    let mut out = Vec::new();
    for item in list.as_array().ok_or("no list")? {
        let mut assets = Vec::new();
        for asset in item["assets"].as_array().unwrap_or(&Vec::new()) {
            assets.push(ApiAsset {
                name: text(&asset["name"]),
                browser_download_url: text(&asset["browser_download_url"]),
            });
        }
        out.push(ApiRelease {
            tag_name: text(&item["tag_name"]),
            html_url: text(&item["html_url"]),
            draft: item["draft"].as_bool().unwrap_or(false),
            prerelease: item["prerelease"].as_bool().unwrap_or(false),
            assets,
        });
    }
    Ok(out)
}

const RELEASES: &str = r#"[
  {"tag_name":"v0.3.0","html_url":"https://x/v0.3.0","draft":true,"prerelease":false,"assets":[]},
  {"tag_name":"v0.2.0-beta.1","html_url":"https://x/v0.2.0-beta.1","draft":false,"prerelease":true,
   "assets":[{"name":"chargecap-v0.2.0-beta.1-apple-silicon.dmg","browser_download_url":"https://dl/beta.dmg"}]},
  {"tag_name":"v0.1.5","html_url":"https://x/v0.1.5","draft":false,"prerelease":false,
   "assets":[{"name":"chargecap-v0.1.5-apple-silicon.zip","browser_download_url":"https://dl/zip"},
             {"name":"chargecap-v0.1.5-apple-silicon.dmg","browser_download_url":"https://dl/stable.dmg"}]},
  {"tag_name":"v0.1.0","html_url":"https://x/v0.1.0","draft":false,"prerelease":false,"assets":[]},
  {"tag_name":"nightly","html_url":"https://x/nightly","draft":false,"prerelease":false,"assets":[]}
]"#;

#[test]
fn stable_users_only_see_stable_releases() {
    let release = newest(&releases(RELEASES).unwrap(), &v("0.1.0")).unwrap();
    assert_eq!(release.tag, "v0.1.5");
    assert_eq!(release.dmg_url.as_deref(), Some("https://dl/stable.dmg"));
}

#[test]
fn beta_users_see_the_newest_prerelease() {
    let release = newest(&releases(RELEASES).unwrap(), &v("0.1.0-beta.1")).unwrap();
    assert_eq!(release.tag, "v0.2.0-beta.1");
    assert_eq!(release.dmg_url.as_deref(), Some("https://dl/beta.dmg"));
}

#[test]
fn drafts_and_older_releases_are_ignored() {
    assert_eq!(newest(&releases(RELEASES).unwrap(), &v("0.1.5")), None);
    assert_eq!(newest(&releases(RELEASES).unwrap(), &v("9.0.0-beta.1")), None);
    assert_eq!(newest(&releases("[]").unwrap(), &v("0.1.0")), None);
    assert!(releases("not json").is_err());
}

#[test]
fn a_release_without_a_dmg_still_counts() {
    let json = r#"[{"tag_name":"v0.9.0","html_url":"https://x/v0.9.0","assets":[]}]"#;
    let release = newest(&releases(json).unwrap(), &v("0.1.0")).unwrap();
    assert_eq!(release.dmg_url, None);
    assert_eq!(release.page_url, "https://x/v0.9.0");
}

#[test]
fn of_two_equal_releases_the_first_listed_wins() {
    let json = r#"[{"tag_name":"v0.2.0","html_url":"a"},{"tag_name":"0.2.0","html_url":"b"}]"#;
    let release = newest(&releases(json).unwrap(), &v("0.1.0")).unwrap();
    assert_eq!(release.page_url, "a");
    assert_eq!(release.version, v("0.2.0"));
}

#[test]
fn bundle_of_finds_the_app_around_the_binary() {
    assert_eq!(
        bundle_of("/Applications/chargecap.app/Contents/MacOS/chargecap"),
        Some("/Applications/chargecap.app".to_string())
    );
    assert_eq!(bundle_of("/tmp/target/debug/chargecap"), None);
    assert_eq!(bundle_of("chargecap"), None);
}

#[test]
fn bundle_of_reads_paths_as_the_system_does() {
    assert_eq!(
        bundle_of("/x//A.APP/./Contents/MacOS/a/"),
        Some("/x/A.APP".to_string())
    );
    assert_eq!(bundle_of("a.app/b/c/d"), Some("a.app".to_string()));
    assert_eq!(bundle_of("/.app/b/c/d"), None);
    assert_eq!(bundle_of("/app/b/c/d"), None);
}

#[test]
fn shell_quote_survives_spaces_and_quotes() {
    assert_eq!(shell_quote("/a b/c"), "'/a b/c'");
    assert_eq!(shell_quote("/it's"), r#"'/it'\''s'"#);
    assert_eq!(shell_quote(r#"/say "hi""#), r#"'/say \"hi\"'"#);
}

#[test]
fn commands_and_messages_of_an_update() {
    assert_eq!(shell_quote(r"/a\b"), r"'/a\\b'");
    assert_eq!(
        install_script("/x/chargecapd"),
        "do shell script \"'/x/chargecapd' install\" with administrator privileges"
    );
    assert_eq!(
        update::releases_url(),
        "https://api.github.com/repos/junixdev/chargecap/releases?per_page=20"
    );
    assert_eq!(update::user_agent(), "chargecap/0.1.0");
    assert_eq!(cannot_reach(" timeout \n"), "cannot reach GitHub: timeout");
    assert_eq!(download_name("https://dl/a/b.dmg"), "b.dmg");
    assert_eq!(download_name("b.dmg"), "b.dmg");
    assert_eq!(download_name("https://dl/"), "");
    assert_eq!(failure("cannot copy", " \n"), "cannot copy");
    assert_eq!(failure("cannot copy", " disk full\n"), "cannot copy: disk full");
}

#[test]
fn the_app_of_an_image_is_the_first_entry_with_the_extension() {
    let entry = |names: &[&str]| {
        let names: Vec<String> = names.iter().map(|name| name.to_string()).collect();
        app_entry(&names)
    };
    assert_eq!(entry(&[".DS_Store", "Applications", "chargecap.app", "other.app"]), Some(2));
    assert_eq!(entry(&["..app"]), Some(0));
    // A dot file has no extension, and case counts.
    assert_eq!(entry(&[".app", "app", "chargecap.APP", "chargecap.app.txt"]), None);
    assert_eq!(entry(&[]), None);
}

#[test]
fn an_update_removes_copies_and_installs() {
    let script = "do shell script \"'/Applications/chargecap.app/Contents/MacOS/chargecapd' \
                  install\" with administrator privileges";
    let steps = replace_steps(Some("/mnt/chargecap.app"), true, true, APP_PATH).unwrap();
    assert_eq!(
        steps,
        vec![
            ReplaceStep::RemoveOld(APP_PATH.to_string()),
            ReplaceStep::Copy {
                from: "/mnt/chargecap.app".to_string(),
                to: APP_PATH.to_string()
            },
            ReplaceStep::InstallDaemon(script.to_string()),
        ]
    );
    assert_eq!(steps[0].failed(), "cannot remove the old /Applications/chargecap.app");
    assert_eq!(steps[1].failed(), "cannot copy the new app into Applications");
    assert_eq!(
        steps[2].failed(),
        "the new app is in place, but the helper was not updated"
    );

    // Without an old app there is nothing to remove.
    let fresh = replace_steps(Some("/mnt/chargecap.app"), true, false, "/a/b.app/").unwrap();
    assert_eq!(fresh.len(), 2);
    assert_eq!(
        fresh[1],
        ReplaceStep::InstallDaemon(install_script("/a/b.app/Contents/MacOS/chargecapd"))
    );
}

#[test]
fn an_update_refuses_an_image_without_an_app_or_a_daemon() {
    let no_app = Err("the disk image has no .app inside".to_string());
    let no_daemon = Err("the disk image does not contain chargecapd".to_string());
    for old_there in [false, true] {
        assert_eq!(replace_steps(None, false, old_there, APP_PATH), no_app);
        assert_eq!(replace_steps(None, true, old_there, APP_PATH), no_app);
        assert_eq!(replace_steps(Some("/mnt/x.app"), false, old_there, APP_PATH), no_daemon);
    }
}

// --- the menu --------------------------------------------------------------

#[test]
fn parse_limit_accepts_a_plain_number() {
    assert_eq!(parse_limit(" 75 "), Ok(75));
    assert_eq!(parse_limit("75%"), Ok(75));
}

#[test]
fn parse_limit_rejects_text_and_out_of_range_values() {
    assert!(parse_limit("abc").unwrap_err().contains("whole number"));
    assert_eq!(parse_limit("49"), Err("upper must be 50..=100".to_string()));
}

#[test]
fn parse_limit_knows_its_edges() {
    assert_eq!(parse_limit("+80"), Ok(80));
    assert_eq!(parse_limit(" 80 %% "), Ok(80));
    assert_eq!(parse_limit("100"), Ok(100));
    assert_eq!(parse_limit("256"), Err("\"256\" is not a whole number".to_string()));
    assert_eq!(parse_limit(""), Err("\"\" is not a whole number".to_string()));
    assert_eq!(parse_limit("7 5"), Err("\"7 5\" is not a whole number".to_string()));
    assert_eq!(parse_limit("101"), Err("upper must be 50..=100".to_string()));
}

#[test]
fn action_ids_round_trip() {
    assert!(matches!(
        Action::from_id("preset:80"),
        Some(Action::Preset(80))
    ));
    assert!(matches!(Action::from_id(ID_QUIT), Some(Action::Quit)));
    assert!(Action::from_id("nope").is_none());
}

#[test]
fn every_row_has_its_action() {
    let cases = vec![
        (ID_CUSTOM, Action::Custom),
        (ID_ENABLED, Action::ToggleEnabled),
        (ID_DISCHARGE, Action::ToggleDischarge),
        (ID_TOP_UP, Action::ToggleTopUp),
        (ID_LOGIN, Action::ToggleLogin),
        (ID_LOG, Action::OpenLog),
        (ID_UPDATE, Action::Update),
        (ID_AUTO_UPDATE, Action::ToggleAutoUpdate),
        ("magsafe:system", Action::SetMagsafeLed(MagsafeLedMode::System)),
        ("magsafe:off", Action::SetMagsafeLed(MagsafeLedMode::Off)),
        ("magsafe:reflect", Action::SetMagsafeLed(MagsafeLedMode::Reflect)),
    ];
    for (id, action) in cases {
        assert_eq!(Action::from_id(id), Some(action));
    }
    assert_eq!(Action::from_id("preset:300"), None);
    assert_eq!(Action::from_id("preset:"), None);
    assert_eq!(Action::from_id("magsafe:blue"), None);
}

#[test]
fn clicks_become_requests() {
    let on = status(78, true, true, 80);
    let off = status(78, true, true, 100);
    assert_eq!(handle(Action::Preset(60), Some(&on), 80), Effect::SetLimit(60));
    assert_eq!(handle(Action::Custom, Some(&on), 65), Effect::AskLimit(80));
    assert_eq!(handle(Action::Custom, None, 65), Effect::AskLimit(65));
    // The limit goes off, and back to the last choice.
    assert_eq!(handle(Action::ToggleEnabled, Some(&on), 65), Effect::SetLimit(MAX_UPPER));
    assert_eq!(handle(Action::ToggleEnabled, Some(&off), 65), Effect::SetLimit(65));
    assert_eq!(
        handle(Action::ToggleDischarge, Some(&on), 65),
        Effect::Send(Request::SetAdapter { enabled: false })
    );
    assert_eq!(handle(Action::ToggleTopUp, Some(&on), 65), Effect::Send(Request::TopUp));
    let mut topping = status(78, true, true, 80);
    topping.top_up_active = true;
    assert_eq!(
        handle(Action::ToggleTopUp, Some(&topping), 65),
        Effect::Send(Request::CancelTopUp)
    );
    assert_eq!(
        handle(Action::SetMagsafeLed(MagsafeLedMode::Off), Some(&on), 65),
        Effect::Send(Request::SetMagsafeLed { mode: MagsafeLedMode::Off })
    );
    assert_eq!(handle(Action::ToggleLogin, None, 65), Effect::ToggleLogin);
    assert_eq!(handle(Action::OpenLog, None, 65), Effect::OpenLog);
    assert_eq!(handle(Action::Quit, None, 65), Effect::Nothing);
    for action in [
        Action::ToggleEnabled,
        Action::ToggleDischarge,
        Action::ToggleTopUp,
        Action::SetMagsafeLed(MagsafeLedMode::Off),
    ] {
        assert_eq!(handle(action, None, 65), Effect::Alert(NOT_RUNNING_ROW.to_string()));
    }
    assert_eq!(handle_custom(" 83% "), Effect::SetLimit(83));
    assert_eq!(handle_custom("45"), Effect::Alert("upper must be 50..=100".to_string()));
}

#[test]
fn the_menu_is_built_from_top_to_bottom() {
    let rows = build(true, false);
    assert_eq!(rows.len(), 29);
    assert_eq!(rows[0], Row::Label(summary(None)));
    assert_eq!(rows[1], Row::Separator);
    assert_eq!(
        rows[3],
        Row::Check(CheckRow {
            id: "preset:50".to_string(),
            text: "50%".to_string(),
            checked: false
        })
    );
    assert_eq!(
        rows[13],
        Row::Item {
            id: ID_CUSTOM.to_string(),
            text: "Custom…".to_string()
        }
    );
    assert_eq!(
        rows[19],
        Row::Check(CheckRow {
            id: ID_LOGIN.to_string(),
            text: "Launch at login".to_string(),
            checked: true
        })
    );
    assert_eq!(
        rows[28],
        Row::Item {
            id: ID_QUIT.to_string(),
            text: "Quit".to_string()
        }
    );
    // Every row that can be clicked has an action.
    for row in &rows {
        match row {
            Row::Item { id, .. } => assert!(Action::from_id(id).is_some()),
            Row::Check(row) => assert!(Action::from_id(&row.id).is_some()),
            Row::Submenu { rows, .. } => {
                assert_eq!(rows.len(), 3);
                for row in rows {
                    assert!(Action::from_id(&row.id).is_some());
                }
            }
            Row::Label(_) | Row::Separator => {}
        }
    }
}

#[test]
fn the_menu_follows_the_status() {
    let mut s = status(78, true, true, 80);
    s.adapter_enabled = false;
    s.magsafe_led = MagsafeLedMode::Reflect;
    let shown = look(Some(&s));
    assert_eq!(shown.title, "78% ↓");
    assert_eq!(shown.summary, summary(Some(&s)));
    assert!(shown.enabled && shown.discharge && shown.live);
    assert!(!shown.top_up);
    assert_eq!(shown.magsafe_led, Some(MagsafeLedMode::Reflect));
    for (percent, checked) in &shown.presets {
        assert_eq!(*checked, *percent == 80);
    }
    let dark = look(None);
    assert!(!dark.live && !dark.enabled);
    assert_eq!(dark.magsafe_led, None);
    assert!(dark.presets.iter().all(|(_, checked)| !checked));
}

#[test]
fn the_update_row_tells_where_it_is() {
    assert_eq!(UpdateRow::Idle.label(), ("Check for updates…".to_string(), true));
    assert_eq!(UpdateRow::Checking.label(), ("Checking for updates…".to_string(), false));
    assert_eq!(
        UpdateRow::Available(v("0.2.0")).label(),
        ("Update to 0.2.0…".to_string(), true)
    );
    assert_eq!(
        UpdateRow::Installing(v("0.2.0")).label(),
        ("Installing 0.2.0…".to_string(), false)
    );
}

// --- the session -----------------------------------------------------------

const EXE: &str = "/Applications/chargecap.app/Contents/MacOS/chargecap";

fn release() -> Release {
    Release {
        version: v("0.2.0"),
        tag: "v0.2.0".to_string(),
        page_url: "https://x/v0.2.0".to_string(),
        dmg_url: Some("https://dl/a.dmg".to_string()),
    }
}

fn session(exe: &str) -> Session {
    Session::new(AppState::default(), exe.to_string())
}

#[test]
fn load_returns_the_default_when_the_file_is_missing() {
    assert_eq!(session(EXE).state(), AppState::default());
    assert_eq!(AppState::default().last_upper, DEFAULT_UPPER);
    assert!(AppState::default().check_updates);
}

#[test]
fn the_first_status_starts_a_check() {
    let mut session = session(EXE);
    let now = CHECK_INTERVAL;
    assert_eq!(
        session.on_status(Some(status(78, true, true, 80)), now),
        vec![
            Task::Show,
            Task::SaveState,
            Task::ShowUpdate(UpdateRow::Checking),
            Task::Check { manual: false },
        ]
    );
    assert_eq!(session.latest().unwrap().battery_percent, 78);
    assert_eq!(session.state().last_update_check, now);
    // None while one runs, and none before the interval is over.
    assert_eq!(session.on_status(None, now + CHECK_INTERVAL), vec![Task::Show]);
    assert!(session.latest().is_none());
    assert_eq!(
        session.on_check(Ok(None), false),
        vec![Task::ShowUpdate(UpdateRow::Idle)]
    );
    assert_eq!(session.on_status(None, now + CHECK_INTERVAL - 1), vec![Task::Show]);
    assert_eq!(session.on_status(None, now + CHECK_INTERVAL).len(), 4);
}

#[test]
fn a_manual_check_says_what_it_found() {
    let mut session = session(EXE);
    assert_eq!(
        session.on_menu(ID_UPDATE),
        vec![Task::ShowUpdate(UpdateRow::Checking), Task::Check { manual: true }]
    );
    assert!(session.on_menu(ID_UPDATE).is_empty());
    assert_eq!(
        session.on_check(Ok(None), true),
        vec![
            Task::ShowUpdate(UpdateRow::Idle),
            Task::Notice {
                title: "You are up to date".to_string(),
                text: "chargecap 0.1.0 is the newest version.".to_string()
            },
        ]
    );
    session.on_menu(ID_UPDATE);
    assert_eq!(
        session.on_check(Err("offline".to_string()), true),
        vec![
            Task::ShowUpdate(UpdateRow::Idle),
            Task::Alert("Cannot check for updates. offline".to_string()),
        ]
    );
    session.on_menu(ID_UPDATE);
    assert_eq!(
        session.on_check(Err("offline".to_string()), false),
        vec![
            Task::ShowUpdate(UpdateRow::Idle),
            Task::Log("chargecap: update check failed: offline".to_string()),
        ]
    );
    session.on_menu(ID_UPDATE);
    assert_eq!(
        session.on_check(Ok(Some(release())), true),
        vec![
            Task::ShowUpdate(UpdateRow::Available(v("0.2.0"))),
            Task::Ask(offer(&release(), EXE)),
        ]
    );
}

#[test]
fn an_install_needs_a_yes() {
    let mut session = session(EXE);
    assert!(session.answer(true).is_empty());
    session.on_check(Ok(Some(release())), false);
    assert!(session.answer(false).is_empty());
    assert_eq!(session.on_menu(ID_UPDATE), vec![Task::Ask(offer(&release(), EXE))]);
    assert_eq!(
        session.answer(true),
        vec![
            Task::ShowUpdate(UpdateRow::Installing(v("0.2.0"))),
            Task::Install(release()),
        ]
    );
    assert!(session.on_menu(ID_UPDATE).is_empty());
    assert_eq!(
        session.on_install(Err("disk full".to_string())),
        vec![
            Task::ShowUpdate(UpdateRow::Available(v("0.2.0"))),
            Task::Alert("The update did not finish. disk full".to_string()),
        ]
    );
    assert_eq!(session.on_install(Ok(())), vec![Task::Exit]);
}

#[test]
fn elsewhere_the_page_is_opened() {
    let mut session = session("/tmp/target/debug/chargecap");
    assert_eq!(
        offer(&release(), "/tmp/target/debug/chargecap"),
        Offer {
            title: "chargecap 0.2.0 is available".to_string(),
            text: "Open the release page to download it?".to_string(),
            button: "Open page".to_string()
        }
    );
    assert_eq!(offer(&release(), EXE).button, "Install and restart");
    assert!(offer(&release(), EXE).text.starts_with("You have 0.1.0. The update"));
    session.on_check(Ok(Some(release())), false);
    assert_eq!(
        session.answer(true),
        vec![Task::OpenPage("https://x/v0.2.0".to_string())]
    );
}

#[test]
fn a_real_limit_is_remembered() {
    let mut session = session(EXE);
    assert_eq!(
        session.on_menu("preset:65"),
        vec![Task::Click(Effect::SetLimit(65)), Task::Poll]
    );
    assert_eq!(session.on_limit(65, Ok(())), vec![Task::SaveState]);
    assert_eq!(session.state().last_upper, 65);
    assert!(session.on_limit(65, Ok(())).is_empty());
    assert!(session.on_limit(MAX_UPPER, Ok(())).is_empty());
    assert_eq!(
        session.on_limit(70, Err("no".to_string())),
        vec![Task::Alert("no".to_string())]
    );
    assert_eq!(session.state().last_upper, 65);
    assert_eq!(session.on_menu(ID_CUSTOM), vec![Task::Click(Effect::AskLimit(65))]);
    assert_eq!(
        session.on_custom("70"),
        vec![Task::Click(Effect::SetLimit(70)), Task::Poll]
    );
}

#[test]
fn automatic_checks_can_be_turned_off() {
    let mut session = session(EXE);
    assert_eq!(
        session.on_menu(ID_AUTO_UPDATE),
        vec![Task::ShowAutoUpdate(false), Task::SaveState]
    );
    assert_eq!(session.on_status(None, 10 * CHECK_INTERVAL), vec![Task::Show]);
    assert_eq!(session.on_menu(ID_QUIT), vec![Task::Exit]);
    assert!(session.on_menu("nope").is_empty());
}

// --- the client ------------------------------------------------------------

#[test]
fn status_reports_a_missing_socket_instead_of_panicking() {
    assert_eq!(client::status(), Request::Status);
    let error =
        client::send("/tmp/chargecap-does-not-exist.sock", Answer::Unreachable).unwrap_err();
    assert!(error.contains("cannot reach the daemon"));
    assert!(error.ends_with("/tmp/chargecap-does-not-exist.sock"));
}

#[test]
fn every_answer_has_an_outcome() {
    let s = status(78, true, true, 80);
    let sent = |answer| client::send("/s", answer);
    assert_eq!(sent(Answer::Reply(Response::ok(s.clone()))), Ok(s.clone()));
    assert_eq!(
        sent(Answer::Reply(Response::err("no".to_string()))),
        Err("no".to_string())
    );
    assert_eq!(
        sent(Answer::Reply(Response { ok: false, status: Some(s), error: None })),
        Err("the daemon sent a reply with no status and no error".to_string())
    );
    assert_eq!(
        sent(Answer::Closed),
        Err("the daemon closed the connection without answering".to_string())
    );
    assert_eq!(
        sent(Answer::Garbled(" \n".to_string())),
        Err("the daemon sent an empty reply".to_string())
    );
    assert_eq!(
        sent(Answer::Garbled("what? \n".to_string())),
        Err("cannot decode the reply: what?".to_string())
    );
    assert_eq!(sent(Answer::Failed("reset".to_string())), Err("reset".to_string()));
}

// --- the stand-in daemon ---------------------------------------------------

/// Sends one request to the stand-in.
fn ask(status: &mut Status, request: Request) -> Result<Status, String> {
    client::send("/tmp/fake.sock", Answer::Reply(fake::apply(status, &request)))
}

#[test]
fn status_returns_the_canned_status() {
    let mut canned = fake::canned_status();
    let status = ask(&mut canned, client::status()).expect("status");
    assert_eq!(status.battery_percent, 78);
    assert_eq!(status.upper, DEFAULT_UPPER);
    assert_eq!(status.version, VERSION);
}

#[test]
fn set_limit_changes_the_upper_limit() {
    let mut canned = fake::canned_status();
    let status = ask(&mut canned, client::set_limit(65)).expect("set_limit");
    assert_eq!(status.upper, 65);
    assert_eq!(status.lower, 65 - DEFAULT_GAP);
    // The change sticks for the next request.
    assert_eq!(ask(&mut canned, client::status()).expect("status").upper, 65);
}

#[test]
fn set_limit_to_100_turns_the_limit_off() {
    let mut canned = fake::canned_status();
    let status = ask(&mut canned, client::set_limit(MAX_UPPER)).expect("set_limit");
    assert_eq!(status.upper, MAX_UPPER);
    assert_eq!(status.lower, MAX_UPPER);
}

#[test]
fn the_daemon_rejects_an_out_of_range_limit() {
    let mut canned = fake::canned_status();
    let error = ask(&mut canned, client::set_limit(10)).unwrap_err();
    assert_eq!(error, "upper must be 50..=100");
    assert_eq!(canned, fake::canned_status());
}

#[test]
fn the_stand_in_takes_every_request() {
    let mut canned = fake::canned_status();
    assert!(!ask(&mut canned, Request::SetAdapter { enabled: false }).unwrap().adapter_enabled);
    assert!(ask(&mut canned, Request::TopUp).unwrap().top_up_active);
    assert!(!ask(&mut canned, Request::CancelTopUp).unwrap().top_up_active);
    let mode = MagsafeLedMode::Off;
    assert_eq!(ask(&mut canned, Request::SetMagsafeLed { mode }).unwrap().magsafe_led, mode);
    assert!(ask(&mut canned, client::set_limit(90)).unwrap().charging_allowed);
    assert!(!ask(&mut canned, client::set_limit(70)).unwrap().charging_allowed);
}

// --- launch at login -------------------------------------------------------

#[test]
fn plist_names_the_label_and_the_binary() {
    let binary = "/Applications/chargecap.app/Contents/MacOS/chargecap";
    let text = launch_agent::plist(binary);
    assert!(text.contains(APP_LABEL));
    assert!(text.contains(binary));
    assert!(text.contains("<key>RunAtLoad</key>"));
    assert!(text.ends_with("</plist>\n"));
}

#[test]
fn the_checkmark_toggles() {
    assert_eq!(launch_agent::toggle(true), Switch::Disable);
    assert_eq!(launch_agent::toggle(false), Switch::Enable);
}
