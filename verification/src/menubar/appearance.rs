//! What holds of the title, the rows and the checkmarks.

use crate::menubar::menu::{self, Action, EffectView, RowView, UpdateRowView};
use crate::menubar::ui;
use crate::menubar::version::{self, VersionView};
use crate::proto::{ChargeControlMode, MagsafeLedMode, Request, StatusView};
use crate::text;
use vstd::prelude::*;

verus! {

// ---------------------------------------------------------------------------
// The title
// ---------------------------------------------------------------------------

/// The limit is live: there is one, and neither a discharge nor a top-up is on.
pub open spec fn holding(s: StatusView) -> bool {
    s.adapter_enabled && !s.top_up_active && s.upper < 100
}

/// A Mac on battery shows its percent and no sign while the limit is live,
/// whatever the charge gate and the percent are.
pub proof fn a_mac_on_battery_shows_its_percent(s: StatusView)
    requires
        holding(s),
        !s.plugged_in,
    ensures
        ui::title_of(Some(s)) == text::decimal(s.battery_percent as nat) + "%"@,
{
}

proof fn lemma_tails(head: Seq<char>, a: Seq<char>, b: Seq<char>)
    requires
        head + a == head + b,
    ensures
        a == b,
{
    assert((head + a).skip(head.len() as int) =~= a);
    assert((head + b).skip(head.len() as int) =~= b);
}

proof fn lemma_signs()
    ensures
        "% ↑"@ != "%"@,
        "% ↑"@ != "% ↓"@,
        "% ↑"@ != "% ↑ 100"@,
        "% ↑"@ != "% ∞"@,
        "% ↑"@ != "% ■"@,
        "% ■"@ != "%"@,
        "% ■"@ != "% ↓"@,
        "% ■"@ != "% ↑ 100"@,
        "% ■"@ != "% ∞"@,
        "% ↓"@ != "%"@,
        "% ↓"@ != "% ↑ 100"@,
        "% ↓"@ != "% ∞"@,
        "% ↑ 100"@ != "%"@,
        "% ↑ 100"@ != "% ∞"@,
        "% ∞"@ != "%"@,
{
    reveal_strlit("%");
    reveal_strlit("% ↑");
    reveal_strlit("% ↓");
    reveal_strlit("% ↑ 100");
    reveal_strlit("% ∞");
    reveal_strlit("% ■");
    assert("% ↑"@[2] == '↑');
    assert("% ↓"@[2] == '↓');
    assert("% ∞"@[2] == '∞');
    assert("% ■"@[2] == '■');
    assert("%"@.len() == 1 && "% ↑ 100"@.len() == 7);
}

/// The sign for charging is shown if and only if the Mac is plugged in, allowed
/// to charge, and below a live limit. The sign for a held charge is shown if and
/// only if it is plugged in and not allowed to charge, with a live limit.
pub proof fn the_charging_sign_means_charging(s: StatusView)
    ensures
        ({
            let percent = text::decimal(s.battery_percent as nat);
            let title = ui::title_of(Some(s));
            &&& title == percent + "% ↑"@ <==> holding(s) && s.plugged_in && s.charging_allowed
                && s.battery_percent < s.upper
            &&& title == percent + "% ■"@ <==> holding(s) && s.plugged_in && !s.charging_allowed
            &&& title == percent + "% ↓"@ <==> !s.adapter_enabled
            &&& title == percent + "% ↑ 100"@ <==> s.adapter_enabled && s.top_up_active
            &&& title == percent + "% ∞"@ <==> s.adapter_enabled && !s.top_up_active && s.upper
                >= 100
            &&& title == percent + "%"@ <==> holding(s) && (!s.plugged_in || (s.charging_allowed
                && s.battery_percent >= s.upper))
        }),
{
    let percent = text::decimal(s.battery_percent as nat);
    let sign = ui::title_sign(s);
    lemma_signs();
    if percent + sign == percent + "% ↑"@ {
        lemma_tails(percent, sign, "% ↑"@);
    }
    if percent + sign == percent + "% ■"@ {
        lemma_tails(percent, sign, "% ■"@);
    }
    if percent + sign == percent + "% ↓"@ {
        lemma_tails(percent, sign, "% ↓"@);
    }
    if percent + sign == percent + "% ↑ 100"@ {
        lemma_tails(percent, sign, "% ↑ 100"@);
    }
    if percent + sign == percent + "% ∞"@ {
        lemma_tails(percent, sign, "% ∞"@);
    }
    if percent + sign == percent + "%"@ {
        lemma_tails(percent, sign, "%"@);
    }
}

/// Two Macs that differ in what the sign does not tell have one title: with the
/// limit live and no adapter attached, neither the charge gate nor the limit
/// shows; with the limit off, neither the charge gate nor the adapter does.
pub proof fn the_title_tells_no_more_than_it_means(s: StatusView, t: StatusView)
    requires
        s.battery_percent == t.battery_percent,
        ({
            ||| holding(s) && holding(t) && !s.plugged_in && !t.plugged_in
            ||| !s.adapter_enabled && !t.adapter_enabled
            ||| s.adapter_enabled && t.adapter_enabled && s.top_up_active && t.top_up_active
            ||| {
                &&& s.adapter_enabled && t.adapter_enabled
                &&& !s.top_up_active && !t.top_up_active
                &&& s.upper >= 100 && t.upper >= 100
            }
        }),
    ensures
        ui::title_of(Some(s)) == ui::title_of(Some(t)),
{
}

/// A daemon that does not answer shows in the title, in the first row, and in
/// the rows for the limit and the daemon; none of them tells a percent.
pub proof fn a_silent_daemon_shows()
    ensures
        ui::title_of(None) == "⚠︎"@,
        ui::summary_of(None) == "🔋 "@
            + "Daemon not running — run: sudo chargecapd install"@,
        ui::limit_row_of(None) == "Charge limit: unknown"@,
        ui::daemon_row_of(None) == "Daemon not running — run: sudo chargecapd install"@,
{
}

// ---------------------------------------------------------------------------
// The rows
// ---------------------------------------------------------------------------

/// The first row tells the percent, and then the one thing that holds: that the
/// limit is off; that the Mac runs on battery; that the charge is held at the
/// limit; that it charges to the limit; or that it is there.
pub proof fn the_first_row_tells_one_thing(s: StatusView)
    ensures
        ({
            let head = "🔋 "@ + text::decimal(s.battery_percent as nat) + "% · "@;
            let limit = text::decimal(s.upper as nat);
            let row = ui::summary_of(Some(s));
            &&& s.upper >= 100 ==> row == head + "Limit off"@
            &&& s.upper < 100 && !s.plugged_in ==> row == head + "On battery"@
            &&& s.upper < 100 && s.plugged_in && !s.charging_allowed ==> row == head + (
            "Holding at "@ + limit + "%"@)
            &&& s.upper < 100 && s.plugged_in && s.charging_allowed && s.battery_percent < s.upper
                ==> row == head + ("Charging to "@ + limit + "%"@)
            &&& s.upper < 100 && s.plugged_in && s.charging_allowed && s.battery_percent >= s.upper
                ==> row == head + ("At the "@ + limit + "% limit"@)
        }),
{
}

/// The limit row tells the limit, and that it is off from 100 on. The daemon row
/// tells the mode and the version.
pub proof fn the_rows_tell_the_limit_and_the_daemon(s: StatusView)
    ensures
        s.upper >= 100 ==> ui::limit_row_of(Some(s)) == "Charge limit: off"@,
        s.upper < 100 ==> ui::limit_row_of(Some(s)) == "Charge limit: "@ + text::decimal(
            s.upper as nat,
        ) + "%"@,
        s.mode == ChargeControlMode::Legacy ==> ui::daemon_row_of(Some(s))
            == "Daemon: running · "@ + "legacy"@ + " · v"@ + s.version,
        s.mode == ChargeControlMode::Firmware ==> ui::daemon_row_of(Some(s))
            == "Daemon: running · "@ + "firmware"@ + " · v"@ + s.version,
        s.mode == ChargeControlMode::Unsupported ==> ui::daemon_row_of(Some(s))
            == "Daemon: running · "@ + "unsupported"@ + " · v"@ + s.version,
{
}

/// The presets are the multiples of five from 50 on below 100, in order.
pub proof fn the_presets_are_every_fifth_percent(percent: u8)
    ensures
        ui::preset_limits().contains(percent) <==> 50 <= percent < 100 && percent % 5 == 0,
        forall|i: int, j: int|
            0 <= i < j < ui::preset_limits().len() ==> ui::preset_limits()[i]
                < ui::preset_limits()[j],
{
    let limits = ui::preset_limits();
    if 50 <= percent < 100 && percent % 5 == 0 {
        let i = (percent - 50) / 5;
        assert(limits[i] == percent);
    }
}

/// The checkmarks say what the status says, and nothing is checked or can be
/// clicked where the daemon does not answer. A preset is checked if and only if
/// it is the limit.
pub proof fn the_checkmarks_say_what_the_status_says(s: StatusView, i: int)
    requires
        0 <= i < ui::preset_limits().len(),
    ensures
        ({
            let look = menu::look_of(Some(s));
            &&& look.live
            &&& look.enabled <==> s.upper < 100
            &&& look.discharge <==> !s.adapter_enabled
            &&& look.top_up <==> s.top_up_active
            &&& look.magsafe_led == Some(s.magsafe_led)
            &&& look.presets.len() == ui::preset_limits().len()
            &&& look.presets[i].0 == ui::preset_limits()[i]
            &&& look.presets[i].1 <==> s.upper == look.presets[i].0
            &&& look.title == ui::title_of(Some(s))
            &&& look.summary == ui::summary_of(Some(s))
            &&& look.limit == ui::limit_row_of(Some(s))
            &&& look.daemon == ui::daemon_row_of(Some(s))
        }),
        ({
            let look = menu::look_of(None);
            &&& !look.live && !look.enabled && !look.discharge && !look.top_up
            &&& look.magsafe_led is None
            &&& !look.presets[i].1
            &&& look.title == ui::title_of(None)
            &&& look.summary == ui::summary_of(None)
        }),
{
}

/// At most one preset is checked.
pub proof fn one_preset_is_checked(status: Option<StatusView>, i: int, j: int)
    requires
        0 <= i < menu::look_of(status).presets.len(),
        0 <= j < menu::look_of(status).presets.len(),
        menu::look_of(status).presets[i].1,
        menu::look_of(status).presets[j].1,
    ensures
        i == j,
{
}

/// The id behind a row, where it can be clicked.
pub open spec fn clickable(row: RowView) -> Option<Seq<char>> {
    match row {
        RowView::Item { id, .. } => Some(id),
        RowView::Check(check) => Some(check.id),
        _ => None,
    }
}

/// Every row that can be clicked has an action, the rows of the LED submenu too.
/// The rows for launch at login and for automatic checks show what they are set
/// to, and no other is checked before the daemon answered.
pub proof fn every_row_has_an_action(login: bool, auto_update: bool, i: int)
    requires
        0 <= i < menu::menu_rows(login, auto_update).len(),
    ensures
        ({
            let row = menu::menu_rows(login, auto_update)[i];
            &&& clickable(row) matches Some(id) ==> menu::action_of(id) is Some
            &&& row matches RowView::Check(check) ==> check.checked == (if menu::action_of(check.id)
                == Some(Action::ToggleLogin) {
                login
            } else if menu::action_of(check.id) == Some(Action::ToggleAutoUpdate) {
                auto_update
            } else {
                false
            })
        }),
{
    menu::plain_ids_round_trip();
    let limits = ui::preset_limits();
    if 3 <= i < 3 + limits.len() {
        menu::preset_ids_round_trip(limits[i - 3]);
    }
}

/// The rows of the LED submenu set the modes, each its own.
pub proof fn every_led_row_sets_its_mode(i: int)
    requires
        0 <= i < 3,
    ensures
        menu::led_rows().len() == 3,
        menu::action_of(menu::led_rows()[0].id) == Some(
            Action::SetMagsafeLed(MagsafeLedMode::System),
        ),
        menu::action_of(menu::led_rows()[1].id) == Some(Action::SetMagsafeLed(MagsafeLedMode::Off)),
        menu::action_of(menu::led_rows()[2].id) == Some(
            Action::SetMagsafeLed(MagsafeLedMode::Reflect),
        ),
{
    menu::led_ids_round_trip();
}

/// The update row can be clicked if and only if nothing runs: not while a check
/// or an install does.
pub proof fn the_update_row_waits(v: VersionView)
    ensures
        menu::update_live(UpdateRowView::Idle),
        menu::update_live(UpdateRowView::Available(v)),
        !menu::update_live(UpdateRowView::Checking),
        !menu::update_live(UpdateRowView::Installing(v)),
        menu::update_label(UpdateRowView::Available(v)) == "Update to "@ + version::version_text(v)
            + "…"@,
        menu::update_label(UpdateRowView::Installing(v)) == "Installing "@
            + version::version_text(v) + "…"@,
{
}

// ---------------------------------------------------------------------------
// Clicks
// ---------------------------------------------------------------------------

/// A click asks for what its row says. Presets ask for their percent. "Limit
/// enabled" turns the limit off, and back on at the limit that was last chosen.
/// The other switches ask for the opposite of what the status says. The dialog
/// for a limit starts with the one in force, or else the one last chosen.
pub proof fn a_click_asks_for_what_its_row_says(
    s: StatusView,
    last_upper: u8,
    percent: u8,
    mode: MagsafeLedMode,
)
    ensures
        menu::effect_of(Action::Preset(percent), Some(s), last_upper) == EffectView::SetLimit(
            percent,
        ),
        menu::effect_of(Action::Preset(percent), None, last_upper) == EffectView::SetLimit(percent),
        menu::effect_of(Action::Custom, Some(s), last_upper) == EffectView::AskLimit(s.upper),
        menu::effect_of(Action::Custom, None, last_upper) == EffectView::AskLimit(last_upper),
        s.upper < 100 ==> menu::effect_of(Action::ToggleEnabled, Some(s), last_upper)
            == EffectView::SetLimit(100),
        s.upper >= 100 ==> menu::effect_of(Action::ToggleEnabled, Some(s), last_upper)
            == EffectView::SetLimit(last_upper),
        s.adapter_enabled ==> menu::effect_of(Action::ToggleDischarge, Some(s), last_upper)
            == EffectView::Send(Request::SetAdapter { enabled: false }),
        !s.adapter_enabled ==> menu::effect_of(Action::ToggleDischarge, Some(s), last_upper)
            == EffectView::Send(Request::SetAdapter { enabled: true }),
        s.top_up_active ==> menu::effect_of(Action::ToggleTopUp, Some(s), last_upper)
            == EffectView::Send(Request::CancelTopUp),
        !s.top_up_active ==> menu::effect_of(Action::ToggleTopUp, Some(s), last_upper)
            == EffectView::Send(Request::TopUp),
        menu::effect_of(Action::SetMagsafeLed(mode), Some(s), last_upper) == EffectView::Send(
            Request::SetMagsafeLed { mode },
        ),
        menu::effect_of(Action::ToggleLogin, Some(s), last_upper) == EffectView::ToggleLogin,
        menu::effect_of(Action::OpenLog, Some(s), last_upper) == EffectView::OpenLog,
{
}

/// A switch that needs the daemon sends nothing while it does not answer, and
/// says so.
pub proof fn a_silent_daemon_is_told_of(action: Action, last_upper: u8)
    ensures
        ({
            let effect = menu::effect_of(action, None, last_upper);
            &&& !(effect is Send)
            &&& action is ToggleEnabled || action is ToggleDischarge || action is ToggleTopUp
                || action is SetMagsafeLed ==> effect == EffectView::Alert(
                "Daemon not running — run: sudo chargecapd install"@,
            )
        }),
{
}

proof fn lemma_typed(n: u8)
    ensures
        menu::typed(text::decimal(n as nat)) == text::decimal(n as nat),
        menu::typed(text::decimal(n as nat).push('%')) == text::decimal(n as nat),
{
    let s = text::decimal(n as nat);
    text::lemma_decimal(n as nat);
    assert('0' <= s[0] <= '9' && '0' <= s.last() <= '9');
    lemma_digit_is_no_space(s[0]);
    lemma_digit_is_no_space(s.last());
    assert(!text::white_space('%'));
    let t = s.push('%');
    assert(t[0] == s[0]);
    assert(text::trimmed(s) == s);
    assert(text::trimmed(t) == t);
    assert(t.drop_last() =~= s);
    reveal_with_fuel(text::without_trailing, 2);
    assert(text::without_trailing(t, '%') == s);
}

proof fn lemma_digit_is_no_space(c: char)
    requires
        '0' <= c <= '9',
    ensures
        !text::white_space(c),
{
}

/// A limit that was typed is taken if and only if it is 50 to 100, with a
/// percent sign or without.
pub proof fn a_typed_limit_is_taken_as_typed(n: u8)
    ensures
        ({
            let (plain, signed) = (
                menu::limit_of(text::decimal(n as nat)),
                menu::limit_of(text::decimal(n as nat).push('%')),
            );
            &&& plain == signed
            &&& 50 <= n <= 100 ==> plain == Ok::<u8, Seq<char>>(n)
            &&& !(50 <= n <= 100) ==> plain == Err::<u8, Seq<char>>("upper must be 50..=100"@)
        }),
{
    lemma_typed(n);
    text::lemma_decimal(n as nat);
    assert(text::parsed(text::decimal(n as nat), 10, 255) == Some(n as nat));
}

/// Whatever was typed, no limit outside 50 to 100 comes of it.
pub proof fn no_typed_limit_is_out_of_range(s: Seq<char>)
    ensures
        menu::limit_of(s) matches Ok(upper) ==> 50 <= upper <= 100,
{
}

/// White space around a typed limit does not count.
pub proof fn spaces_around_a_typed_limit_do_not_count(s: Seq<char>, c: char)
    requires
        text::white_space(c),
    ensures
        menu::limit_of(seq![c] + s) == menu::limit_of(s),
        menu::limit_of(s.push(c)) == menu::limit_of(s),
{
    text::white_space_around_is_trimmed(s, c);
}

/// A limit from the dialog is asked for where it is one, and otherwise the user
/// is told what is wrong with it.
pub proof fn a_typed_limit_is_asked_for(n: u8)
    ensures
        50 <= n <= 100 ==> menu::custom_effect(text::decimal(n as nat)) == EffectView::SetLimit(n),
        !(50 <= n <= 100) ==> menu::custom_effect(text::decimal(n as nat)) == EffectView::Alert(
            "upper must be 50..=100"@,
        ),
{
    a_typed_limit_is_taken_as_typed(n);
}

/// Every row does what it says, and the rows stand in the order in which the
/// user finds them: the presets, then a limit of the user's own, then the
/// switches, the log, the updates, and the way out.
pub proof fn every_row_does_what_it_says(login: bool, auto_update: bool)
    ensures
        ({
            let rows = menu::menu_rows(login, auto_update);
            let says = |i: int, text: Seq<char>, action: Action|
                match rows[i] {
                    RowView::Item { id, text: told } => told == text && menu::action_of(id) == Some(
                        action,
                    ),
                    RowView::Check(check) => check.text == text && menu::action_of(check.id)
                        == Some(action),
                    _ => false,
                };
            &&& rows.len() == 29
            &&& says(13, "Custom…"@, Action::Custom)
            &&& says(15, "Limit enabled"@, Action::ToggleEnabled)
            &&& says(16, "Discharge to limit"@, Action::ToggleDischarge)
            &&& says(17, "Top up to 100% once"@, Action::ToggleTopUp)
            &&& rows[18] == (RowView::Submenu { text: "MagSafe LED"@, rows: menu::led_rows() })
            &&& says(19, "Launch at login"@, Action::ToggleLogin)
            &&& says(22, "Open log"@, Action::OpenLog)
            &&& says(25, "Check for updates…"@, Action::Update)
            &&& says(26, "Check for updates automatically"@, Action::ToggleAutoUpdate)
            &&& says(28, "Quit"@, Action::Quit)
        }),
{
    menu::plain_ids_round_trip();
}

/// Every preset row sets the percent that it says.
pub proof fn every_preset_row_sets_its_percent(login: bool, auto_update: bool, i: int)
    requires
        0 <= i < 10,
    ensures
        ({
            let percent = (50 + 5 * i) as u8;
            match menu::menu_rows(login, auto_update)[3 + i] {
                RowView::Check(check) => {
                    &&& check.text == text::decimal(percent as nat) + "%"@
                    &&& menu::action_of(check.id) == Some(Action::Preset(percent))
                },
                _ => false,
            }
        }),
{
    menu::preset_ids_round_trip((50 + 5 * i) as u8);
}

} // verus!
