//! The menu: its rows, the actions behind them, and what they look like for a
//! status.

use crate::menubar::ui;
use crate::menubar::update::CURRENT;
use crate::menubar::version::{self, Version, VersionView};
use crate::proto::{self, validate_limits, MagsafeLedMode, Request, Status, StatusView, MAX_UPPER};
use crate::text;
use vstd::prelude::*;

verus! {

/// Menu id prefix for the preset rows.
pub const PRESET_PREFIX: &'static str = "preset:";

/// Menu id prefix for the MagSafe LED rows.
pub const MAGSAFE_PREFIX: &'static str = "magsafe:";

pub const ID_CUSTOM: &'static str = "custom";

pub const ID_ENABLED: &'static str = "enabled";

pub const ID_DISCHARGE: &'static str = "discharge";

pub const ID_TOP_UP: &'static str = "top_up";

pub const ID_LOGIN: &'static str = "login";

pub const ID_LOG: &'static str = "log";

pub const ID_UPDATE: &'static str = "update";

pub const ID_AUTO_UPDATE: &'static str = "auto_update";

pub const ID_QUIT: &'static str = "quit";

// ---------------------------------------------------------------------------
// Actions
// ---------------------------------------------------------------------------

/// One menu row the user can click.
#[derive(Debug, Clone, Copy, PartialEq, Eq, Structural)]
pub enum Action {
    /// Set the limit to this percentage.
    Preset(u8),
    Custom,
    ToggleEnabled,
    ToggleDischarge,
    ToggleTopUp,
    SetMagsafeLed(MagsafeLedMode),
    ToggleLogin,
    OpenLog,
    /// Check for updates, or install the one already found.
    Update,
    ToggleAutoUpdate,
    Quit,
}

/// The LED mode with a name.
pub open spec fn led_mode(name: Seq<char>) -> Option<MagsafeLedMode> {
    if name == "system"@ {
        Some(MagsafeLedMode::System)
    } else if name == "off"@ {
        Some(MagsafeLedMode::Off)
    } else if name == "reflect"@ {
        Some(MagsafeLedMode::Reflect)
    } else {
        None
    }
}

/// The action of a row without a prefix.
pub open spec fn plain_action(id: Seq<char>) -> Option<Action> {
    if id == ID_CUSTOM@ {
        Some(Action::Custom)
    } else if id == ID_ENABLED@ {
        Some(Action::ToggleEnabled)
    } else if id == ID_DISCHARGE@ {
        Some(Action::ToggleDischarge)
    } else if id == ID_TOP_UP@ {
        Some(Action::ToggleTopUp)
    } else if id == ID_LOGIN@ {
        Some(Action::ToggleLogin)
    } else if id == ID_LOG@ {
        Some(Action::OpenLog)
    } else if id == ID_UPDATE@ {
        Some(Action::Update)
    } else if id == ID_AUTO_UPDATE@ {
        Some(Action::ToggleAutoUpdate)
    } else if id == ID_QUIT@ {
        Some(Action::Quit)
    } else {
        None
    }
}

/// The action behind a menu id.
pub open spec fn action_of(id: Seq<char>) -> Option<Action> {
    if text::has_prefix(id, PRESET_PREFIX@) {
        match text::parsed(id.skip(PRESET_PREFIX@.len() as int), 10, 255) {
            Some(percent) => Some(Action::Preset(percent as u8)),
            None => None,
        }
    } else if text::has_prefix(id, MAGSAFE_PREFIX@) {
        match led_mode(id.skip(MAGSAFE_PREFIX@.len() as int)) {
            Some(mode) => Some(Action::SetMagsafeLed(mode)),
            None => None,
        }
    } else {
        plain_action(id)
    }
}

fn led_mode_named(name: &str) -> (r: Option<MagsafeLedMode>)
    ensures
        r == led_mode(name@),
{
    if text::same_text(name, "system") {
        Some(MagsafeLedMode::System)
    } else if text::same_text(name, "off") {
        Some(MagsafeLedMode::Off)
    } else if text::same_text(name, "reflect") {
        Some(MagsafeLedMode::Reflect)
    } else {
        None
    }
}

impl Action {
    /// The action behind a menu id.
    pub fn from_id(id: &str) -> (r: Option<Self>)
        ensures
            r == action_of(id@),
    {
        if let Some(rest) = text::strip_prefix(id, PRESET_PREFIX) {
            return match text::parse_decimal(rest.as_str(), 255) {
                Some(percent) => Some(Action::Preset(percent as u8)),
                None => None,
            };
        }
        if let Some(rest) = text::strip_prefix(id, MAGSAFE_PREFIX) {
            return match led_mode_named(rest.as_str()) {
                Some(mode) => Some(Action::SetMagsafeLed(mode)),
                None => None,
            };
        }
        if text::same_text(id, ID_CUSTOM) {
            Some(Action::Custom)
        } else if text::same_text(id, ID_ENABLED) {
            Some(Action::ToggleEnabled)
        } else if text::same_text(id, ID_DISCHARGE) {
            Some(Action::ToggleDischarge)
        } else if text::same_text(id, ID_TOP_UP) {
            Some(Action::ToggleTopUp)
        } else if text::same_text(id, ID_LOGIN) {
            Some(Action::ToggleLogin)
        } else if text::same_text(id, ID_LOG) {
            Some(Action::OpenLog)
        } else if text::same_text(id, ID_UPDATE) {
            Some(Action::Update)
        } else if text::same_text(id, ID_AUTO_UPDATE) {
            Some(Action::ToggleAutoUpdate)
        } else if text::same_text(id, ID_QUIT) {
            Some(Action::Quit)
        } else {
            None
        }
    }
}

/// What a typed limit comes down to: without white space around it and percent
/// signs behind it.
pub open spec fn typed(s: Seq<char>) -> Seq<char> {
    text::trimmed(text::without_trailing(text::trimmed(s), '%'))
}

/// The limit that a text asks for, or what is wrong with it.
pub open spec fn limit_of(s: Seq<char>) -> Result<u8, Seq<char>> {
    match text::parsed(typed(s), 10, 255) {
        None => Err("\""@ + typed(s) + "\" is not a whole number"@),
        Some(upper) => match proto::validated(upper as u8, None) {
            Ok(_) => Ok(upper as u8),
            Err(message) => Err(message),
        },
    }
}

/// Parses and validates the text from the "Custom…" dialog.
pub fn parse_limit(text: &str) -> (r: Result<u8, String>)
    ensures
        text::told(r) == limit_of(text@),
{
    let chars = text::chars_of(text);
    assert(chars@.subrange(0, chars@.len() as int) =~= text@);
    let (a, b) = text::trim_range(&chars, 0, chars.len());
    let c = text::skip_trailing(&chars, a, b, '%');
    let (from, to) = text::trim_range(&chars, a, c);
    let trimmed = text::string_of(&chars, from, to);
    match text::parse_decimal(trimmed.as_str(), 255) {
        None => Err(text::text3("\"", trimmed.as_str(), "\" is not a whole number")),
        Some(upper) => match validate_limits(upper as u8, None) {
            Ok(_) => Ok(upper as u8),
            Err(message) => Err(message),
        },
    }
}

/// What a click leads to.
#[derive(Debug, PartialEq, Eq)]
pub enum Effect {
    /// Ask the daemon for this limit, and take note of the reply.
    SetLimit(u8),
    /// Ask for a limit, with this one filled in.
    AskLimit(u8),
    /// Send this request.
    Send(Request),
    /// Show this error.
    Alert(String),
    /// Turn launch at login on or off.
    ToggleLogin,
    /// Open the daemon log.
    OpenLog,
    /// Nothing.
    Nothing,
}

/// An [`Effect`] with its texts taken as characters.
pub enum EffectView {
    SetLimit(u8),
    AskLimit(u8),
    Send(Request),
    Alert(Seq<char>),
    ToggleLogin,
    OpenLog,
    Nothing,
}

impl View for Effect {
    type V = EffectView;

    open spec fn view(&self) -> EffectView {
        match *self {
            Effect::SetLimit(upper) => EffectView::SetLimit(upper),
            Effect::AskLimit(current) => EffectView::AskLimit(current),
            Effect::Send(request) => EffectView::Send(request),
            Effect::Alert(message) => EffectView::Alert(message@),
            Effect::ToggleLogin => EffectView::ToggleLogin,
            Effect::OpenLog => EffectView::OpenLog,
            Effect::Nothing => EffectView::Nothing,
        }
    }
}

/// What a click on a row leads to, for the status that was last seen and the
/// limit that was last chosen.
///
/// A click that needs the daemon says so when it does not answer. Quitting and
/// updates are not handled here.
pub open spec fn effect_of(
    action: Action,
    latest: Option<StatusView>,
    last_upper: u8,
) -> EffectView {
    let not_running = EffectView::Alert(ui::NOT_RUNNING_ROW@);
    match action {
        Action::Preset(upper) => EffectView::SetLimit(upper),
        Action::Custom => EffectView::AskLimit(
            match latest {
                Some(s) => s.upper,
                None => last_upper,
            },
        ),
        Action::ToggleEnabled => match latest {
            Some(s) => EffectView::SetLimit(
                if s.upper >= MAX_UPPER {
                    last_upper
                } else {
                    MAX_UPPER
                },
            ),
            None => not_running,
        },
        Action::ToggleDischarge => match latest {
            Some(s) => EffectView::Send(Request::SetAdapter { enabled: !s.adapter_enabled }),
            None => not_running,
        },
        Action::ToggleTopUp => match latest {
            Some(s) => EffectView::Send(
                if s.top_up_active {
                    Request::CancelTopUp
                } else {
                    Request::TopUp
                },
            ),
            None => not_running,
        },
        Action::SetMagsafeLed(mode) => match latest {
            Some(s) => EffectView::Send(Request::SetMagsafeLed { mode }),
            None => not_running,
        },
        Action::ToggleLogin => EffectView::ToggleLogin,
        Action::OpenLog => EffectView::OpenLog,
        Action::Update => EffectView::Nothing,
        Action::ToggleAutoUpdate => EffectView::Nothing,
        Action::Quit => EffectView::Nothing,
    }
}

/// Decides what a click leads to.
pub fn handle(action: Action, latest: Option<&Status>, last_upper: u8) -> (r: Effect)
    ensures
        r@ == effect_of(action, ui::seen(latest), last_upper),
{
    match action {
        Action::Preset(upper) => Effect::SetLimit(upper),
        Action::Custom => Effect::AskLimit(
            match latest {
                Some(s) => s.upper,
                None => last_upper,
            },
        ),
        Action::ToggleEnabled => match latest {
            Some(s) => if s.upper >= MAX_UPPER {
                Effect::SetLimit(last_upper)
            } else {
                Effect::SetLimit(MAX_UPPER)
            },
            None => Effect::Alert(ui::NOT_RUNNING_ROW.to_string()),
        },
        Action::ToggleDischarge => match latest {
            Some(s) => Effect::Send(Request::SetAdapter { enabled: !s.adapter_enabled }),
            None => Effect::Alert(ui::NOT_RUNNING_ROW.to_string()),
        },
        Action::ToggleTopUp => match latest {
            Some(s) => if s.top_up_active {
                Effect::Send(Request::CancelTopUp)
            } else {
                Effect::Send(Request::TopUp)
            },
            None => Effect::Alert(ui::NOT_RUNNING_ROW.to_string()),
        },
        Action::SetMagsafeLed(mode) => match latest {
            Some(_) => Effect::Send(Request::SetMagsafeLed { mode }),
            None => Effect::Alert(ui::NOT_RUNNING_ROW.to_string()),
        },
        Action::ToggleLogin => Effect::ToggleLogin,
        Action::OpenLog => Effect::OpenLog,
        Action::Update => Effect::Nothing,
        Action::ToggleAutoUpdate => Effect::Nothing,
        Action::Quit => Effect::Nothing,
    }
}

/// What the text from the "Custom…" dialog leads to.
pub open spec fn custom_effect(text: Seq<char>) -> EffectView {
    match limit_of(text) {
        Ok(upper) => EffectView::SetLimit(upper),
        Err(message) => EffectView::Alert(message),
    }
}

/// Decides what the text from the "Custom…" dialog leads to.
pub fn handle_custom(text: &str) -> (r: Effect)
    ensures
        r@ == custom_effect(text@),
{
    match parse_limit(text) {
        Ok(upper) => Effect::SetLimit(upper),
        Err(message) => Effect::Alert(message),
    }
}

/// "Limit enabled" turns the limit off, and back to the one that was last
/// chosen. A discharge and a top-up are switched likewise.
pub proof fn toggles_go_there_and_back(s: StatusView, last_upper: u8)
    requires
        last_upper < MAX_UPPER,
    ensures
        s.upper < MAX_UPPER ==> effect_of(Action::ToggleEnabled, Some(s), last_upper)
            == EffectView::SetLimit(MAX_UPPER),
        s.upper >= MAX_UPPER ==> effect_of(Action::ToggleEnabled, Some(s), last_upper)
            == EffectView::SetLimit(last_upper),
        effect_of(Action::ToggleDischarge, Some(s), last_upper) == EffectView::Send(
            Request::SetAdapter { enabled: !s.adapter_enabled },
        ),
        effect_of(Action::ToggleTopUp, Some(s), last_upper) == EffectView::Send(Request::TopUp)
            <==> !s.top_up_active,
{
}

// ---------------------------------------------------------------------------
// Rows
// ---------------------------------------------------------------------------

/// One checkable row of a submenu.
#[derive(Debug, PartialEq, Eq)]
pub struct CheckRow {
    pub id: String,
    pub text: String,
    pub checked: bool,
}

/// One row of the menu.
#[derive(Debug, PartialEq, Eq)]
pub enum Row {
    /// A row that cannot be clicked.
    Label(String),
    /// A row that can be clicked.
    Item { id: String, text: String },
    /// A row with a checkmark that can be clicked.
    Check(CheckRow),
    Separator,
    Submenu { text: String, rows: Vec<CheckRow> },
}

/// A [`CheckRow`] with its texts taken as characters.
pub struct CheckView {
    pub id: Seq<char>,
    pub text: Seq<char>,
    pub checked: bool,
}

/// A [`Row`] with its texts taken as characters.
pub enum RowView {
    Label(Seq<char>),
    Item { id: Seq<char>, text: Seq<char> },
    Check(CheckView),
    Separator,
    Submenu { text: Seq<char>, rows: Seq<CheckView> },
}

impl View for CheckRow {
    type V = CheckView;

    open spec fn view(&self) -> CheckView {
        CheckView { id: self.id@, text: self.text@, checked: self.checked }
    }
}

/// Checkable rows, each by its view.
pub open spec fn checks_of(rows: Seq<CheckRow>) -> Seq<CheckView> {
    Seq::new(rows.len(), |i: int| rows[i]@)
}

impl View for Row {
    type V = RowView;

    open spec fn view(&self) -> RowView {
        match *self {
            Row::Label(text) => RowView::Label(text@),
            Row::Item { id, text } => RowView::Item { id: id@, text: text@ },
            Row::Check(row) => RowView::Check(row@),
            Row::Separator => RowView::Separator,
            Row::Submenu { text, rows } => RowView::Submenu {
                text: text@,
                rows: checks_of(rows@),
            },
        }
    }
}

/// Rows, each by its view.
pub open spec fn rows_of(rows: Seq<Row>) -> Seq<RowView> {
    Seq::new(rows.len(), |i: int| rows[i]@)
}

/// The row of one preset.
pub open spec fn preset_row(percent: u8) -> RowView {
    RowView::Check(
        CheckView {
            id: PRESET_PREFIX@ + text::decimal(percent as nat),
            text: text::decimal(percent as nat) + "%"@,
            checked: false,
        },
    )
}

/// The rows of the MagSafe LED submenu.
pub open spec fn led_rows() -> Seq<CheckView> {
    seq![
        CheckView { id: MAGSAFE_PREFIX@ + "system"@, text: "System"@, checked: true },
        CheckView { id: MAGSAFE_PREFIX@ + "off"@, text: "Off"@, checked: false },
        CheckView { id: MAGSAFE_PREFIX@ + "reflect"@, text: "Reflect charging"@, checked: false },
    ]
}

/// A checkable row.
pub open spec fn check_row(id: Seq<char>, text: Seq<char>, checked: bool) -> RowView {
    RowView::Check(CheckView { id, text, checked })
}

/// The menu before the daemon answered for the first time.
pub open spec fn menu_rows(login: bool, auto_update: bool) -> Seq<RowView> {
    seq![
        RowView::Label(ui::summary_of(None)),
        RowView::Separator,
        RowView::Label(ui::limit_row_of(None)),
    ] + Seq::new(ui::preset_limits().len(), |i: int| preset_row(ui::preset_limits()[i])) + seq![
        RowView::Item { id: ID_CUSTOM@, text: "Custom…"@ },
        RowView::Separator,
        check_row(ID_ENABLED@, "Limit enabled"@, false),
        check_row(ID_DISCHARGE@, "Discharge to limit"@, false),
        check_row(ID_TOP_UP@, "Top up to 100% once"@, false),
        RowView::Submenu { text: "MagSafe LED"@, rows: led_rows() },
        check_row(ID_LOGIN@, "Launch at login"@, login),
        RowView::Separator,
        RowView::Label(ui::daemon_row_of(None)),
        RowView::Item { id: ID_LOG@, text: "Open log"@ },
        RowView::Separator,
        RowView::Label("chargecap "@ + CURRENT@),
        RowView::Item { id: ID_UPDATE@, text: "Check for updates…"@ },
        check_row(ID_AUTO_UPDATE@, "Check for updates automatically"@, auto_update),
        RowView::Separator,
        RowView::Item { id: ID_QUIT@, text: "Quit"@ },
    ]
}

fn put(rows: &mut Vec<Row>, row: Row)
    ensures
        rows_of(final(rows)@) == rows_of(old(rows)@).push(row@),
{
    rows.push(row);
    assert(rows_of(rows@) =~= rows_of(old(rows)@).push(row@));
}

fn put_item(rows: &mut Vec<Row>, id: &str, text: &str)
    ensures
        rows_of(final(rows)@) == rows_of(old(rows)@).push(
            (RowView::Item { id: id@, text: text@ }),
        ),
{
    put(rows, Row::Item { id: id.to_string(), text: text.to_string() });
}

fn put_check(rows: &mut Vec<Row>, id: &str, text: &str, checked: bool)
    ensures
        rows_of(final(rows)@) == rows_of(old(rows)@).push(check_row(id@, text@, checked)),
{
    put(rows, Row::Check(CheckRow { id: id.to_string(), text: text.to_string(), checked }));
}

fn led_submenu() -> (r: Vec<CheckRow>)
    ensures
        checks_of(r@) == led_rows(),
{
    let mut rows: Vec<CheckRow> = Vec::new();
    rows.push(
        CheckRow {
            id: text::text2(MAGSAFE_PREFIX, "system"),
            text: "System".to_string(),
            checked: true,
        },
    );
    rows.push(
        CheckRow {
            id: text::text2(MAGSAFE_PREFIX, "off"),
            text: "Off".to_string(),
            checked: false,
        },
    );
    rows.push(
        CheckRow {
            id: text::text2(MAGSAFE_PREFIX, "reflect"),
            text: "Reflect charging".to_string(),
            checked: false,
        },
    );
    assert(checks_of(rows@) =~= led_rows());
    rows
}

fn put_presets(rows: &mut Vec<Row>)
    ensures
        rows_of(final(rows)@) == rows_of(old(rows)@) + Seq::new(
            ui::preset_limits().len(),
            |i: int| preset_row(ui::preset_limits()[i]),
        ),
{
    let presets = ui::presets();
    let ghost all = Seq::new(
        ui::preset_limits().len(),
        |i: int| preset_row(ui::preset_limits()[i]),
    );
    let mut i: usize = 0;
    assert(rows_of(old(rows)@) + all.take(0) =~= rows_of(old(rows)@));
    while i < presets.len()
        invariant
            i <= presets@.len(),
            presets@ == ui::preset_limits(),
            all == Seq::new(
                ui::preset_limits().len(),
                |i: int| preset_row(ui::preset_limits()[i]),
            ),
            rows_of(rows@) == rows_of(old(rows)@) + all.take(i as int),
        decreases presets@.len() - i,
    {
        let number = text::decimal_text(presets[i] as u64);
        let id = text::text2(PRESET_PREFIX, number.as_str());
        let label = text::text2(number.as_str(), "%");
        let ghost before = rows_of(rows@);
        put(rows, Row::Check(CheckRow { id, text: label, checked: false }));
        assert(rows_of(rows@) =~= before.push(all[i as int]));
        assert((rows_of(old(rows)@) + all.take(i as int)).push(all[i as int]) =~= rows_of(
            old(rows)@,
        ) + all.take(i + 1));
        i = i + 1;
    }
    assert(all.take(i as int) =~= all);
}

/// Builds the menu as it is before the daemon answered for the first time.
pub fn build(login: bool, auto_update: bool) -> (r: Vec<Row>)
    ensures
        rows_of(r@) == menu_rows(login, auto_update),
{
    let mut rows: Vec<Row> = Vec::new();
    put(&mut rows, Row::Label(ui::summary(None)));
    put(&mut rows, Row::Separator);
    put(&mut rows, Row::Label(ui::limit_row(None)));
    put_presets(&mut rows);
    put_item(&mut rows, ID_CUSTOM, "Custom…");
    put(&mut rows, Row::Separator);
    put_check(&mut rows, ID_ENABLED, "Limit enabled", false);
    put_check(&mut rows, ID_DISCHARGE, "Discharge to limit", false);
    put_check(&mut rows, ID_TOP_UP, "Top up to 100% once", false);
    put(&mut rows, Row::Submenu { text: "MagSafe LED".to_string(), rows: led_submenu() });
    put_check(&mut rows, ID_LOGIN, "Launch at login", login);
    put(&mut rows, Row::Separator);
    put(&mut rows, Row::Label(ui::daemon_row(None)));
    put_item(&mut rows, ID_LOG, "Open log");
    put(&mut rows, Row::Separator);
    put(&mut rows, Row::Label(text::text2("chargecap ", CURRENT)));
    put_item(&mut rows, ID_UPDATE, "Check for updates…");
    put_check(&mut rows, ID_AUTO_UPDATE, "Check for updates automatically", auto_update);
    put(&mut rows, Row::Separator);
    put_item(&mut rows, ID_QUIT, "Quit");
    assert(rows_of(rows@) =~= menu_rows(login, auto_update));
    rows
}

// ---------------------------------------------------------------------------
// What the rows show for a status
// ---------------------------------------------------------------------------

/// Labels and checkmarks for a status.
#[derive(Debug, PartialEq, Eq)]
pub struct Look {
    /// The status-bar title.
    pub title: String,
    /// The first row, and the tooltip.
    pub summary: String,
    /// The "Charge limit" row.
    pub limit: String,
    /// The daemon row.
    pub daemon: String,
    /// The presets, and which is checked.
    pub presets: Vec<(u8, bool)>,
    /// "Limit enabled" is checked.
    pub enabled: bool,
    /// "Discharge to limit" is checked.
    pub discharge: bool,
    /// "Top up to 100% once" is checked.
    pub top_up: bool,
    /// The checked MagSafe LED row.
    pub magsafe_led: Option<MagsafeLedMode>,
    /// The rows that need the daemon can be clicked.
    pub live: bool,
}

/// A [`Look`] with its texts taken as characters.
pub struct LookView {
    pub title: Seq<char>,
    pub summary: Seq<char>,
    pub limit: Seq<char>,
    pub daemon: Seq<char>,
    pub presets: Seq<(u8, bool)>,
    pub enabled: bool,
    pub discharge: bool,
    pub top_up: bool,
    pub magsafe_led: Option<MagsafeLedMode>,
    pub live: bool,
}

impl View for Look {
    type V = LookView;

    open spec fn view(&self) -> LookView {
        LookView {
            title: self.title@,
            summary: self.summary@,
            limit: self.limit@,
            daemon: self.daemon@,
            presets: self.presets@,
            enabled: self.enabled,
            discharge: self.discharge,
            top_up: self.top_up,
            magsafe_led: self.magsafe_led,
            live: self.live,
        }
    }
}

/// The preset rows, with the one checked that is the limit.
pub open spec fn checked_presets(status: Option<StatusView>) -> Seq<(u8, bool)> {
    Seq::new(
        ui::preset_limits().len(),
        |i: int|
            (
                ui::preset_limits()[i],
                status is Some && status->0.upper == ui::preset_limits()[i],
            ),
    )
}

/// What the rows show for a status.
pub open spec fn look_of(status: Option<StatusView>) -> LookView {
    LookView {
        title: ui::title_of(status),
        summary: ui::summary_of(status),
        limit: ui::limit_row_of(status),
        daemon: ui::daemon_row_of(status),
        presets: checked_presets(status),
        enabled: status is Some && status->0.upper < MAX_UPPER,
        discharge: status is Some && !status->0.adapter_enabled,
        top_up: status is Some && status->0.top_up_active,
        magsafe_led: match status {
            Some(s) => Some(s.magsafe_led),
            None => None,
        },
        live: status is Some,
    }
}

fn check_presets(status: Option<&Status>) -> (r: Vec<(u8, bool)>)
    ensures
        r@ == checked_presets(ui::seen(status)),
{
    let presets = ui::presets();
    let mut out: Vec<(u8, bool)> = Vec::new();
    let mut i: usize = 0;
    while i < presets.len()
        invariant
            i <= presets@.len(),
            presets@ == ui::preset_limits(),
            out@ == checked_presets(ui::seen(status)).take(i as int),
        decreases presets@.len() - i,
    {
        let percent = presets[i];
        let checked = match status {
            Some(s) => s.upper == percent,
            None => false,
        };
        out.push((percent, checked));
        i = i + 1;
        assert(out@ =~= checked_presets(ui::seen(status)).take(i as int));
    }
    assert(out@ =~= checked_presets(ui::seen(status)));
    out
}

/// Returns every label and checkmark for `status`.
pub fn look(status: Option<&Status>) -> (r: Look)
    ensures
        r@ == look_of(ui::seen(status)),
{
    let title = ui::title(status);
    let summary = ui::summary(status);
    let limit = ui::limit_row(status);
    let daemon = ui::daemon_row(status);
    let presets = check_presets(status);
    match status {
        Some(s) => Look {
            title,
            summary,
            limit,
            daemon,
            presets,
            enabled: s.upper < MAX_UPPER,
            discharge: !s.adapter_enabled,
            top_up: s.top_up_active,
            magsafe_led: Some(s.magsafe_led),
            live: true,
        },
        None => Look {
            title,
            summary,
            limit,
            daemon,
            presets,
            enabled: false,
            discharge: false,
            top_up: false,
            magsafe_led: None,
            live: false,
        },
    }
}

/// What the update row shows.
#[derive(Debug, PartialEq, Eq)]
pub enum UpdateRow {
    Idle,
    Checking,
    Available(Version),
    Installing(Version),
}

/// An [`UpdateRow`] with its texts taken as characters.
pub enum UpdateRowView {
    Idle,
    Checking,
    Available(VersionView),
    Installing(VersionView),
}

impl View for UpdateRow {
    type V = UpdateRowView;

    open spec fn view(&self) -> UpdateRowView {
        match *self {
            UpdateRow::Idle => UpdateRowView::Idle,
            UpdateRow::Checking => UpdateRowView::Checking,
            UpdateRow::Available(version) => UpdateRowView::Available(version@),
            UpdateRow::Installing(version) => UpdateRowView::Installing(version@),
        }
    }
}

/// The text of the update row.
pub open spec fn update_label(row: UpdateRowView) -> Seq<char> {
    match row {
        UpdateRowView::Idle => "Check for updates…"@,
        UpdateRowView::Checking => "Checking for updates…"@,
        UpdateRowView::Available(version) => "Update to "@ + version::version_text(version)
            + "…"@,
        UpdateRowView::Installing(version) => "Installing "@ + version::version_text(version)
            + "…"@,
    }
}

/// The update row can be clicked.
pub open spec fn update_live(row: UpdateRowView) -> bool {
    row is Idle || row is Available
}

impl UpdateRow {
    /// Returns the text of the row, and whether it can be clicked.
    pub fn label(&self) -> (r: (String, bool))
        ensures
            r.0@ == update_label(self@),
            r.1 == update_live(self@),
    {
        match self {
            UpdateRow::Idle => ("Check for updates…".to_string(), true),
            UpdateRow::Checking => ("Checking for updates…".to_string(), false),
            UpdateRow::Available(version) => (
                text::text3("Update to ", version.text().as_str(), "…"),
                true,
            ),
            UpdateRow::Installing(version) => (
                text::text3("Installing ", version.text().as_str(), "…"),
                false,
            ),
        }
    }
}

// ---------------------------------------------------------------------------
// Every row has an action
// ---------------------------------------------------------------------------

/// The id of a preset row names that preset.
pub proof fn preset_ids_round_trip(percent: u8)
    ensures
        action_of(PRESET_PREFIX@ + text::decimal(percent as nat)) == Some(
            Action::Preset(percent),
        ),
{
    let id = PRESET_PREFIX@ + text::decimal(percent as nat);
    text::lemma_decimal(percent as nat);
    assert(id.take(PRESET_PREFIX@.len() as int) =~= PRESET_PREFIX@);
    assert(id.skip(PRESET_PREFIX@.len() as int) =~= text::decimal(percent as nat));
}

/// The id of a MagSafe LED row names that mode.
pub proof fn led_ids_round_trip()
    ensures
        action_of(MAGSAFE_PREFIX@ + "system"@) == Some(
            Action::SetMagsafeLed(MagsafeLedMode::System),
        ),
        action_of(MAGSAFE_PREFIX@ + "off"@) == Some(Action::SetMagsafeLed(MagsafeLedMode::Off)),
        action_of(MAGSAFE_PREFIX@ + "reflect"@) == Some(
            Action::SetMagsafeLed(MagsafeLedMode::Reflect),
        ),
{
    reveal_strlit("preset:");
    reveal_strlit("magsafe:");
    reveal_strlit("system");
    reveal_strlit("off");
    reveal_strlit("reflect");
    lemma_led_id("system"@);
    lemma_led_id("off"@);
    lemma_led_id("reflect"@);
    assert("off"@ != "system"@) by {
        assert("off"@.len() != "system"@.len());
    }
    assert("reflect"@ != "system"@) by {
        assert("reflect"@.len() != "system"@.len());
    }
    assert("reflect"@ != "off"@) by {
        assert("reflect"@.len() != "off"@.len());
    }
}

proof fn lemma_led_id(name: Seq<char>)
    requires
        MAGSAFE_PREFIX@.len() > 0,
        PRESET_PREFIX@.len() > 0,
        MAGSAFE_PREFIX@[0] != PRESET_PREFIX@[0],
    ensures
        !text::has_prefix(MAGSAFE_PREFIX@ + name, PRESET_PREFIX@),
        text::has_prefix(MAGSAFE_PREFIX@ + name, MAGSAFE_PREFIX@),
        (MAGSAFE_PREFIX@ + name).skip(MAGSAFE_PREFIX@.len() as int) == name,
{
    let id = MAGSAFE_PREFIX@ + name;
    assert(id.take(MAGSAFE_PREFIX@.len() as int) =~= MAGSAFE_PREFIX@);
    assert(id.skip(MAGSAFE_PREFIX@.len() as int) =~= name);
    if text::has_prefix(id, PRESET_PREFIX@) {
        assert(id.take(PRESET_PREFIX@.len() as int)[0] == PRESET_PREFIX@[0]);
    }
}

/// The id of every other row names its action.
pub proof fn plain_ids_round_trip()
    ensures
        action_of(ID_CUSTOM@) == Some(Action::Custom),
        action_of(ID_ENABLED@) == Some(Action::ToggleEnabled),
        action_of(ID_DISCHARGE@) == Some(Action::ToggleDischarge),
        action_of(ID_TOP_UP@) == Some(Action::ToggleTopUp),
        action_of(ID_LOGIN@) == Some(Action::ToggleLogin),
        action_of(ID_LOG@) == Some(Action::OpenLog),
        action_of(ID_UPDATE@) == Some(Action::Update),
        action_of(ID_AUTO_UPDATE@) == Some(Action::ToggleAutoUpdate),
        action_of(ID_QUIT@) == Some(Action::Quit),
{
    reveal_strlit("preset:");
    reveal_strlit("magsafe:");
    reveal_strlit("custom");
    reveal_strlit("enabled");
    reveal_strlit("discharge");
    reveal_strlit("top_up");
    reveal_strlit("login");
    reveal_strlit("log");
    reveal_strlit("update");
    reveal_strlit("auto_update");
    reveal_strlit("quit");
    lemma_plain_id(ID_CUSTOM@);
    lemma_plain_id(ID_ENABLED@);
    lemma_plain_id(ID_DISCHARGE@);
    lemma_plain_id(ID_TOP_UP@);
    lemma_plain_id(ID_LOGIN@);
    lemma_plain_id(ID_LOG@);
    lemma_plain_id(ID_UPDATE@);
    lemma_plain_id(ID_AUTO_UPDATE@);
    lemma_plain_id(ID_QUIT@);
    assert(ID_ENABLED@[0] != ID_CUSTOM@[0]);
    assert(ID_DISCHARGE@[0] != ID_CUSTOM@[0] && ID_DISCHARGE@[0] != ID_ENABLED@[0]);
    assert(ID_TOP_UP@[0] == 't' && ID_LOGIN@[0] == 'l' && ID_LOG@[0] == 'l');
    assert(ID_LOGIN@.len() != ID_LOG@.len());
    assert(ID_UPDATE@[0] == 'u' && ID_AUTO_UPDATE@[0] == 'a' && ID_QUIT@[0] == 'q');
}

proof fn lemma_plain_id(id: Seq<char>)
    requires
        id.len() > 0,
        PRESET_PREFIX@.len() > 0,
        MAGSAFE_PREFIX@.len() > 0,
        id[0] != PRESET_PREFIX@[0],
        id[0] != MAGSAFE_PREFIX@[0],
    ensures
        action_of(id) == plain_action(id),
{
    if text::has_prefix(id, PRESET_PREFIX@) {
        assert(id.take(PRESET_PREFIX@.len() as int)[0] == PRESET_PREFIX@[0]);
    }
    if text::has_prefix(id, MAGSAFE_PREFIX@) {
        assert(id.take(MAGSAFE_PREFIX@.len() as int)[0] == MAGSAFE_PREFIX@[0]);
    }
}

} // verus!
