//! The event loop of the menu-bar app: its state, and what each event asks to
//! be done.

use crate::menubar::menu::{self, Action, Effect, EffectView, UpdateRow, UpdateRowView};
use crate::menubar::state::AppState;
use crate::menubar::ui;
use crate::menubar::update::{
    self, installs_in_place, Release, ReleaseView, APP_PATH, CHECK_INTERVAL, CURRENT,
};
use crate::menubar::version;
use crate::proto::{Status, StatusView, MAX_UPPER};
use crate::text;
use vstd::prelude::*;

verus! {

/// How often the status is asked for, in seconds.
pub const POLL_INTERVAL: u64 = 5;

/// A question about a release.
#[derive(Debug, PartialEq, Eq)]
pub struct Offer {
    pub title: String,
    pub text: String,
    /// The button that says yes.
    pub button: String,
}

/// An [`Offer`] with its texts taken as characters.
pub struct OfferView {
    pub title: Seq<char>,
    pub text: Seq<char>,
    pub button: Seq<char>,
}

impl View for Offer {
    type V = OfferView;

    open spec fn view(&self) -> OfferView {
        OfferView { title: self.title@, text: self.text@, button: self.button@ }
    }
}

/// One thing to be done.
#[derive(Debug, PartialEq, Eq)]
pub enum Task {
    /// Rewrite every label and checkmark for the latest status.
    Show,
    /// Rewrite the update row.
    ShowUpdate(UpdateRow),
    /// Rewrite the checkmark of the automatic update check.
    ShowAutoUpdate(bool),
    /// Save the app state.
    SaveState,
    /// Ask GitHub for a newer release, on a worker thread.
    Check { manual: bool },
    /// Ask the user, and hand the answer to [`Session::answer`].
    Ask(Offer),
    /// Download and install this release, on a worker thread.
    Install(Release),
    /// Open this page in the browser.
    OpenPage(String),
    /// Tell the user something.
    Notice { title: String, text: String },
    /// Show this error.
    Alert(String),
    /// Write this line to standard error.
    Log(String),
    /// Do what a click leads to.
    Click(Effect),
    /// Ask the daemon for its status right away.
    Poll,
    /// Leave the event loop.
    Exit,
}

/// A [`Task`] with its texts taken as characters.
pub enum TaskView {
    Show,
    ShowUpdate(UpdateRowView),
    ShowAutoUpdate(bool),
    SaveState,
    Check { manual: bool },
    Ask(OfferView),
    Install(ReleaseView),
    OpenPage(Seq<char>),
    Notice { title: Seq<char>, text: Seq<char> },
    Alert(Seq<char>),
    Log(Seq<char>),
    Click(EffectView),
    Poll,
    Exit,
}

impl View for Task {
    type V = TaskView;

    open spec fn view(&self) -> TaskView {
        match *self {
            Task::Show => TaskView::Show,
            Task::ShowUpdate(row) => TaskView::ShowUpdate(row@),
            Task::ShowAutoUpdate(on) => TaskView::ShowAutoUpdate(on),
            Task::SaveState => TaskView::SaveState,
            Task::Check { manual } => TaskView::Check { manual },
            Task::Ask(offer) => TaskView::Ask(offer@),
            Task::Install(release) => TaskView::Install(release@),
            Task::OpenPage(url) => TaskView::OpenPage(url@),
            Task::Notice { title, text } => TaskView::Notice { title: title@, text: text@ },
            Task::Alert(message) => TaskView::Alert(message@),
            Task::Log(line) => TaskView::Log(line@),
            Task::Click(effect) => TaskView::Click(effect@),
            Task::Poll => TaskView::Poll,
            Task::Exit => TaskView::Exit,
        }
    }
}

/// Tasks, each by its view.
pub open spec fn tasks_of(tasks: Seq<Task>) -> Seq<TaskView> {
    Seq::new(tasks.len(), |i: int| tasks[i]@)
}

/// The state of the app.
#[derive(Debug)]
pub struct Session {
    latest: Option<Status>,
    available: Option<Release>,
    checking: bool,
    installing: bool,
    state: AppState,
    exe: String,
}

/// The state of a [`Session`].
pub struct SessionView {
    /// The status that the daemon answered last, where it did.
    pub latest: Option<StatusView>,
    /// The release that was found.
    pub available: Option<ReleaseView>,
    /// An update check runs.
    pub checking: bool,
    /// An install runs.
    pub installing: bool,
    /// What is kept on disk.
    pub state: AppState,
    /// The binary of the app.
    pub exe: Seq<char>,
}

impl View for Session {
    type V = SessionView;

    closed spec fn view(&self) -> SessionView {
        SessionView {
            latest: match self.latest {
                Some(status) => Some(status@),
                None => None,
            },
            available: match self.available {
                Some(release) => Some(release@),
                None => None,
            },
            checking: self.checking,
            installing: self.installing,
            state: self.state,
            exe: self.exe@,
        }
    }
}

/// The state after an event, and what is to be done.
pub struct Turn {
    pub next: SessionView,
    pub tasks: Seq<TaskView>,
}

// ---------------------------------------------------------------------------
// What each event asks for
// ---------------------------------------------------------------------------

/// An automatic update check is due: they are on, none runs and nothing was
/// found, and the last one is long enough ago.
pub open spec fn check_due(s: SessionView, now: u64) -> bool {
    &&& s.state.check_updates
    &&& !s.checking
    &&& !s.installing
    &&& s.available is None
    &&& now >= s.state.last_update_check + CHECK_INTERVAL
}

/// A status came in, or none did. This is also when automatic update checks
/// start.
pub open spec fn status_turn(s: SessionView, status: Option<StatusView>, now: u64) -> Turn {
    let s1 = SessionView { latest: status, ..s };
    if check_due(s, now) {
        Turn {
            next: SessionView {
                checking: true,
                state: AppState { last_update_check: now, ..s.state },
                ..s1
            },
            tasks: seq![
                TaskView::Show,
                TaskView::SaveState,
                TaskView::ShowUpdate(UpdateRowView::Checking),
                TaskView::Check { manual: false },
            ],
        }
    } else {
        Turn { next: s1, tasks: seq![TaskView::Show] }
    }
}

/// A release replaces the app where it is: it has a disk image, and the app
/// runs from the place that it is installed to.
pub open spec fn in_place(release: ReleaseView, exe: Seq<char>) -> bool {
    release.dmg_url is Some && update::bundle_around(exe) == Some(APP_PATH@)
}

/// The question about a release: to install it, or else to open its page.
pub open spec fn offer_of(release: ReleaseView, exe: Seq<char>) -> OfferView {
    let title = "chargecap "@ + version::version_text(release.version) + " is available"@;
    if in_place(release, exe) {
        OfferView {
            title,
            text: "You have "@ + CURRENT@
                + ". The update downloads the new version, replaces the app in Applications, and asks for your password once to update the background helper. chargecap restarts when it is done."@,
            button: "Install and restart"@,
        }
    } else {
        OfferView { title, text: "Open the release page to download it?"@, button: "Open page"@ }
    }
}

/// An update check finished. Only a check that the user asked for says more
/// than the update row.
pub open spec fn check_turn(
    s: SessionView,
    result: Result<Option<ReleaseView>, Seq<char>>,
    manual: bool,
) -> Turn {
    let s1 = SessionView { checking: false, ..s };
    match result {
        Ok(Some(release)) => {
            let row = TaskView::ShowUpdate(UpdateRowView::Available(release.version));
            Turn {
                next: SessionView { available: Some(release), ..s1 },
                tasks: if manual {
                    seq![row, TaskView::Ask(offer_of(release, s.exe))]
                } else {
                    seq![row]
                },
            }
        },
        Ok(None) => Turn {
            next: s1,
            tasks: if manual {
                seq![
                    TaskView::ShowUpdate(UpdateRowView::Idle),
                    TaskView::Notice {
                        title: "You are up to date"@,
                        text: "chargecap "@ + CURRENT@ + " is the newest version."@,
                    },
                ]
            } else {
                seq![TaskView::ShowUpdate(UpdateRowView::Idle)]
            },
        },
        Err(message) => Turn {
            next: s1,
            tasks: seq![
                TaskView::ShowUpdate(UpdateRowView::Idle),
                if manual {
                    TaskView::Alert("Cannot check for updates. "@ + message)
                } else {
                    TaskView::Log("chargecap: update check failed: "@ + message)
                },
            ],
        },
    }
}

/// The user answered the question about the release that was found.
pub open spec fn answer_turn(s: SessionView, yes: bool) -> Turn {
    match s.available {
        Some(release) => if !yes {
            Turn { next: s, tasks: Seq::empty() }
        } else if in_place(release, s.exe) {
            Turn {
                next: SessionView { installing: true, ..s },
                tasks: seq![
                    TaskView::ShowUpdate(UpdateRowView::Installing(release.version)),
                    TaskView::Install(release),
                ],
            }
        } else {
            Turn { next: s, tasks: seq![TaskView::OpenPage(release.page_url)] }
        },
        None => Turn { next: s, tasks: Seq::empty() },
    }
}

/// An install finished. The new instance is starting then, so this one steps
/// aside.
pub open spec fn install_turn(s: SessionView, result: Result<(), Seq<char>>) -> Turn {
    let s1 = SessionView { installing: false, ..s };
    match result {
        Ok(_) => Turn { next: s1, tasks: seq![TaskView::Exit] },
        Err(message) => Turn {
            next: s1,
            tasks: seq![
                TaskView::ShowUpdate(
                    match s.available {
                        Some(release) => UpdateRowView::Available(release.version),
                        None => UpdateRowView::Idle,
                    },
                ),
                TaskView::Alert("The update did not finish. "@ + message),
            ],
        },
    }
}

/// What a click leads to, and a poll after it. A question for a limit is
/// followed by a poll only once it is answered.
pub open spec fn click_tasks(effect: EffectView) -> Seq<TaskView> {
    if effect is AskLimit {
        seq![TaskView::Click(effect)]
    } else {
        seq![TaskView::Click(effect), TaskView::Poll]
    }
}

/// A menu row was clicked.
pub open spec fn menu_turn(s: SessionView, id: Seq<char>) -> Turn {
    match menu::action_of(id) {
        None => Turn { next: s, tasks: Seq::empty() },
        Some(Action::Quit) => Turn { next: s, tasks: seq![TaskView::Exit] },
        Some(Action::Update) => if s.checking || s.installing {
            Turn { next: s, tasks: Seq::empty() }
        } else {
            match s.available {
                Some(release) => Turn {
                    next: s,
                    tasks: seq![TaskView::Ask(offer_of(release, s.exe))],
                },
                None => Turn {
                    next: SessionView { checking: true, ..s },
                    tasks: seq![
                        TaskView::ShowUpdate(UpdateRowView::Checking),
                        TaskView::Check { manual: true },
                    ],
                },
            }
        },
        Some(Action::ToggleAutoUpdate) => {
            let on = !s.state.check_updates;
            Turn {
                next: SessionView { state: AppState { check_updates: on, ..s.state }, ..s },
                tasks: seq![TaskView::ShowAutoUpdate(on), TaskView::SaveState],
            }
        },
        Some(action) => Turn {
            next: s,
            tasks: click_tasks(menu::effect_of(action, s.latest, s.state.last_upper)),
        },
    }
}

/// The daemon replied to a limit. A real limit that it accepted is remembered.
pub open spec fn limit_turn(s: SessionView, upper: u8, result: Result<(), Seq<char>>) -> Turn {
    match result {
        Ok(_) => if upper < MAX_UPPER && s.state.last_upper != upper {
            Turn {
                next: SessionView { state: AppState { last_upper: upper, ..s.state }, ..s },
                tasks: seq![TaskView::SaveState],
            }
        } else {
            Turn { next: s, tasks: Seq::empty() }
        },
        Err(message) => Turn { next: s, tasks: seq![TaskView::Alert(message)] },
    }
}

// ---------------------------------------------------------------------------
// The session
// ---------------------------------------------------------------------------

/// The result of an update check, taken by its view.
pub open spec fn found(r: Result<Option<Release>, String>) -> Result<
    Option<ReleaseView>,
    Seq<char>,
> {
    match r {
        Ok(Some(release)) => Ok(Some(release@)),
        Ok(None) => Ok(None),
        Err(message) => Err(message@),
    }
}

fn one(task: Task) -> (r: Vec<Task>)
    ensures
        tasks_of(r@) == seq![task@],
{
    let mut tasks: Vec<Task> = Vec::new();
    tasks.push(task);
    assert(tasks_of(tasks@) =~= seq![task@]);
    tasks
}

fn two(first: Task, second: Task) -> (r: Vec<Task>)
    ensures
        tasks_of(r@) == seq![first@, second@],
{
    let mut tasks: Vec<Task> = Vec::new();
    tasks.push(first);
    tasks.push(second);
    assert(tasks_of(tasks@) =~= seq![first@, second@]);
    tasks
}

fn none() -> (r: Vec<Task>)
    ensures
        tasks_of(r@) == Seq::<TaskView>::empty(),
{
    let tasks: Vec<Task> = Vec::new();
    assert(tasks_of(tasks@) =~= Seq::<TaskView>::empty());
    tasks
}

/// Returns the question about `release`.
pub fn offer(release: &Release, exe: &str) -> (r: Offer)
    ensures
        r@ == offer_of(release@, exe@),
{
    let title = text::text3("chargecap ", release.version.text().as_str(), " is available");
    if installs_in_place(release, exe) {
        let text = text::text3(
            "You have ",
            CURRENT,
            ". The update downloads the new version, replaces the app in Applications, and asks for your password once to update the background helper. chargecap restarts when it is done.",
        );
        Offer { title, text, button: "Install and restart".to_string() }
    } else {
        Offer {
            title,
            text: "Open the release page to download it?".to_string(),
            button: "Open page".to_string(),
        }
    }
}

impl Session {
    /// Starts with what was kept on disk, for the app whose binary is `exe`.
    pub fn new(state: AppState, exe: String) -> (r: Self)
        ensures
            r@ == (SessionView {
                latest: None,
                available: None,
                checking: false,
                installing: false,
                state,
                exe: exe@,
            }),
    {
        Session { latest: None, available: None, checking: false, installing: false, state, exe }
    }

    /// The latest status, where the daemon answered.
    pub fn latest(&self) -> (r: Option<&Status>)
        ensures
            ui::seen(r) == self@.latest,
    {
        match &self.latest {
            Some(status) => Some(status),
            None => None,
        }
    }

    /// What is kept on disk.
    pub fn state(&self) -> (r: AppState)
        ensures
            r == self@.state,
    {
        self.state
    }

    /// Takes a status, or that the daemon did not answer, `now` seconds after
    /// the Unix epoch.
    pub fn on_status(&mut self, status: Option<Status>, now: u64) -> (r: Vec<Task>)
        ensures
            ({
                let turn = status_turn(
                    old(self)@,
                    match status {
                        Some(status) => Some(status@),
                        None => None,
                    },
                    now,
                );
                &&& final(self)@ == turn.next
                &&& tasks_of(r@) == turn.tasks
            }),
    {
        let due = self.state.check_updates && !self.checking && !self.installing
            && self.available.is_none() && now >= self.state.last_update_check && now
            - self.state.last_update_check >= CHECK_INTERVAL;
        self.latest = status;
        if due {
            self.state.last_update_check = now;
            self.checking = true;
            let mut tasks: Vec<Task> = Vec::new();
            tasks.push(Task::Show);
            tasks.push(Task::SaveState);
            tasks.push(Task::ShowUpdate(UpdateRow::Checking));
            tasks.push(Task::Check { manual: false });
            assert(tasks_of(tasks@) =~= seq![
                TaskView::Show,
                TaskView::SaveState,
                TaskView::ShowUpdate(UpdateRowView::Checking),
                TaskView::Check { manual: false },
            ]);
            tasks
        } else {
            one(Task::Show)
        }
    }

    /// Takes the result of an update check. `manual` is true when the user
    /// asked for it.
    pub fn on_check(&mut self, result: Result<Option<Release>, String>, manual: bool) -> (r: Vec<
        Task,
    >)
        ensures
            ({
                let turn = check_turn(old(self)@, found(result), manual);
                &&& final(self)@ == turn.next
                &&& tasks_of(r@) == turn.tasks
            }),
    {
        self.checking = false;
        match result {
            Ok(Some(release)) => {
                let row = Task::ShowUpdate(UpdateRow::Available(release.version.clone()));
                let question = offer(&release, self.exe.as_str());
                self.available = Some(release);
                if manual {
                    two(row, Task::Ask(question))
                } else {
                    one(row)
                }
            },
            Ok(None) => {
                let row = Task::ShowUpdate(UpdateRow::Idle);
                if manual {
                    let text = text::text3("chargecap ", CURRENT, " is the newest version.");
                    two(row, Task::Notice { title: "You are up to date".to_string(), text })
                } else {
                    one(row)
                }
            },
            Err(message) => {
                let row = Task::ShowUpdate(UpdateRow::Idle);
                if manual {
                    two(
                        row,
                        Task::Alert(text::text2("Cannot check for updates. ", message.as_str())),
                    )
                } else {
                    two(
                        row,
                        Task::Log(
                            text::text2("chargecap: update check failed: ", message.as_str()),
                        ),
                    )
                }
            },
        }
    }

    /// Takes the user's answer to the question about the release that was
    /// found.
    pub fn answer(&mut self, yes: bool) -> (r: Vec<Task>)
        ensures
            ({
                let turn = answer_turn(old(self)@, yes);
                &&& final(self)@ == turn.next
                &&& tasks_of(r@) == turn.tasks
            }),
    {
        let release = match &self.available {
            Some(release) => release.clone(),
            None => return none(),
        };
        if !yes {
            return none();
        }
        if installs_in_place(&release, self.exe.as_str()) {
            self.installing = true;
            two(
                Task::ShowUpdate(UpdateRow::Installing(release.version.clone())),
                Task::Install(release),
            )
        } else {
            one(Task::OpenPage(release.page_url))
        }
    }

    /// Takes the result of an install.
    pub fn on_install(&mut self, result: Result<(), String>) -> (r: Vec<Task>)
        ensures
            ({
                let turn = install_turn(old(self)@, text::told(result));
                &&& final(self)@ == turn.next
                &&& tasks_of(r@) == turn.tasks
            }),
    {
        self.installing = false;
        match result {
            Ok(_) => one(Task::Exit),
            Err(message) => {
                let row = match &self.available {
                    Some(release) => UpdateRow::Available(release.version.clone()),
                    None => UpdateRow::Idle,
                };
                two(
                    Task::ShowUpdate(row),
                    Task::Alert(text::text2("The update did not finish. ", message.as_str())),
                )
            },
        }
    }

    /// Takes a click on the menu row `id`.
    pub fn on_menu(&mut self, id: &str) -> (r: Vec<Task>)
        ensures
            ({
                let turn = menu_turn(old(self)@, id@);
                &&& final(self)@ == turn.next
                &&& tasks_of(r@) == turn.tasks
            }),
    {
        let action = match Action::from_id(id) {
            Some(action) => action,
            None => return none(),
        };
        match action {
            Action::Quit => one(Task::Exit),
            Action::Update => {
                if self.checking || self.installing {
                    return none();
                }
                match &self.available {
                    Some(release) => one(Task::Ask(offer(release, self.exe.as_str()))),
                    None => {
                        self.checking = true;
                        two(
                            Task::ShowUpdate(UpdateRow::Checking),
                            Task::Check { manual: true },
                        )
                    },
                }
            },
            Action::ToggleAutoUpdate => {
                self.state.check_updates = !self.state.check_updates;
                two(Task::ShowAutoUpdate(self.state.check_updates), Task::SaveState)
            },
            _ => click(menu::handle(action, self.latest(), self.state.last_upper)),
        }
    }

    /// Takes the text from the "Custom…" dialog.
    pub fn on_custom(&self, text: &str) -> (r: Vec<Task>)
        ensures
            tasks_of(r@) == click_tasks(menu::custom_effect(text@)),
    {
        click(menu::handle_custom(text))
    }

    /// Takes the daemon's reply to the limit `upper`, and remembers the choice
    /// when it is a real limit.
    pub fn on_limit(&mut self, upper: u8, result: Result<(), String>) -> (r: Vec<Task>)
        ensures
            ({
                let turn = limit_turn(old(self)@, upper, text::told(result));
                &&& final(self)@ == turn.next
                &&& tasks_of(r@) == turn.tasks
            }),
    {
        match result {
            Ok(_) => {
                if upper < MAX_UPPER && self.state.last_upper != upper {
                    self.state.last_upper = upper;
                    one(Task::SaveState)
                } else {
                    none()
                }
            },
            Err(message) => one(Task::Alert(message)),
        }
    }
}

fn click(effect: Effect) -> (r: Vec<Task>)
    ensures
        tasks_of(r@) == click_tasks(effect@),
{
    let asks = match &effect {
        Effect::AskLimit(_) => true,
        _ => false,
    };
    if asks {
        one(Task::Click(effect))
    } else {
        two(Task::Click(effect), Task::Poll)
    }
}

// ---------------------------------------------------------------------------
// Laws
// ---------------------------------------------------------------------------

/// An update check is among the tasks.
pub open spec fn starts_check(turn: Turn) -> bool {
    exists|i: int| 0 <= i < turn.tasks.len() && (#[trigger] turn.tasks[i]) is Check
}

/// An install is among the tasks.
pub open spec fn starts_install(turn: Turn) -> bool {
    exists|i: int| 0 <= i < turn.tasks.len() && (#[trigger] turn.tasks[i]) is Install
}

/// A check starts only while no check and no install runs, and nothing was
/// found yet; and then one runs.
pub proof fn one_check_at_a_time(
    s: SessionView,
    status: Option<StatusView>,
    now: u64,
    id: Seq<char>,
)
    ensures
        starts_check(status_turn(s, status, now)) ==> {
            &&& !s.checking && !s.installing && s.available is None
            &&& status_turn(s, status, now).next.checking
        },
        starts_check(menu_turn(s, id)) ==> {
            &&& !s.checking && !s.installing && s.available is None
            &&& menu_turn(s, id).next.checking
        },
{
}

/// Automatic checks come no more often than once in an interval, and only
/// where they are on.
pub proof fn automatic_checks_keep_their_distance(
    s: SessionView,
    first: Option<StatusView>,
    now: u64,
    second: Option<StatusView>,
    later: u64,
    between: SessionView,
)
    requires
        starts_check(status_turn(s, first, now)),
        between.state == status_turn(s, first, now).next.state,
        starts_check(status_turn(between, second, later)),
    ensures
        later >= now + CHECK_INTERVAL,
        s.state.check_updates,
{
}

/// Nothing is installed that the user did not say yes to, and nothing where
/// the app does not live in its place.
pub proof fn installs_need_a_yes(s: SessionView, yes: bool)
    ensures
        starts_install(answer_turn(s, yes)) ==> {
            &&& yes
            &&& s.available is Some
            &&& in_place(s.available->0, s.exe)
            &&& answer_turn(s, yes).next.installing
        },
{
}

/// The limit that "Limit enabled" restores is a real limit: one that the user
/// chose and the daemon accepted, or the one from before.
pub proof fn the_remembered_limit_is_a_limit(
    s: SessionView,
    upper: u8,
    result: Result<(), Seq<char>>,
)
    requires
        s.state.last_upper < MAX_UPPER,
    ensures
        limit_turn(s, upper, result).next.state.last_upper < MAX_UPPER,
        result is Ok && upper < MAX_UPPER ==> limit_turn(s, upper, result).next.state.last_upper
            == upper,
        result is Err ==> limit_turn(s, upper, result).next == s,
{
}

/// A status is shown as it came, and that none came too. An automatic check
/// starts if and only if it is due: they are on, a day went by since the last
/// one, none runs, no install does, and nothing was found. Then it is not asked
/// for by the user, it runs, and its time is kept and saved.
pub proof fn a_status_is_shown(s: SessionView, status: Option<StatusView>, now: u64)
    ensures
        ({
            let turn = status_turn(s, status, now);
            let due = s.state.check_updates && !s.checking && !s.installing && s.available is None
                && now >= s.state.last_update_check + 86_400;
            &&& turn.next.latest == status
            &&& turn.tasks[0] is Show
            &&& starts_check(turn) <==> due
            &&& due ==> {
                &&& turn.tasks.contains(TaskView::Check { manual: false })
                &&& turn.tasks.contains(TaskView::SaveState)
                &&& turn.next.checking
                &&& turn.next.state.last_update_check == now
            }
            &&& !due ==> {
                &&& turn.tasks.len() == 1
                &&& turn.next.checking == s.checking
                &&& turn.next.state == s.state
            }
            &&& turn.next.state.last_upper == s.state.last_upper
            &&& turn.next.state.check_updates == s.state.check_updates
            &&& turn.next.available == s.available
            &&& turn.next.installing == s.installing
            &&& turn.next.exe == s.exe
        }),
{
    let turn = status_turn(s, status, now);
    if check_due(s, now) {
        assert(turn.tasks[1] is SaveState);
        assert(turn.tasks[3] is Check);
        assert(turn.tasks[3] == (TaskView::Check { manual: false }));
    } else {
        assert(turn.tasks[0] is Show);
    }
}

/// A check that finished no longer runs. What it found is kept, and shown in the
/// update row; only a user who asked for the check is asked about it. Without a
/// find, what was found before stays, and only a user who asked is told; an
/// automatic check that failed goes to the log.
pub proof fn a_check_says_what_it_found(
    s: SessionView,
    result: Result<Option<ReleaseView>, Seq<char>>,
    manual: bool,
)
    ensures
        ({
            let turn = check_turn(s, result, manual);
            &&& !turn.next.checking
            &&& turn.next.installing == s.installing
            &&& turn.next.state == s.state
            &&& turn.next.latest == s.latest
            &&& match result {
                Ok(Some(release)) => {
                    &&& turn.next.available == Some(release)
                    &&& turn.tasks[0] == TaskView::ShowUpdate(
                        UpdateRowView::Available(release.version),
                    )
                    &&& manual ==> turn.tasks.len() == 2 && turn.tasks[1] == TaskView::Ask(
                        offer_of(release, s.exe),
                    )
                    &&& !manual ==> turn.tasks.len() == 1
                },
                Ok(None) => {
                    &&& turn.next.available == s.available
                    &&& turn.tasks[0] == TaskView::ShowUpdate(UpdateRowView::Idle)
                    &&& manual ==> turn.tasks.len() == 2 && turn.tasks[1] is Notice
                    &&& !manual ==> turn.tasks.len() == 1
                },
                Err(message) => {
                    &&& turn.next.available == s.available
                    &&& turn.tasks.len() == 2
                    &&& turn.tasks[0] == TaskView::ShowUpdate(UpdateRowView::Idle)
                    &&& manual ==> turn.tasks[1] == TaskView::Alert(
                        "Cannot check for updates. "@ + message,
                    )
                    &&& !manual ==> turn.tasks[1] == TaskView::Log(
                        "chargecap: update check failed: "@ + message,
                    )
                },
            }
        }),
{
}

/// A yes installs the release that was found where it can replace the app in
/// `/Applications`, and opens its page otherwise. A no does nothing, and neither
/// does an answer without a release.
pub proof fn a_yes_gets_the_release(s: SessionView, yes: bool)
    ensures
        ({
            let turn = answer_turn(s, yes);
            match s.available {
                Some(release) => {
                    let replaces = release.dmg_url is Some && update::bundle_around(s.exe) == Some(
                        "/Applications/chargecap.app"@,
                    );
                    &&& !yes ==> turn.tasks.len() == 0 && turn.next == s
                    &&& yes && replaces ==> {
                        &&& turn.tasks.len() == 2
                        &&& turn.tasks[0] == TaskView::ShowUpdate(
                            UpdateRowView::Installing(release.version),
                        )
                        &&& turn.tasks[1] == TaskView::Install(release)
                        &&& turn.next == (SessionView { installing: true, ..s })
                    }
                    &&& yes && !replaces ==> {
                        &&& turn.tasks.len() == 1
                        &&& turn.tasks[0] == TaskView::OpenPage(release.page_url)
                        &&& turn.next == s
                    }
                },
                None => turn.tasks.len() == 0 && turn.next == s,
            }
        }),
{
}

/// The question about a release names its version, and its button says what a
/// yes does.
pub proof fn the_question_says_what_a_yes_does(release: ReleaseView, s: SessionView)
    requires
        s.available == Some(release),
    ensures
        ({
            let offer = offer_of(release, s.exe);
            &&& offer.title == "chargecap "@ + version::version_text(release.version)
                + " is available"@
            &&& starts_install(answer_turn(s, true)) ==> offer.button == "Install and restart"@
            &&& !starts_install(answer_turn(s, true)) ==> offer.button == "Open page"@
        }),
{
    let turn = answer_turn(s, true);
    if in_place(release, s.exe) {
        assert(turn.tasks[1] is Install);
    } else {
        assert(turn.tasks.len() == 1 && turn.tasks[0] is OpenPage);
    }
}

/// An install that finished ends this instance; one that failed is told, the
/// release stays on offer, and another can start.
pub proof fn an_install_ends_one_way_or_the_other(s: SessionView, result: Result<(), Seq<char>>)
    ensures
        ({
            let turn = install_turn(s, result);
            &&& turn.next == (SessionView { installing: false, ..s })
            &&& result is Ok ==> turn.tasks == seq![TaskView::Exit]
            &&& result matches Err(message) ==> {
                &&& turn.tasks.len() == 2
                &&& turn.tasks[1] == TaskView::Alert("The update did not finish. "@ + message)
                &&& s.available is None ==> turn.tasks[0] == TaskView::ShowUpdate(
                    UpdateRowView::Idle,
                )
                &&& s.available matches Some(release) ==> turn.tasks[0] == TaskView::ShowUpdate(
                    UpdateRowView::Available(release.version),
                )
            }
        }),
{
}

/// A click on a row. "Quit" leaves. The update row does nothing while a check or
/// an install runs; otherwise it asks about the release that was found, or
/// starts a check for the user. The row for automatic checks switches them and
/// saves that. Every other row leads to its effect, and changes nothing here.
pub proof fn a_click_does_one_thing(s: SessionView, id: Seq<char>)
    ensures
        ({
            let turn = menu_turn(s, id);
            match menu::action_of(id) {
                None => turn.tasks.len() == 0 && turn.next == s,
                Some(Action::Quit) => turn.tasks == seq![TaskView::Exit] && turn.next == s,
                Some(Action::Update) => {
                    &&& s.checking || s.installing ==> turn.tasks.len() == 0 && turn.next == s
                    &&& !s.checking && !s.installing && s.available is Some ==> {
                        &&& turn.tasks == seq![TaskView::Ask(offer_of(s.available->0, s.exe))]
                        &&& turn.next == s
                    }
                    &&& !s.checking && !s.installing && s.available is None ==> {
                        &&& turn.tasks == seq![
                            TaskView::ShowUpdate(UpdateRowView::Checking),
                            TaskView::Check { manual: true },
                        ]
                        &&& turn.next == (SessionView { checking: true, ..s })
                    }
                },
                Some(Action::ToggleAutoUpdate) => {
                    &&& turn.next.state.check_updates == !s.state.check_updates
                    &&& turn.next.state.last_upper == s.state.last_upper
                    &&& turn.next.state.last_update_check == s.state.last_update_check
                    &&& turn.tasks == seq![
                        TaskView::ShowAutoUpdate(!s.state.check_updates),
                        TaskView::SaveState,
                    ]
                    &&& menu_turn(turn.next, id).next == s
                },
                Some(action) => {
                    let effect = menu::effect_of(action, s.latest, s.state.last_upper);
                    &&& turn.next == s
                    &&& turn.tasks[0] == TaskView::Click(effect)
                    &&& effect is AskLimit ==> turn.tasks.len() == 1
                    &&& !(effect is AskLimit) ==> turn.tasks.len() == 2 && turn.tasks[1] is Poll
                },
            }
        }),
{
}

/// A limit that the daemon accepted is remembered if and only if it is below
/// 100, and saved where it is a new one. One that it refused is told, and
/// nothing changes. Nothing else is touched.
pub proof fn an_accepted_limit_is_remembered(
    s: SessionView,
    upper: u8,
    result: Result<(), Seq<char>>,
)
    ensures
        ({
            let turn = limit_turn(s, upper, result);
            &&& result is Ok && upper < 100 ==> turn.next.state.last_upper == upper
            &&& result is Ok && upper >= 100 ==> turn.next == s && turn.tasks.len() == 0
            &&& turn.next.state.last_upper != s.state.last_upper ==> turn.tasks == seq![
                TaskView::SaveState,
            ]
            &&& turn.next.state.last_upper == s.state.last_upper && result is Ok
                ==> turn.tasks.len() == 0
            &&& result matches Err(message) ==> turn.next == s && turn.tasks == seq![
                TaskView::Alert(message),
            ]
            &&& turn.next.state.check_updates == s.state.check_updates
            &&& turn.next.latest == s.latest
            &&& turn.next.available == s.available
        }),
{
}

} // verus!
