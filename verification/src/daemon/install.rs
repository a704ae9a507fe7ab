//! LaunchDaemon install and uninstall.
//!
//! Installing copies the running binary to [`INSTALL_BIN_PATH`], writes the
//! plist and bootstraps it. Uninstalling reverses that and always leaves the
//! machine charging. Both need root and both are idempotent.

use crate::menubar::launch_agent::{PLIST_HEAD, PLIST_PROGRAM};
use crate::proto::{Request, CONFIG_PATH, DAEMON_LABEL, DAEMON_PLIST_PATH, LOG_PATH, MAX_UPPER};
use crate::text;
use vstd::prelude::*;

verus! {

/// Where the installed daemon binary lives.
pub const INSTALL_BIN_PATH: &'static str = "/usr/local/libexec/chargecapd";

pub const BIN_MODE: u32 = 0o755;

pub const PLIST_MODE: u32 = 0o644;

pub const DIR_MODE: u32 = 0o755;

/// How long an install waits for launchd to finish unloading the old daemon
/// and to accept the new one, in nanoseconds.
pub const LAUNCHD_TIMEOUT: u64 = 15_000_000_000;

/// How long an install waits between two tries, in nanoseconds.
pub const LAUNCHD_POLL: u64 = 250_000_000;

pub const ROOT_UID: u32 = 0;

/// The `wheel` group.
pub const WHEEL_GID: u32 = 0;

/// What a command that needs root says to anyone else.
pub open spec fn needs_root(command: Seq<char>) -> Seq<char> {
    command + " needs root; run: sudo chargecapd "@ + command
}

/// Fails unless this process runs as root.
pub fn require_root(command: &str, root: bool) -> (r: Result<(), String>)
    ensures
        text::told(r) == if root {
            Ok(())
        } else {
            Err(needs_root(command@))
        },
{
    if root {
        Ok(())
    } else {
        Err(text::text3(command, " needs root; run: sudo chargecapd ", command))
    }
}

// ---------------------------------------------------------------------------
// Steps
// ---------------------------------------------------------------------------

/// One step of an install or an uninstall.
#[derive(Debug, PartialEq, Eq)]
pub enum Step {
    /// Copy the running binary to this path.
    CopyBinary(String),
    /// Write the plist for the binary at this path.
    WritePlist { path: String, text: String },
    /// Create the directory of this file.
    CreateDirOf(String),
    /// Drop the loaded daemon, if there is one.
    BootOut(String),
    /// Load the daemon from this plist, trying again while launchd refuses.
    Bootstrap(String),
    /// Ask the daemon at the socket.
    Ask(Request),
    /// Reset the SMC from here.
    ResetSmc,
    /// Remove this file, if it is there.
    Remove(String),
    /// Leave this file where it is.
    Keep(String),
}

/// A [`Step`] with its texts taken as characters.
pub enum StepView {
    CopyBinary(Seq<char>),
    WritePlist { path: Seq<char>, text: Seq<char> },
    CreateDirOf(Seq<char>),
    BootOut(Seq<char>),
    Bootstrap(Seq<char>),
    Ask(Request),
    ResetSmc,
    Remove(Seq<char>),
    Keep(Seq<char>),
}

impl View for Step {
    type V = StepView;

    open spec fn view(&self) -> StepView {
        match *self {
            Step::CopyBinary(path) => StepView::CopyBinary(path@),
            Step::WritePlist { path, text } => StepView::WritePlist { path: path@, text: text@ },
            Step::CreateDirOf(path) => StepView::CreateDirOf(path@),
            Step::BootOut(target) => StepView::BootOut(target@),
            Step::Bootstrap(path) => StepView::Bootstrap(path@),
            Step::Ask(request) => StepView::Ask(request),
            Step::ResetSmc => StepView::ResetSmc,
            Step::Remove(path) => StepView::Remove(path@),
            Step::Keep(path) => StepView::Keep(path@),
        }
    }
}

/// Steps, each by its view.
pub open spec fn steps_of(steps: Seq<Step>) -> Seq<StepView> {
    Seq::new(steps.len(), |i: int| steps[i]@)
}

/// Steps, or a message, taken by their views.
pub open spec fn planned(r: Result<Vec<Step>, String>) -> Result<Seq<StepView>, Seq<char>> {
    match r {
        Ok(steps) => Ok(steps_of(steps@)),
        Err(message) => Err(message@),
    }
}

/// What launchd calls the daemon.
pub open spec fn service_target() -> Seq<char> {
    "system/"@ + DAEMON_LABEL@
}

/// The steps of an install, in order. A loaded copy is dropped before the new
/// one is loaded, and the directory of the log is there before launchd
/// redirects into it.
pub open spec fn install_steps() -> Seq<StepView> {
    seq![
        StepView::CopyBinary(INSTALL_BIN_PATH@),
        StepView::WritePlist { path: DAEMON_PLIST_PATH@, text: plist_text(INSTALL_BIN_PATH@) },
        StepView::CreateDirOf(LOG_PATH@),
        StepView::BootOut(service_target()),
        StepView::Bootstrap(DAEMON_PLIST_PATH@),
    ]
}

/// The steps of an uninstall, in order. A daemon that can be asked turns the
/// limit off before it goes away, and the SMC is reset after that. The config
/// stays.
pub open spec fn uninstall_steps(socket: Seq<char>, there: bool) -> Seq<StepView> {
    (if there {
        seq![StepView::Ask(Request::SetLimit { upper: MAX_UPPER, lower: None })]
    } else {
        Seq::empty()
    }) + seq![
        StepView::BootOut(service_target()),
        StepView::ResetSmc,
        StepView::Remove(DAEMON_PLIST_PATH@),
        StepView::Remove(INSTALL_BIN_PATH@),
        StepView::Remove(socket),
        StepView::Keep(CONFIG_PATH@),
    ]
}

/// The steps of a command, which root alone may take.
pub open spec fn for_root(root: bool, command: Seq<char>, steps: Seq<StepView>) -> Result<
    Seq<StepView>,
    Seq<char>,
> {
    if root {
        Ok(steps)
    } else {
        Err(needs_root(command))
    }
}

/// Root alone takes steps; anyone else is told to use `sudo`.
pub proof fn root_alone_takes_steps(command: Seq<char>, steps: Seq<StepView>)
    ensures
        for_root(true, command, steps) == Ok::<Seq<StepView>, Seq<char>>(steps),
        for_root(false, command, steps) == Err::<Seq<StepView>, Seq<char>>(
            command + " needs root; run: sudo chargecapd "@ + command,
        ),
{
}

fn put(steps: &mut Vec<Step>, step: Step)
    ensures
        steps_of(final(steps)@) == steps_of(old(steps)@).push(step@),
{
    steps.push(step);
    assert(steps_of(steps@) =~= steps_of(old(steps)@).push(step@));
}

/// Returns the steps that install and bootstrap the LaunchDaemon.
pub fn install(root: bool) -> (r: Result<Vec<Step>, String>)
    ensures
        planned(r) == for_root(root, "install"@, install_steps()),
{
    match require_root("install", root) {
        Ok(_) => {},
        Err(message) => return Err(message),
    }
    let mut steps: Vec<Step> = Vec::new();
    put(&mut steps, Step::CopyBinary(INSTALL_BIN_PATH.to_string()));
    put(
        &mut steps,
        Step::WritePlist { path: DAEMON_PLIST_PATH.to_string(), text: plist(INSTALL_BIN_PATH) },
    );
    put(&mut steps, Step::CreateDirOf(LOG_PATH.to_string()));
    put(&mut steps, Step::BootOut(text::text2("system/", DAEMON_LABEL)));
    put(&mut steps, Step::Bootstrap(DAEMON_PLIST_PATH.to_string()));
    assert(steps_of(steps@) =~= install_steps());
    Ok(steps)
}

/// Returns the steps that remove the LaunchDaemon and leave charging enabled.
/// `there` tells whether the socket is there.
pub fn uninstall(root: bool, socket: &str, there: bool) -> (r: Result<Vec<Step>, String>)
    ensures
        planned(r) == for_root(root, "uninstall"@, uninstall_steps(socket@, there)),
{
    match require_root("uninstall", root) {
        Ok(_) => {},
        Err(message) => return Err(message),
    }
    let mut steps: Vec<Step> = Vec::new();
    // Turn the limit off before the daemon goes away, so a machine with a
    // closed charge gate is never left behind.
    if there {
        put(&mut steps, Step::Ask(Request::SetLimit { upper: MAX_UPPER, lower: None }));
    }
    put(&mut steps, Step::BootOut(text::text2("system/", DAEMON_LABEL)));
    put(&mut steps, Step::ResetSmc);
    put(&mut steps, Step::Remove(DAEMON_PLIST_PATH.to_string()));
    put(&mut steps, Step::Remove(INSTALL_BIN_PATH.to_string()));
    put(&mut steps, Step::Remove(socket.to_string()));
    put(&mut steps, Step::Keep(CONFIG_PATH.to_string()));
    assert(steps_of(steps@) =~= uninstall_steps(socket@, there));
    Ok(steps)
}

/// An uninstall leaves the machine charging: whether a daemon answers or not,
/// the SMC is reset once the daemon is gone; and one that answers is asked to
/// turn the limit off before it goes.
pub proof fn an_uninstall_leaves_the_machine_charging(socket: Seq<char>, there: bool)
    ensures
        ({
            let steps = uninstall_steps(socket, there);
            let gone = if there {
                1int
            } else {
                0int
            };
            &&& steps[gone] == StepView::BootOut(service_target())
            &&& steps[gone + 1] == StepView::ResetSmc
            &&& there ==> steps[0] == StepView::Ask(
                Request::SetLimit { upper: MAX_UPPER, lower: None },
            )
        }),
{
}

/// An uninstall keeps the config, so that a re-install keeps the user's limit.
pub proof fn an_uninstall_keeps_the_config(socket: Seq<char>, there: bool, i: int)
    requires
        0 <= i < uninstall_steps(socket, there).len(),
        uninstall_steps(socket, there)[i] == StepView::Remove(CONFIG_PATH@),
    ensures
        socket == CONFIG_PATH@,
{
    reveal_strlit("/Library/LaunchDaemons/io.github.junixdev.chargecap.plist");
    reveal_strlit("/usr/local/libexec/chargecapd");
    reveal_strlit("/Library/Application Support/chargecap/config.json");
    assert(DAEMON_PLIST_PATH@.len() != CONFIG_PATH@.len());
    assert(INSTALL_BIN_PATH@.len() != CONFIG_PATH@.len());
}

// ---------------------------------------------------------------------------
// Trying again
// ---------------------------------------------------------------------------

/// Tries until one succeeds or the time is up, with a pause between two tries.
/// The first try is always made.
#[derive(Debug)]
pub struct Retry {
    deadline: u64,
    poll: u64,
    tries: u64,
}

/// The state of a [`Retry`].
pub struct RetryView {
    /// When the time is up.
    pub deadline: int,
    /// The pause between two tries.
    pub poll: int,
    /// The tries made.
    pub tries: nat,
}

impl View for Retry {
    type V = RetryView;

    closed spec fn view(&self) -> RetryView {
        RetryView {
            deadline: self.deadline as int,
            poll: self.poll as int,
            tries: self.tries as nat,
        }
    }
}

/// What follows a try.
#[derive(Debug, PartialEq, Eq)]
pub enum Verdict {
    /// It succeeded.
    Done,
    /// Pause, in nanoseconds, and try again.
    Again(u64),
    /// Give up, with the last failure.
    GiveUp(String),
}

/// A [`Verdict`] with its texts taken as characters.
pub enum VerdictView {
    Done,
    Again(int),
    GiveUp(Seq<char>),
}

impl View for Verdict {
    type V = VerdictView;

    open spec fn view(&self) -> VerdictView {
        match *self {
            Verdict::Done => VerdictView::Done,
            Verdict::Again(poll) => VerdictView::Again(poll as int),
            Verdict::GiveUp(message) => VerdictView::GiveUp(message@),
        }
    }
}

/// What follows a try that ended at `now`: a failure is final once a pause
/// would reach the deadline.
pub open spec fn verdict_on(s: RetryView, result: Result<(), Seq<char>>, now: u64) -> VerdictView {
    match result {
        Ok(_) => VerdictView::Done,
        Err(message) => if now + s.poll >= s.deadline {
            VerdictView::GiveUp(message)
        } else {
            VerdictView::Again(s.poll)
        },
    }
}

impl Retry {
    /// Starts at `now` with `timeout` to go, all in nanoseconds.
    pub fn new(now: u64, timeout: u64, poll: u64) -> (r: Self)
        requires
            now + timeout <= u64::MAX,
        ensures
            r@ == (RetryView { deadline: now + timeout, poll: poll as int, tries: 0 }),
    {
        Retry { deadline: now + timeout, poll, tries: 0 }
    }

    /// The tries made.
    pub fn tries(&self) -> (r: u64)
        ensures
            r == self@.tries,
    {
        self.tries
    }

    /// Takes the result of a try that ended at `now`, and decides what
    /// follows.
    pub fn tried(&mut self, result: Result<(), String>, now: u64) -> (r: Verdict)
        requires
            old(self)@.tries < u64::MAX,
        ensures
            final(self)@ == (RetryView { tries: old(self)@.tries + 1, ..old(self)@ }),
            r@ == verdict_on(old(self)@, text::told(result), now),
    {
        self.tries = self.tries + 1;
        match result {
            Ok(_) => Verdict::Done,
            Err(message) => {
                if self.deadline <= self.poll || now >= self.deadline - self.poll {
                    Verdict::GiveUp(message)
                } else {
                    Verdict::Again(self.poll)
                }
            },
        }
    }
}

/// Only a failure is tried again, and the pause before that ends before the
/// deadline.
pub proof fn no_pause_reaches_the_deadline(s: RetryView, result: Result<(), Seq<char>>, now: u64)
    requires
        verdict_on(s, result, now) is Again,
    ensures
        now + s.poll < s.deadline,
        result is Err,
{
}

/// Returns the message for a bootstrap that failed after `tries` tries.
pub fn bootstrap_failed(tries: u64, message: &str) -> (r: String)
    ensures
        r@ == "launchctl bootstrap failed after "@ + text::decimal(tries as nat) + " tries: "@
            + message@,
{
    text::text4(
        "launchctl bootstrap failed after ",
        text::decimal_text(tries).as_str(),
        " tries: ",
        message,
    )
}

/// The line for a bootstrap that succeeded, where it took more than one try.
pub open spec fn success_text(tries: u64) -> Option<Seq<char>> {
    if tries > 1 {
        Some("launchctl bootstrap succeeded on try "@ + text::decimal(tries as nat))
    } else {
        None
    }
}

/// Returns the line for a bootstrap that succeeded, where it took more than
/// one try.
pub fn bootstrap_succeeded(tries: u64) -> (r: Option<String>)
    ensures
        text::chars(r) == success_text(tries),
{
    if tries > 1 {
        Some(
            text::text2(
                "launchctl bootstrap succeeded on try ",
                text::decimal_text(tries).as_str(),
            ),
        )
    } else {
        None
    }
}

// ---------------------------------------------------------------------------
// The plist
// ---------------------------------------------------------------------------

/// The plist between the binary and the log.
pub const PLIST_KEEP_ALIVE: &'static str =
    "</string>\n\t\t<string>daemon</string>\n\t</array>\n\t<key>RunAtLoad</key>\n\t<true/>\n\t<key>KeepAlive</key>\n\t<true/>\n\t<key>ProcessType</key>\n\t<string>Interactive</string>\n\t<key>StandardOutPath</key>\n\t<string>";

/// The plist between the two places that name the log.
pub const PLIST_STDERR: &'static str = "</string>\n\t<key>StandardErrorPath</key>\n\t<string>";

/// The end of the plist.
pub const PLIST_END: &'static str = "</string>\n</dict>\n</plist>\n";

/// The LaunchDaemon plist for a binary: it runs `daemon` at load and keeps it
/// alive, with standard output and standard error in the log.
pub open spec fn plist_text(binary: Seq<char>) -> Seq<char> {
    PLIST_HEAD@ + DAEMON_LABEL@ + PLIST_PROGRAM@ + binary + PLIST_KEEP_ALIVE@ + LOG_PATH@
        + PLIST_STDERR@ + LOG_PATH@ + PLIST_END@
}

/// Renders the LaunchDaemon plist for `binary`.
pub fn plist(binary: &str) -> (r: String)
    ensures
        r@ == plist_text(binary@),
{
    let head = text::text5(PLIST_HEAD, DAEMON_LABEL, PLIST_PROGRAM, binary, PLIST_KEEP_ALIVE);
    text::text5(head.as_str(), LOG_PATH, PLIST_STDERR, LOG_PATH, PLIST_END)
}

/// An install puts the binary and the plist in place first. The log directory is
/// there before launchd needs it, and a loaded daemon is dropped before the new
/// one is loaded, which comes last.
pub proof fn an_install_loads_the_daemon_last()
    ensures
        ({
            let steps = install_steps();
            &&& steps.len() == 5
            &&& steps[0] == StepView::CopyBinary("/usr/local/libexec/chargecapd"@)
            &&& steps[1] == (StepView::WritePlist {
                path: DAEMON_PLIST_PATH@,
                text: plist_text("/usr/local/libexec/chargecapd"@),
            })
            &&& steps[2] == StepView::CreateDirOf(LOG_PATH@)
            &&& steps[3] == StepView::BootOut("system/"@ + DAEMON_LABEL@)
            &&& steps[4] == StepView::Bootstrap(DAEMON_PLIST_PATH@)
        }),
{
}

/// An uninstall removes what an install put in place: the plist and the binary,
/// and the socket too.
pub proof fn an_uninstall_removes_what_was_installed(socket: Seq<char>, there: bool)
    ensures
        uninstall_steps(socket, there).contains(StepView::Remove(DAEMON_PLIST_PATH@)),
        uninstall_steps(socket, there).contains(
            StepView::Remove("/usr/local/libexec/chargecapd"@),
        ),
        uninstall_steps(socket, there).contains(StepView::Remove(socket)),
        forall|i: int|
            0 <= i < uninstall_steps(socket, there).len() && (#[trigger] uninstall_steps(
                socket,
                there,
            )[i]) is Ask ==> there && i == 0,
{
    let steps = uninstall_steps(socket, there);
    let n = steps.len() as int;
    assert(steps[n - 4] == StepView::Remove(DAEMON_PLIST_PATH@));
    assert(steps[n - 3] == StepView::Remove("/usr/local/libexec/chargecapd"@));
    assert(steps[n - 2] == StepView::Remove(socket));
}

/// A try is repeated if and only if it failed and another can start before the
/// deadline; what is given up is told with the last failure.
pub proof fn a_failure_is_repeated_in_time(s: RetryView, message: Seq<char>, now: u64)
    ensures
        verdict_on(s, Ok(()), now) == VerdictView::Done,
        now + s.poll < s.deadline ==> verdict_on(s, Err(message), now) == VerdictView::Again(
            s.poll,
        ),
        now + s.poll >= s.deadline ==> verdict_on(s, Err(message), now) == VerdictView::GiveUp(
            message,
        ),
{
}

/// The plist of the daemon names its label, the binary that runs as the daemon,
/// and the log twice, for its output and for its errors.
pub proof fn the_plist_names_the_binary_and_the_log(binary: Seq<char>)
    ensures
        ({
            let text = plist_text(binary);
            let before = PLIST_HEAD@ + DAEMON_LABEL@ + PLIST_PROGRAM@;
            let log = (before.len() + binary.len() + PLIST_KEEP_ALIVE@.len()) as int;
            let errors = log + LOG_PATH@.len() + PLIST_STDERR@.len();
            &&& text.take(before.len() as int) == before
            &&& text.subrange(before.len() as int, (before.len() + binary.len()) as int) == binary
            &&& text.subrange(log, log + LOG_PATH@.len()) == LOG_PATH@
            &&& text.subrange(errors, errors + LOG_PATH@.len()) == LOG_PATH@
            &&& text.skip(errors + LOG_PATH@.len()) == PLIST_END@
        }),
{
    let text = plist_text(binary);
    let before = PLIST_HEAD@ + DAEMON_LABEL@ + PLIST_PROGRAM@;
    let log = (before.len() + binary.len() + PLIST_KEEP_ALIVE@.len()) as int;
    let errors = log + LOG_PATH@.len() + PLIST_STDERR@.len();
    assert(text.take(before.len() as int) =~= before);
    assert(text.subrange(before.len() as int, (before.len() + binary.len()) as int) =~= binary);
    assert(text.subrange(log, log + LOG_PATH@.len()) =~= LOG_PATH@);
    assert(text.subrange(errors, errors + LOG_PATH@.len()) =~= LOG_PATH@);
    assert(text.skip(errors + LOG_PATH@.len()) =~= PLIST_END@);
}

/// A load that worked at once is not told of; one that took more tries is, with
/// their number.
pub proof fn only_a_repeated_load_is_told(tries: u64)
    ensures
        tries <= 1 ==> success_text(tries) is None,
        tries > 1 ==> success_text(tries) == Some(
            "launchctl bootstrap succeeded on try "@ + text::decimal(tries as nat),
        ),
{
}

} // verus!
