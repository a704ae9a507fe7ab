//! The update check against the GitHub releases of the project, and what an
//! install says and runs.

use crate::menubar::version::{self, Version, VersionView};
use crate::proto::VERSION;
use crate::text;
use vstd::prelude::*;

verus! {

/// GitHub repository the app checks for releases.
pub const REPO: &'static str = "junixdev/chargecap";

/// The version compiled into this binary.
pub const CURRENT: &'static str = VERSION;

/// How often the app checks for a new release when automatic checks are on, in
/// seconds.
pub const CHECK_INTERVAL: u64 = 86_400;

/// Where the app is expected to live for an in-place update.
pub const APP_PATH: &'static str = "/Applications/chargecap.app";

/// Where the daemon binary lives inside the app bundle.
pub const BUNDLED_DAEMON: &'static str = "Contents/MacOS/chargecapd";

/// A release that is newer than the running app.
#[derive(Debug, PartialEq, Eq)]
pub struct Release {
    pub version: Version,
    /// The GitHub tag, for example `v0.2.0`.
    pub tag: String,
    /// The release page, opened when there is no `.dmg` to install.
    pub page_url: String,
    /// Direct download of the `.dmg` asset, when the release has one.
    pub dmg_url: Option<String>,
}

/// A [`Release`] with its texts taken as characters.
pub struct ReleaseView {
    pub version: VersionView,
    pub tag: Seq<char>,
    pub page_url: Seq<char>,
    pub dmg_url: Option<Seq<char>>,
}

impl View for Release {
    type V = ReleaseView;

    open spec fn view(&self) -> ReleaseView {
        ReleaseView {
            version: self.version@,
            tag: self.tag@,
            page_url: self.page_url@,
            dmg_url: text::chars(self.dmg_url),
        }
    }
}

impl Clone for Release {
    fn clone(&self) -> (r: Self)
        ensures
            r@ == self@,
    {
        let dmg_url = match &self.dmg_url {
            Some(url) => Some(url.clone()),
            None => None,
        };
        Release {
            version: self.version.clone(),
            tag: self.tag.clone(),
            page_url: self.page_url.clone(),
            dmg_url,
        }
    }
}

/// One file of a release, as GitHub lists it.
#[derive(Debug, PartialEq, Eq)]
pub struct ApiAsset {
    pub name: String,
    pub browser_download_url: String,
}

/// One release, as GitHub lists it.
#[derive(Debug, PartialEq, Eq)]
pub struct ApiRelease {
    pub tag_name: String,
    pub html_url: String,
    pub draft: bool,
    pub prerelease: bool,
    pub assets: Vec<ApiAsset>,
}

// ---------------------------------------------------------------------------
// Picking a release
// ---------------------------------------------------------------------------

/// The position of the first disk image among the files, or their number.
pub open spec fn first_dmg(assets: Seq<ApiAsset>) -> int
    decreases assets.len(),
{
    if assets.len() == 0 || text::has_suffix(assets[0].name@, ".dmg"@) {
        0
    } else {
        1 + first_dmg(assets.skip(1))
    }
}

/// The download of the first disk image, where there is one.
pub open spec fn dmg_of(assets: Seq<ApiAsset>) -> Option<Seq<char>> {
    let i = first_dmg(assets);
    if i < assets.len() {
        Some(assets[i].browser_download_url@)
    } else {
        None
    }
}

/// What the app keeps of a listed release.
pub open spec fn release_of(listed: ApiRelease) -> ReleaseView {
    ReleaseView {
        version: version::version_of(listed.tag_name@)->0,
        tag: listed.tag_name@,
        page_url: listed.html_url@,
        dmg_url: dmg_of(listed.assets@),
    }
}

/// A release that a user of `current` may be offered: no draft, a pre-release
/// only for users of one, and newer.
pub open spec fn eligible(listed: ApiRelease, current: VersionView) -> bool {
    &&& !listed.draft
    &&& listed.prerelease ==> current.pre.len() > 0
    &&& version::version_of(listed.tag_name@) is Some
    &&& version::version_order(version::version_of(listed.tag_name@)->0, current) > 0
}

/// The release at `i` is the newest of the first `n` that may be offered, and
/// the first of those that are as new.
pub open spec fn newest_at(
    releases: Seq<ApiRelease>,
    n: int,
    current: VersionView,
    i: int,
) -> bool {
    &&& 0 <= i < n
    &&& eligible(releases[i], current)
    &&& forall|j: int|
        #![trigger releases[j]]
        0 <= j < n && eligible(releases[j], current) ==> {
            let order = version::version_order(
                version::version_of(releases[j].tag_name@)->0,
                version::version_of(releases[i].tag_name@)->0,
            );
            order < 0 || (order == 0 && i <= j)
        }
}

/// Finds the download of the first disk image.
fn find_dmg(assets: &Vec<ApiAsset>) -> (r: Option<String>)
    ensures
        text::chars(r) == dmg_of(assets@),
{
    let mut i: usize = 0;
    assert(assets@.skip(0) =~= assets@);
    while i < assets.len()
        invariant
            i <= assets@.len(),
            first_dmg(assets@) == i + first_dmg(assets@.skip(i as int)),
        decreases assets@.len() - i,
    {
        if text::ends_with(assets[i].name.as_str(), ".dmg") {
            return Some(assets[i].browser_download_url.clone());
        }
        assert(assets@.skip(i as int).skip(1) =~= assets@.skip(i + 1));
        i = i + 1;
    }
    None
}

/// Picks the newest of the listed releases that is newer than `current`.
///
/// Drafts are skipped. Pre-releases count only when `current` is itself a
/// pre-release, so beta users follow the beta channel and everyone else sees
/// stable builds only.
pub fn newest(releases: &Vec<ApiRelease>, current: &Version) -> (r: Option<Release>)
    ensures
        match r {
            None => forall|i: int|
                0 <= i < releases@.len() ==> !eligible(#[trigger] releases@[i], current@),
            Some(release) => exists|i: int|
                #[trigger] newest_at(releases@, releases@.len() as int, current@, i) && release@
                    == release_of(releases@[i]),
        },
{
    let mut best: Option<Release> = None;
    let ghost mut at: int = 0;
    let mut i: usize = 0;
    while i < releases.len()
        invariant
            i <= releases@.len(),
            match best {
                None => forall|j: int|
                    0 <= j < i ==> !eligible(#[trigger] releases@[j], current@),
                Some(release) => newest_at(releases@, i as int, current@, at) && release@
                    == release_of(releases@[at]),
            },
        decreases releases@.len() - i,
    {
        let ghost n = i as int;
        let listed = &releases[i];
        i = i + 1;
        if listed.draft || (listed.prerelease && !current.is_prerelease()) {
            assert(!eligible(releases@[n], current@));
            continue ;
        }
        let version = match Version::parse(listed.tag_name.as_str()) {
            Some(version) => version,
            None => {
                assert(!eligible(releases@[n], current@));
                continue ;
            },
        };
        if version.order(current) <= 0 {
            assert(!eligible(releases@[n], current@));
            continue ;
        }
        assert(eligible(releases@[n], current@));
        let behind = match &best {
            Some(release) => release.version.order(&version) >= 0,
            None => false,
        };
        proof {
            if best is Some {
                version::precedence_is_an_order(best->0.version@, version@, version@);
            }
            version::precedence_is_an_order(version@, version@, version@);
        }
        if behind {
            continue ;
        }
        proof {
            if best is Some {
                let old_best = version::version_of(releases@[at].tag_name@)->0;
                assert forall|j: int|
                    #![trigger releases@[j]]
                    0 <= j < n && eligible(releases@[j], current@) implies version::version_order(
                    version::version_of(releases@[j].tag_name@)->0,
                    version@,
                ) < 0 by {
                    version::precedence_is_an_order(
                        version::version_of(releases@[j].tag_name@)->0,
                        old_best,
                        version@,
                    );
                }
            }
            at = n;
        }
        let dmg_url = find_dmg(&listed.assets);
        best = Some(
            Release {
                version,
                tag: listed.tag_name.clone(),
                page_url: listed.html_url.clone(),
                dmg_url,
            },
        );
    }
    best
}

/// At most one release is the newest.
pub proof fn the_newest_release_is_one(
    releases: Seq<ApiRelease>,
    current: VersionView,
    i: int,
    j: int,
)
    requires
        newest_at(releases, releases.len() as int, current, i),
        newest_at(releases, releases.len() as int, current, j),
    ensures
        i == j,
{
    let a = version::version_of(releases[i].tag_name@)->0;
    let b = version::version_of(releases[j].tag_name@)->0;
    version::precedence_is_an_order(a, b, a);
}

/// Users of a stable build are never offered a pre-release.
pub proof fn stable_users_see_stable_releases(listed: ApiRelease, current: VersionView)
    requires
        current.pre.len() == 0,
        eligible(listed, current),
    ensures
        !listed.prerelease,
        !listed.draft,
{
}

// ---------------------------------------------------------------------------
// Paths
// ---------------------------------------------------------------------------

/// The part at `i` names something: it is not empty, and no dot that stands
/// for the place where it is, except at the start.
pub open spec fn names_something(parts: Seq<Seq<char>>, i: int) -> bool {
    parts[i].len() > 0 && (parts[i] != seq!['.'] || i == 0)
}

/// The first `n` parts that name something.
pub open spec fn named(parts: Seq<Seq<char>>, n: int) -> Seq<Seq<char>>
    decreases n,
{
    if n <= 0 {
        Seq::empty()
    } else if names_something(parts, n - 1) {
        named(parts, n - 1).push(parts[n - 1])
    } else {
        named(parts, n - 1)
    }
}

/// The names along a path.
pub open spec fn path_names(path: Seq<char>) -> Seq<Seq<char>> {
    let parts = text::fields(path, '/');
    named(parts, parts.len() as int)
}

/// The path starts at the root.
pub open spec fn absolute(path: Seq<char>) -> bool {
    path.len() > 0 && path[0] == '/'
}

/// A letter, whether it is upper or lower case.
pub open spec fn is_letter(c: char, lower: char, upper: char) -> bool {
    c == lower || c == upper
}

/// A name with the extension `app`, in upper or lower case.
pub open spec fn bundle_name(name: Seq<char>) -> bool {
    let n = name.len();
    &&& n > 4
    &&& name[n - 4] == '.'
    &&& is_letter(name[n - 3], 'a', 'A')
    &&& is_letter(name[n - 2], 'p', 'P')
    &&& is_letter(name[n - 1], 'p', 'P')
}

/// The bundle around a binary: three names up, where that is a bundle.
pub open spec fn bundle_around(exe: Seq<char>) -> Option<Seq<char>> {
    let names = path_names(exe);
    if names.len() >= 4 && bundle_name(names[names.len() - 4]) {
        let bundle = text::separated(names.take(names.len() - 3), '/');
        Some(
            if absolute(exe) {
                seq!['/'] + bundle
            } else {
                bundle
            },
        )
    } else {
        None
    }
}

fn is_bundle_name(name: &str) -> (r: bool)
    ensures
        r == bundle_name(name@),
{
    let c = text::chars_of(name);
    let n = c.len();
    n > 4 && c[n - 4] == '.' && (c[n - 3] == 'a' || c[n - 3] == 'A') && (c[n - 2] == 'p' || c[n
        - 2] == 'P') && (c[n - 1] == 'p' || c[n - 1] == 'P')
}

/// The names along a path.
fn names_of(path: &str) -> (r: Vec<String>)
    ensures
        text::texts(r@) == path_names(path@),
{
    let chars = text::chars_of(path);
    assert(chars@.subrange(0, chars@.len() as int) =~= path@);
    let parts = text::split_fields(&chars, 0, chars.len(), '/');
    let ghost all = text::fields(path@, '/');
    assert(all == text::texts(parts@));
    proof {
        reveal_strlit(".");
        assert("."@ =~= seq!['.']);
    }
    let mut out: Vec<String> = Vec::new();
    let mut i: usize = 0;
    assert(text::texts(out@) =~= named(all, 0));
    while i < parts.len()
        invariant
            i <= parts@.len(),
            all == text::texts(parts@),
            "."@ == seq!['.'],
            text::texts(out@) == named(all, i as int),
        decreases parts@.len() - i,
    {
        let part = parts[i].as_str();
        assert(all[i as int] == part@);
        if part.unicode_len() > 0 && (!text::same_text(part, ".") || i == 0) {
            let ghost before = out@;
            out.push(part.to_string());
            assert(text::texts(out@) =~= text::texts(before).push(part@));
        }
        i = i + 1;
    }
    out
}

/// Returns the `.app` bundle that contains `exe`, if it runs from one.
///
/// `/Applications/chargecap.app/Contents/MacOS/chargecap` gives
/// `/Applications/chargecap.app`. A `cargo run` binary gives `None`.
pub fn bundle_of(exe: &str) -> (r: Option<String>)
    ensures
        text::chars(r) == bundle_around(exe@),
{
    let mut names = names_of(exe);
    let ghost all = path_names(exe@);
    let n = names.len();
    if n < 4 || !is_bundle_name(names[n - 4].as_str()) {
        return None;
    }
    names.truncate(n - 3);
    assert(text::texts(names@) =~= all.take(n - 3));
    let bundle = text::join(&names, '/');
    let chars = text::chars_of(exe);
    if chars.len() > 0 && chars[0] == '/' {
        let mut path = String::new();
        path.push('/');
        path.append(bundle.as_str());
        assert(path@ =~= seq!['/'] + bundle@);
        Some(path)
    } else {
        Some(bundle)
    }
}

/// Returns true when `release` can be installed in place of the app whose
/// binary is `exe`: it has a disk image, and the app runs from
/// [`APP_PATH`].
pub fn installs_in_place(release: &Release, exe: &str) -> (r: bool)
    ensures
        r == (release@.dmg_url is Some && bundle_around(exe@) == Some(APP_PATH@)),
{
    match (&release.dmg_url, bundle_of(exe)) {
        (Some(_), Some(bundle)) => text::same_text(bundle.as_str(), APP_PATH),
        _ => false,
    }
}

// ---------------------------------------------------------------------------
// Commands and messages
// ---------------------------------------------------------------------------

/// Returns the address of the releases list.
pub fn releases_url() -> (r: String)
    ensures
        r@ == "https://api.github.com/repos/"@ + REPO@ + "/releases?per_page=20"@,
{
    text::text3("https://api.github.com/repos/", REPO, "/releases?per_page=20")
}

/// Returns the name under which the app asks GitHub.
pub fn user_agent() -> (r: String)
    ensures
        r@ == "chargecap/"@ + CURRENT@,
{
    text::text2("chargecap/", CURRENT)
}

/// Returns the message for a releases list that could not be fetched.
pub fn cannot_reach(stderr: &str) -> (r: String)
    ensures
        r@ == "cannot reach GitHub: "@ + text::trimmed(stderr@),
{
    text::text2("cannot reach GitHub: ", text::trim(stderr).as_str())
}

/// Returns the file name for a download: what follows the last slash.
pub fn download_name(url: &str) -> (r: String)
    ensures
        r@ == text::after_last(url@, '/'),
{
    let chars = text::chars_of(url);
    assert(chars@.subrange(0, chars@.len() as int) =~= url@);
    let parts = text::split_fields(&chars, 0, chars.len(), '/');
    let ghost all = text::fields(url@, '/');
    assert(all == text::texts(parts@));
    assert(all.len() > 0);
    parts[parts.len() - 1].clone()
}

/// What a failed command is reported with: `what`, and what the command said,
/// where it said something.
pub open spec fn failure_text(what: Seq<char>, stderr: Seq<char>) -> Seq<char> {
    let detail = text::trimmed(stderr);
    if detail.len() == 0 {
        what
    } else {
        what + ": "@ + detail
    }
}

/// Returns the message for a command that failed.
pub fn failure(what: &str, stderr: &str) -> (r: String)
    ensures
        r@ == failure_text(what@, stderr@),
{
    let detail = text::trim(stderr);
    if detail.as_str().unicode_len() == 0 {
        what.to_string()
    } else {
        text::text3(what, ": ", detail.as_str())
    }
}

/// A path quoted for the shell, inside a double-quoted AppleScript string.
pub open spec fn quoted_path(path: Seq<char>) -> Seq<char> {
    let escaped = text::replaced(text::replaced(path, '\\', "\\\\"@), '"', "\\\""@);
    "'"@ + text::replaced(escaped, '\'', "'\\''"@) + "'"@
}

/// Quotes `path` for use inside an AppleScript `do shell script` string.
pub fn shell_quote(path: &str) -> (r: String)
    ensures
        r@ == quoted_path(path@),
{
    let slashes = text::replace_char(path, '\\', "\\\\");
    let escaped = text::replace_char(slashes.as_str(), '"', "\\\"");
    let inner = text::replace_char(escaped.as_str(), '\'', "'\\''");
    text::text3("'", inner.as_str(), "'")
}

/// The AppleScript that installs the daemon at `path` with an admin prompt.
pub open spec fn script_text(path: Seq<char>) -> Seq<char> {
    "do shell script \""@ + quoted_path(path) + " install\" with administrator privileges"@
}

/// Returns the AppleScript that installs the daemon at `path` with an admin
/// prompt.
pub fn install_script(path: &str) -> (r: String)
    ensures
        r@ == script_text(path@),
{
    text::text3(
        "do shell script \"",
        shell_quote(path).as_str(),
        " install\" with administrator privileges",
    )
}

// ---------------------------------------------------------------------------
// Replacing the app
// ---------------------------------------------------------------------------

/// A name with the extension `app`, in lower case.
pub open spec fn app_name(name: Seq<char>) -> bool {
    name.len() > 4 && text::has_suffix(name, ".app"@)
}

/// Returns the position of the app among the entries of a disk image: the first
/// whose extension is `app`.
pub fn app_entry(names: &Vec<String>) -> (r: Option<usize>)
    ensures
        match r {
            Some(i) => {
                &&& i < names@.len()
                &&& app_name(names@[i as int]@)
                &&& forall|j: int| 0 <= j < i ==> !app_name((#[trigger] names@[j])@)
            },
            None => forall|j: int| 0 <= j < names@.len() ==> !app_name((#[trigger] names@[j])@),
        },
{
    let mut i: usize = 0;
    while i < names.len()
        invariant
            i <= names@.len(),
            forall|j: int| 0 <= j < i ==> !app_name((#[trigger] names@[j])@),
        decreases names@.len() - i,
    {
        let name = names[i].as_str();
        if name.unicode_len() > 4 && text::ends_with(name, ".app") {
            return Some(i);
        }
        i = i + 1;
    }
    None
}

/// One step of replacing the app.
#[derive(Debug, PartialEq, Eq)]
pub enum ReplaceStep {
    /// Remove the app at this path.
    RemoveOld(String),
    /// Copy the app of the disk image to its place.
    Copy { from: String, to: String },
    /// Run this AppleScript, which installs the daemon of the new app.
    InstallDaemon(String),
}

/// A [`ReplaceStep`] with its texts taken as characters.
pub enum ReplaceStepView {
    RemoveOld(Seq<char>),
    Copy { from: Seq<char>, to: Seq<char> },
    InstallDaemon(Seq<char>),
}

impl View for ReplaceStep {
    type V = ReplaceStepView;

    open spec fn view(&self) -> ReplaceStepView {
        match *self {
            ReplaceStep::RemoveOld(path) => ReplaceStepView::RemoveOld(path@),
            ReplaceStep::Copy { from, to } => ReplaceStepView::Copy { from: from@, to: to@ },
            ReplaceStep::InstallDaemon(script) => ReplaceStepView::InstallDaemon(script@),
        }
    }
}

/// Steps, each by its view.
pub open spec fn steps_of(steps: Seq<ReplaceStep>) -> Seq<ReplaceStepView> {
    Seq::new(steps.len(), |i: int| steps[i]@)
}

/// Steps, or a message, taken by their views.
pub open spec fn planned(r: Result<Vec<ReplaceStep>, String>) -> Result<
    Seq<ReplaceStepView>,
    Seq<char>,
> {
    match r {
        Ok(steps) => Ok(steps_of(steps@)),
        Err(message) => Err(message@),
    }
}

/// A path that may be missing, taken as characters.
pub open spec fn path_chars(path: Option<&str>) -> Option<Seq<char>> {
    match path {
        Some(path) => Some(path@),
        None => None,
    }
}

/// Where the daemon lives inside the app at `app_path`.
pub open spec fn daemon_in(app_path: Seq<char>) -> Seq<char> {
    if app_path.len() == 0 || app_path.last() == '/' {
        app_path + BUNDLED_DAEMON@
    } else {
        app_path + "/"@ + BUNDLED_DAEMON@
    }
}

/// The steps that replace the app, in order, or why there are none: an image
/// without an app, and an app without a daemon, are refused.
pub open spec fn replacement(
    app: Option<Seq<char>>,
    daemon_there: bool,
    old_there: bool,
    app_path: Seq<char>,
) -> Result<Seq<ReplaceStepView>, Seq<char>> {
    match app {
        None => Err("the disk image has no .app inside"@),
        Some(source) => if !daemon_there {
            Err("the disk image does not contain chargecapd"@)
        } else {
            Ok(
                (if old_there {
                    seq![ReplaceStepView::RemoveOld(app_path)]
                } else {
                    Seq::empty()
                }) + seq![
                    ReplaceStepView::Copy { from: source, to: app_path },
                    ReplaceStepView::InstallDaemon(script_text(daemon_in(app_path))),
                ],
            )
        },
    }
}

fn put(steps: &mut Vec<ReplaceStep>, step: ReplaceStep)
    ensures
        steps_of(final(steps)@) == steps_of(old(steps)@).push(step@),
{
    steps.push(step);
    assert(steps_of(steps@) =~= steps_of(old(steps)@).push(step@));
}

/// Returns the steps that replace the app at `app_path` with the one at `app`
/// on the disk image, and install the daemon of the new one.
///
/// `daemon_there` tells whether the new app has a daemon, and `old_there`
/// whether there is an app at `app_path`.
pub fn replace_steps(app: Option<&str>, daemon_there: bool, old_there: bool, app_path: &str) -> (r:
    Result<Vec<ReplaceStep>, String>)
    ensures
        planned(r) == replacement(path_chars(app), daemon_there, old_there, app_path@),
{
    let source = match app {
        Some(source) => source,
        None => return Err("the disk image has no .app inside".to_string()),
    };
    if !daemon_there {
        return Err("the disk image does not contain chargecapd".to_string());
    }
    let chars = text::chars_of(app_path);
    let daemon = if chars.len() == 0 || chars[chars.len() - 1] == '/' {
        text::text2(app_path, BUNDLED_DAEMON)
    } else {
        text::text3(app_path, "/", BUNDLED_DAEMON)
    };
    let mut steps: Vec<ReplaceStep> = Vec::new();
    if old_there {
        put(&mut steps, ReplaceStep::RemoveOld(app_path.to_string()));
    }
    put(&mut steps, ReplaceStep::Copy { from: source.to_string(), to: app_path.to_string() });
    // The daemon lives inside the bundle, so the new one must be installed
    // too.
    put(&mut steps, ReplaceStep::InstallDaemon(install_script(daemon.as_str())));
    assert(steps_of(steps@) =~= replacement(
        path_chars(app),
        daemon_there,
        old_there,
        app_path@,
    )->Ok_0);
    Ok(steps)
}

/// The message for a step that failed.
pub open spec fn step_failure(step: ReplaceStepView) -> Seq<char> {
    match step {
        ReplaceStepView::RemoveOld(path) => "cannot remove the old "@ + path,
        ReplaceStepView::Copy { .. } => "cannot copy the new app into Applications"@,
        ReplaceStepView::InstallDaemon(_) =>
            "the new app is in place, but the helper was not updated"@,
    }
}

impl ReplaceStep {
    /// Returns the message for this step when it failed.
    pub fn failed(&self) -> (r: String)
        ensures
            r@ == step_failure(self@),
    {
        match self {
            ReplaceStep::RemoveOld(path) => text::text2("cannot remove the old ", path.as_str()),
            ReplaceStep::Copy { .. } => "cannot copy the new app into Applications".to_string(),
            ReplaceStep::InstallDaemon(_) =>
                "the new app is in place, but the helper was not updated".to_string(),
        }
    }
}

/// The old app goes only where a whole new one takes its place: an image that
/// is refused removes nothing, and where the old app is removed, that is the
/// first step, the new one with its daemon comes right after it, and the daemon
/// is installed last.
pub proof fn the_old_app_goes_for_a_whole_new_one(
    app: Option<Seq<char>>,
    daemon_there: bool,
    old_there: bool,
    app_path: Seq<char>,
)
    ensures
        match replacement(app, daemon_there, old_there, app_path) {
            Err(_) => app is None || !daemon_there,
            Ok(steps) => {
                &&& app is Some
                &&& daemon_there
                &&& steps.last() == ReplaceStepView::InstallDaemon(
                    script_text(daemon_in(app_path)),
                )
                &&& forall|i: int|
                    0 <= i < steps.len() && (#[trigger] steps[i]) is RemoveOld ==> {
                        &&& i == 0
                        &&& old_there
                        &&& steps[0] == ReplaceStepView::RemoveOld(app_path)
                        &&& steps[1] == (ReplaceStepView::Copy { from: app->0, to: app_path })
                    }
            },
        },
{
}

/// The name of an app ends in `.app`, in lower case, with something before it.
pub proof fn an_app_is_known_by_its_name(name: Seq<char>)
    ensures
        ({
            let n = name.len() as int;
            app_name(name) <==> n > 4 && name[n - 4] == '.' && name[n - 3] == 'a' && name[n - 2]
                == 'p' && name[n - 1] == 'p'
        }),
{
    reveal_strlit(".app");
    let n = name.len() as int;
    if n > 4 {
        let tail = name.skip(n - 4);
        assert(tail[0] == name[n - 4] && tail[1] == name[n - 3] && tail[2] == name[n - 2]
            && tail[3] == name[n - 1]);
        if name[n - 4] == '.' && name[n - 3] == 'a' && name[n - 2] == 'p' && name[n - 1] == 'p' {
            assert(tail =~= ".app"@);
        }
    }
}

/// The steps of an update, told one by one: the new app is copied over the place
/// of the old one, which is removed before where it is there, and the daemon of
/// the new app is installed from that place.
pub proof fn an_update_copies_and_installs(
    source: Seq<char>,
    old_there: bool,
    app_path: Seq<char>,
)
    ensures
        ({
            let steps = replacement(Some(source), true, old_there, app_path)->Ok_0;
            let n = if old_there {
                1int
            } else {
                0int
            };
            &&& replacement(Some(source), true, old_there, app_path) is Ok
            &&& steps.len() == n + 2
            &&& old_there ==> steps[0] == ReplaceStepView::RemoveOld(app_path)
            &&& steps[n] == (ReplaceStepView::Copy { from: source, to: app_path })
            &&& steps[n + 1] is InstallDaemon
        }),
        replacement(None, true, old_there, app_path) == Err::<Seq<ReplaceStepView>, Seq<char>>(
            "the disk image has no .app inside"@,
        ),
        replacement(None, false, old_there, app_path) == Err::<Seq<ReplaceStepView>, Seq<char>>(
            "the disk image has no .app inside"@,
        ),
        replacement(Some(source), false, old_there, app_path) == Err::<
            Seq<ReplaceStepView>,
            Seq<char>,
        >("the disk image does not contain chargecapd"@),
{
}

/// The daemon is installed from inside the app, with an administrator's
/// permission.
pub proof fn the_daemon_is_installed_from_the_app(app_path: Seq<char>)
    requires
        app_path.len() > 0,
        app_path.last() != '/',
    ensures
        daemon_in(app_path) == app_path + "/"@ + "Contents/MacOS/chargecapd"@,
        daemon_in(app_path.push('/')) == app_path.push('/') + "Contents/MacOS/chargecapd"@,
        script_text(app_path) == "do shell script \""@ + quoted_path(app_path)
            + " install\" with administrator privileges"@,
{
}

/// A step that failed says how far the update came.
pub proof fn a_failed_step_says_how_far_it_came(path: Seq<char>, from: Seq<char>, script: Seq<char>)
    ensures
        step_failure(ReplaceStepView::RemoveOld(path)) == "cannot remove the old "@ + path,
        step_failure(ReplaceStepView::Copy { from, to: path })
            == "cannot copy the new app into Applications"@,
        step_failure(ReplaceStepView::InstallDaemon(script))
            == "the new app is in place, but the helper was not updated"@,
{
}

} // verus!
