//! Where the programs find their files and their socket.
//!
//! A path is a sequence of bytes. What the environment says comes in as an
//! argument; an empty value counts as none.

use crate::proto::{APP_LABEL, SOCKET_PATH};
use crate::text;
use vstd::prelude::*;
use vstd::utf8;

verus! {

/// Environment variable that overrides [`SOCKET_PATH`].
pub const SOCKET_ENV: &'static str = "CHARGECAP_SOCKET";

/// Environment variable that overrides the state file, for tests.
pub const STATE_ENV: &'static str = "CHARGECAP_APP_STATE";

/// Environment variable that overrides the LaunchAgent plist, for tests.
pub const PLIST_ENV: &'static str = "CHARGECAP_AGENT_PLIST";

/// The bytes of a text.
pub open spec fn bytes_of(s: Seq<char>) -> Seq<u8> {
    utf8::encode_utf8(s)
}

/// An optional path, taken as bytes.
pub open spec fn optional(path: Option<Vec<u8>>) -> Option<Seq<u8>> {
    match path {
        Some(bytes) => Some(bytes@),
        None => None,
    }
}

/// `name` below the directory `dir`.
pub open spec fn below(dir: Seq<u8>, name: Seq<u8>) -> Seq<u8> {
    if dir.len() == 0 {
        name
    } else if dir.last() == 0x2f {
        dir + name
    } else {
        dir.push(0x2f) + name
    }
}

/// A value of the environment that counts.
pub open spec fn set_value(value: Option<Seq<u8>>) -> bool {
    value is Some && value->0.len() > 0
}

/// The value of the environment where it counts, and `otherwise` where it does
/// not.
pub open spec fn chosen(value: Option<Seq<u8>>, otherwise: Seq<u8>) -> Seq<u8> {
    if set_value(value) {
        value->0
    } else {
        otherwise
    }
}

/// The environment decides where it says something, and an empty value says
/// nothing.
pub proof fn the_environment_decides(value: Seq<u8>, otherwise: Seq<u8>)
    ensures
        value.len() > 0 ==> chosen(Some(value), otherwise) == value,
        chosen(Some(Seq::empty()), otherwise) == otherwise,
        chosen(None, otherwise) == otherwise,
{
}

/// The home directory, empty where the environment names none.
pub open spec fn home_of(home: Option<Seq<u8>>) -> Seq<u8> {
    match home {
        Some(bytes) => bytes,
        None => Seq::empty(),
    }
}

/// The bytes of `text`.
fn encode(text: &str) -> (r: Vec<u8>)
    ensures
        r@ == bytes_of(text@),
{
    vstd::slice::slice_to_vec(text.as_bytes())
}

fn join(dir: Vec<u8>, name: &str) -> (r: Vec<u8>)
    ensures
        r@ == below(dir@, bytes_of(name@)),
{
    let mut out = dir;
    let mut tail = encode(name);
    if out.len() > 0 && out[out.len() - 1] != 0x2f {
        out.push(0x2f);
    }
    out.append(&mut tail);
    assert(Seq::<u8>::empty() + bytes_of(name@) =~= bytes_of(name@));
    out
}

fn given(value: Option<Vec<u8>>) -> (r: Option<Vec<u8>>)
    ensures
        match r {
            Some(path) => set_value(optional(value)) && path@ == value->0@,
            None => !set_value(optional(value)),
        },
{
    match value {
        Some(path) => if path.len() > 0 {
            Some(path)
        } else {
            None
        },
        None => None,
    }
}

fn home_or_empty(home: Option<Vec<u8>>) -> (r: Vec<u8>)
    ensures
        r@ == home_of(optional(home)),
{
    match home {
        Some(path) => path,
        None => Vec::new(),
    }
}

/// Returns the socket that the app talks to.
///
/// `value` is the value of [`SOCKET_ENV`].
pub fn socket_path(value: Option<Vec<u8>>) -> (r: Vec<u8>)
    ensures
        r@ == chosen(optional(value), bytes_of(SOCKET_PATH@)),
{
    match given(value) {
        Some(path) => path,
        None => encode(SOCKET_PATH),
    }
}

/// Returns the state file path.
///
/// `value` is the value of [`STATE_ENV`], and `home` the home directory.
pub fn state_path(value: Option<Vec<u8>>, home: Option<Vec<u8>>) -> (r: Vec<u8>)
    ensures
        r@ == chosen(
            optional(value),
            below(
                below(
                    home_of(optional(home)),
                    bytes_of("Library/Application Support/chargecap"@),
                ),
                bytes_of("app.json"@),
            ),
        ),
{
    match given(value) {
        Some(path) => path,
        None => join(
            join(home_or_empty(home), "Library/Application Support/chargecap"),
            "app.json",
        ),
    }
}

/// Returns the LaunchAgent plist path.
///
/// `value` is the value of [`PLIST_ENV`], and `home` the home directory.
pub fn plist_path(value: Option<Vec<u8>>, home: Option<Vec<u8>>) -> (r: Vec<u8>)
    ensures
        r@ == chosen(
            optional(value),
            below(
                below(home_of(optional(home)), bytes_of("Library/LaunchAgents"@)),
                bytes_of(APP_LABEL@ + ".plist"@),
            ),
        ),
{
    match given(value) {
        Some(path) => path,
        None => join(
            join(home_or_empty(home), "Library/LaunchAgents"),
            text::text2(APP_LABEL, ".plist").as_str(),
        ),
    }
}

/// Returns the directory for downloads.
pub fn cache_dir(home: Option<Vec<u8>>) -> (r: Vec<u8>)
    ensures
        r@ == below(home_of(optional(home)), bytes_of("Library/Caches/chargecap"@)),
{
    join(home_or_empty(home), "Library/Caches/chargecap")
}

/// Returns the socket of the installed root daemon.
pub fn default_socket_path() -> (r: Vec<u8>)
    ensures
        r@ == bytes_of(SOCKET_PATH@),
{
    encode(SOCKET_PATH)
}

/// Returns the socket of an unprivileged dev run.
///
/// `/var/run` needs root, so a dev daemon binds in the directory for temporary
/// files instead. On macOS that is a private per-user directory, so the daemon
/// and the app of one user agree on this path and no other user can take the
/// name first.
pub fn dev_socket_path(temp_dir: Vec<u8>) -> (r: Vec<u8>)
    ensures
        r@ == below(temp_dir@, bytes_of("chargecap-dev.sock"@)),
{
    join(temp_dir, "chargecap-dev.sock")
}

/// The socket a client should use.
pub open spec fn client_socket(temp_dir: Seq<u8>, installed: bool, dev: bool) -> Seq<u8> {
    if !installed && dev {
        below(temp_dir, bytes_of("chargecap-dev.sock"@))
    } else {
        bytes_of(SOCKET_PATH@)
    }
}

/// The socket a daemon should bind.
pub open spec fn daemon_socket(given: Option<Seq<u8>>, privileged: bool, temp_dir: Seq<u8>) -> Seq<
    u8,
> {
    match given {
        Some(path) => path,
        None => if privileged {
            bytes_of(SOCKET_PATH@)
        } else {
            below(temp_dir, bytes_of("chargecap-dev.sock"@))
        },
    }
}

/// A client meets its daemon: it goes to the socket that an installed daemon
/// binds wherever one is there, and otherwise, where there is one, to the socket
/// that a daemon without privileges binds in the same directory.
pub proof fn a_client_meets_its_daemon(temp_dir: Seq<u8>, dev: bool)
    ensures
        client_socket(temp_dir, true, dev) == daemon_socket(None, true, temp_dir),
        client_socket(temp_dir, false, true) == daemon_socket(None, false, temp_dir),
        client_socket(temp_dir, false, false) == daemon_socket(None, true, temp_dir),
{
}

/// A daemon that was given a socket binds that one, whoever runs it.
pub proof fn a_given_socket_is_bound(path: Seq<u8>, privileged: bool, temp_dir: Seq<u8>)
    ensures
        daemon_socket(Some(path), privileged, temp_dir) == path,
{
}

/// A name below a directory follows it after one slash, and below no directory
/// it stands alone.
pub proof fn names_follow_one_slash(dir: Seq<u8>, name: Seq<u8>)
    ensures
        below(Seq::empty(), name) == name,
        dir.len() > 0 && dir.last() != 0x2f ==> below(dir, name) == dir + seq![0x2fu8] + name,
        below(dir.push(0x2f), name) == dir + seq![0x2fu8] + name,
{
    assert(dir.push(0x2f) =~= dir + seq![0x2fu8]);
}

/// Returns the socket a client should use.
///
/// The installed daemon wins. The dev socket is the fallback, so a dev run
/// needs no extra flag. Each is there or not, as the caller has seen.
pub fn client_socket_path(temp_dir: Vec<u8>, installed: bool, dev: bool) -> (r: Vec<u8>)
    ensures
        r@ == client_socket(temp_dir@, installed, dev),
{
    if installed {
        return default_socket_path();
    }
    if dev {
        return dev_socket_path(temp_dir);
    }
    default_socket_path()
}

/// Returns the socket a daemon should bind: the one it was given, or the one
/// for its privileges.
pub fn socket_for_daemon(given: Option<Vec<u8>>, privileged: bool, temp_dir: Vec<u8>) -> (r: Vec<
    u8,
>)
    ensures
        r@ == daemon_socket(optional(given), privileged, temp_dir@),
{
    match given {
        Some(path) => path,
        None => if privileged {
            default_socket_path()
        } else {
            dev_socket_path(temp_dir)
        },
    }
}

/// The name of the temp file beside a file: hidden, and with the process in
/// it.
pub open spec fn temp_name(name: Option<Seq<char>>, process: u32) -> Seq<char> {
    "."@ + (match name {
        Some(name) => name,
        None => "config.json"@,
    }) + "."@ + text::decimal(process as nat) + ".tmp"@
}

/// Returns the name of the temp file that is written beside `name` and renamed
/// over it.
pub fn temp_file_name(name: Option<String>, process: u32) -> (r: String)
    ensures
        r@ == temp_name(text::chars(name), process),
{
    let name = match name {
        Some(name) => name,
        None => "config.json".to_string(),
    };
    text::text5(".", name.as_str(), ".", text::decimal_text(process as u64).as_str(), ".tmp")
}

/// A temp file is hidden, and named after its file and the process, so that two
/// processes and two files have different ones.
pub proof fn temp_files_are_told_apart(name: Seq<char>, a: u32, b: u32)
    ensures
        temp_name(Some(name), a)[0] == '.',
        temp_name(Some(name), a) == temp_name(Some(name), b) ==> a == b,
        temp_name(None, a) == temp_name(Some("config.json"@), a),
{
    reveal_strlit(".");
    reveal_strlit(".tmp");
    let head = "."@ + name + "."@;
    let (x, y) = (text::decimal(a as nat), text::decimal(b as nat));
    let (s, t) = (temp_name(Some(name), a), temp_name(Some(name), b));
    if s == t {
        assert(s.len() == head.len() + x.len() + 4);
        assert(t.len() == head.len() + y.len() + 4);
        assert(s.subrange(head.len() as int, s.len() - 4) =~= x);
        assert(t.subrange(head.len() as int, t.len() - 4) =~= y);
        text::numerals_read_back(a as nat, b as nat);
    }
}

} // verus!
