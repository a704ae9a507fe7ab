//! Wire contract and file paths shared by `chargecapd` and `chargecap`.
//!
//! Frames are newline-delimited JSON objects: one [`Request`] or [`Response`]
//! per line. The JSON itself is written and read outside this library; the
//! line around it is put on by [`framed`] and taken off by [`payload`].

use crate::text;
use vstd::prelude::*;

verus! {

pub const VERSION: &'static str = "0.1.0";

pub const SOCKET_PATH: &'static str = "/var/run/chargecap.sock";

pub const CONFIG_PATH: &'static str = "/Library/Application Support/chargecap/config.json";

pub const LOG_PATH: &'static str = "/Library/Logs/chargecap/daemon.log";

pub const DAEMON_LABEL: &'static str = "io.github.junixdev.chargecap";

pub const DAEMON_PLIST_PATH: &'static str =
    "/Library/LaunchDaemons/io.github.junixdev.chargecap.plist";

/// LaunchAgent for launch-at-login.
pub const APP_LABEL: &'static str = "io.github.junixdev.chargecap.app";

pub const DEFAULT_UPPER: u8 = 80;

/// `lower` defaults to `upper - DEFAULT_GAP`.
pub const DEFAULT_GAP: u8 = 2;

pub const MIN_UPPER: u8 = 50;

/// An upper limit of 100 means "limit disabled".
pub const MAX_UPPER: u8 = 100;

/// What a client asks of the daemon.
#[derive(Debug, Clone, Copy, PartialEq, Eq)]
pub enum Request {
    Status,
    SetLimit { upper: u8, lower: Option<u8> },
    SetAdapter { enabled: bool },
    SetMagsafeLed { mode: MagsafeLedMode },
    TopUp,
    CancelTopUp,
}

/// What the daemon does with the MagSafe LED.
#[derive(Debug, Clone, Copy, PartialEq, Eq, Structural)]
pub enum MagsafeLedMode {
    System,
    Off,
    Reflect,
}

/// Which charge gate the Mac has.
#[derive(Debug, Clone, Copy, PartialEq, Eq, Structural)]
pub enum ChargeControlMode {
    Legacy,
    Firmware,
    Unsupported,
}

/// What the daemon reports.
#[derive(Debug, PartialEq, Eq)]
pub struct Status {
    pub version: String,
    pub mode: ChargeControlMode,
    pub battery_percent: u8,
    pub plugged_in: bool,
    pub charging_allowed: bool,
    pub adapter_enabled: bool,
    pub upper: u8,
    pub lower: u8,
    pub magsafe_led: MagsafeLedMode,
    pub top_up_active: bool,
    pub last_error: Option<String>,
}

/// A [`Status`] with its texts taken as characters.
pub struct StatusView {
    pub version: Seq<char>,
    pub mode: ChargeControlMode,
    pub battery_percent: u8,
    pub plugged_in: bool,
    pub charging_allowed: bool,
    pub adapter_enabled: bool,
    pub upper: u8,
    pub lower: u8,
    pub magsafe_led: MagsafeLedMode,
    pub top_up_active: bool,
    pub last_error: Option<Seq<char>>,
}

impl View for Status {
    type V = StatusView;

    open spec fn view(&self) -> StatusView {
        StatusView {
            version: self.version@,
            mode: self.mode,
            battery_percent: self.battery_percent,
            plugged_in: self.plugged_in,
            charging_allowed: self.charging_allowed,
            adapter_enabled: self.adapter_enabled,
            upper: self.upper,
            lower: self.lower,
            magsafe_led: self.magsafe_led,
            top_up_active: self.top_up_active,
            last_error: text::chars(self.last_error),
        }
    }
}

impl Clone for Status {
    fn clone(&self) -> (r: Self)
        ensures
            r@ == self@,
    {
        let last_error = match &self.last_error {
            Some(message) => Some(message.clone()),
            None => None,
        };
        Status {
            version: self.version.clone(),
            mode: self.mode,
            battery_percent: self.battery_percent,
            plugged_in: self.plugged_in,
            charging_allowed: self.charging_allowed,
            adapter_enabled: self.adapter_enabled,
            upper: self.upper,
            lower: self.lower,
            magsafe_led: self.magsafe_led,
            top_up_active: self.top_up_active,
            last_error,
        }
    }
}

/// What the daemon answers.
#[derive(Debug, PartialEq, Eq)]
pub struct Response {
    pub ok: bool,
    pub status: Option<Status>,
    pub error: Option<String>,
}

/// A [`Response`] with its texts taken as characters.
pub struct ResponseView {
    pub ok: bool,
    pub status: Option<StatusView>,
    pub error: Option<Seq<char>>,
}

impl View for Response {
    type V = ResponseView;

    open spec fn view(&self) -> ResponseView {
        ResponseView {
            ok: self.ok,
            status: match self.status {
                Some(status) => Some(status@),
                None => None,
            },
            error: text::chars(self.error),
        }
    }
}

/// The answer to a request that was carried out.
pub open spec fn accepted(status: StatusView) -> ResponseView {
    ResponseView { ok: true, status: Some(status), error: None }
}

/// The answer to a request that was turned down.
pub open spec fn refused(message: Seq<char>) -> ResponseView {
    ResponseView { ok: false, status: None, error: Some(message) }
}

impl Response {
    pub fn ok(status: Status) -> (r: Self)
        ensures
            r@ == accepted(status@),
    {
        Response { ok: true, status: Some(status), error: None }
    }

    pub fn err(msg: String) -> (r: Self)
        ensures
            r@ == refused(msg@),
    {
        Response { ok: false, status: None, error: Some(msg) }
    }
}

/// The band that a limit request stands for, or why it is turned down.
pub open spec fn validated(upper: u8, lower: Option<u8>) -> Result<(u8, u8), Seq<char>> {
    if !(MIN_UPPER <= upper <= MAX_UPPER) {
        Err("upper must be 50..=100"@)
    } else if upper == MAX_UPPER {
        Ok((MAX_UPPER, MAX_UPPER))
    } else {
        let low = match lower {
            Some(l) => l,
            None => (upper - DEFAULT_GAP) as u8,
        };
        if MIN_UPPER - 10 <= low < upper {
            Ok((upper, low))
        } else {
            Err("lower must be below upper"@)
        }
    }
}

/// Validates and fills in a `set_limit` request, returning `(upper, lower)`.
///
/// `upper` must be in `MIN_UPPER..=MAX_UPPER`. `lower` defaults to
/// `upper - DEFAULT_GAP`. `upper == MAX_UPPER` disables the limit entirely, so
/// `lower` is forced to `MAX_UPPER` too. Otherwise `lower` must be in
/// `(MIN_UPPER - 10)..upper`.
pub fn validate_limits(upper: u8, lower: Option<u8>) -> (r: Result<(u8, u8), String>)
    ensures
        text::told(r) == validated(upper, lower),
{
    if upper < MIN_UPPER || upper > MAX_UPPER {
        return Err("upper must be 50..=100".to_string());
    }
    if upper == MAX_UPPER {
        return Ok((upper, MAX_UPPER));
    }
    let low: u8 = match lower {
        Some(l) => l,
        None => upper - DEFAULT_GAP,
    };
    if low < MIN_UPPER - 10 || low >= upper {
        return Err("lower must be below upper".to_string());
    }
    Ok((upper, low))
}

/// A pair of limits that a limit request can lead to.
pub open spec fn band(upper: u8, lower: u8) -> bool {
    ||| upper == MAX_UPPER && lower == MAX_UPPER
    ||| MIN_UPPER <= upper < MAX_UPPER && MIN_UPPER - 10 <= lower < upper
}

/// A request for limits leads to a band or to nothing, and a request for a
/// band leads to that band.
pub proof fn limits_lead_to_a_band(upper: u8, lower: Option<u8>)
    ensures
        validated(upper, lower) matches Ok((u, l)) ==> band(u, l) && u == upper,
        lower matches Some(l) ==> band(upper, l) ==> validated(upper, lower) == Ok::<
            (u8, u8),
            Seq<char>,
        >((upper, l)),
{
}

/// A request that names no lower limit is turned down only for its upper one.
pub proof fn every_upper_limit_has_a_default_band(upper: u8)
    ensures
        validated(upper, None) is Ok <==> MIN_UPPER <= upper <= MAX_UPPER,
{
}

/// A limit request is accepted if and only if its upper limit is 50 to 100 and,
/// below 100, its lower one is at least 40 and below the upper one. The band has
/// the limits that it names; without a lower one that is two points below, and a
/// limit of 100 is 100 on both ends. The reason tells which limit is wrong.
pub proof fn limits_are_taken_as_asked(upper: u8, lower: Option<u8>)
    ensures
        validated(upper, lower) is Ok <==> 50 <= upper <= 100 && (upper == 100 || match lower {
            Some(low) => 40 <= low < upper,
            None => true,
        }),
        validated(upper, lower) matches Ok((high, low)) ==> {
            &&& high == upper
            &&& upper == 100 ==> low == 100
            &&& upper < 100 && lower is None ==> low + 2 == upper
            &&& upper < 100 && lower is Some ==> low == lower->0
        },
        !(50 <= upper <= 100) ==> validated(upper, lower) == Err::<(u8, u8), Seq<char>>(
            "upper must be 50..=100"@,
        ),
        50 <= upper < 100 && validated(upper, lower) is Err ==> validated(upper, lower) == Err::<
            (u8, u8),
            Seq<char>,
        >("lower must be below upper"@),
{
}

/// An answer is either a status or a message: ok goes with a status, and a
/// refusal with its reason.
pub proof fn an_answer_is_a_status_or_a_reason(status: StatusView, message: Seq<char>)
    ensures
        accepted(status).ok,
        accepted(status).status == Some(status),
        accepted(status).error is None,
        !refused(message).ok,
        refused(message).status is None,
        refused(message).error == Some(message),
{
}

/// One JSON object as a line of the wire: with a newline behind it.
pub open spec fn framed_text(json: Seq<char>) -> Seq<char> {
    json.push('\n')
}

/// The JSON object of one line of the wire: without the white space behind it.
pub open spec fn payload_text(line: Seq<char>) -> Seq<char> {
    text::trim_end(line)
}

/// One JSON object as a line of the wire.
pub fn framed(json: &str) -> (line: String)
    ensures
        line@ == framed_text(json@),
{
    let mut line = json.to_string();
    line.push('\n');
    line
}

/// The JSON object of one line of the wire.
pub fn payload(line: &str) -> (json: String)
    ensures
        json@ == payload_text(line@),
{
    text::trim_tail(line)
}

/// What [`payload`] takes off a line that [`framed`] made is the JSON that
/// went in, where that does not end in white space: no JSON object does.
pub proof fn framing_round_trips(json: Seq<char>)
    requires
        json.len() > 0 ==> !text::white_space(json.last()),
    ensures
        payload_text(framed_text(json)) == json,
        framed_text(json).len() == json.len() + 1,
        framed_text(json).last() == '\n',
{
    assert(json.push('\n').drop_last() =~= json);
    reveal_with_fuel(text::trim_end, 2);
}

} // verus!
