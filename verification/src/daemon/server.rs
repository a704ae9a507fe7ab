//! The socket API: one request per connection.

use crate::daemon::config::Config;
use crate::daemon::legs;
use crate::daemon::state::{self, Daemon};
use crate::proto::{self, validate_limits, MagsafeLedMode, Request, Response, ResponseView};
use crate::smc::driver::{self, Driver};
use crate::text;
use vstd::prelude::*;

verus! {

/// Mode of the socket file. The app runs unprivileged.
pub const SOCKET_MODE: u32 = 0o666;

/// How long one connection may take before the server drops it, in seconds.
pub const CONNECTION_TIMEOUT: u64 = 5;

/// The answer to a line that is no request.
pub open spec fn bad_request(message: Seq<char>) -> ResponseView {
    proto::refused("bad request: "@ + message)
}

/// The name of a LED mode.
pub open spec fn led_mode_name(mode: MagsafeLedMode) -> Seq<char> {
    match mode {
        MagsafeLedMode::System => "System"@,
        MagsafeLedMode::Off => "Off"@,
        MagsafeLedMode::Reflect => "Reflect"@,
    }
}

/// What the log says of a request that was carried out and changed the config.
pub open spec fn applied_text(request: Request) -> Option<Seq<char>> {
    match request {
        Request::Status => None,
        Request::SetLimit { upper, lower } => match proto::validated(upper, lower) {
            Ok((upper, lower)) => Some(
                "limit set to "@ + text::decimal(upper as nat) + "/"@ + text::decimal(lower as nat),
            ),
            Err(_) => None,
        },
        Request::SetAdapter { enabled } => Some("adapter enabled: "@ + text::truth(enabled)),
        Request::SetMagsafeLed { mode } => Some("MagSafe LED: "@ + led_mode_name(mode)),
        Request::TopUp => Some("top-up requested"@),
        Request::CancelTopUp => Some("top-up cancelled"@),
    }
}

/// Returns the log line for a request: none where it changes no config, or is
/// turned down.
pub fn applied_line(request: &Request) -> (r: Option<String>)
    ensures
        text::chars(r) == applied_text(*request),
{
    match request {
        Request::Status => None,
        Request::SetLimit { upper, lower } => match validate_limits(*upper, *lower) {
            Ok((upper, lower)) => Some(
                text::text4(
                    "limit set to ",
                    text::decimal_text(upper as u64).as_str(),
                    "/",
                    text::decimal_text(lower as u64).as_str(),
                ),
            ),
            Err(_) => None,
        },
        Request::SetAdapter { enabled } => Some(
            text::text2("adapter enabled: ", text::truth_text(*enabled)),
        ),
        Request::SetMagsafeLed { mode } => {
            let name = match mode {
                MagsafeLedMode::System => "System",
                MagsafeLedMode::Off => "Off",
                MagsafeLedMode::Reflect => "Reflect",
            };
            Some(text::text2("MagSafe LED: ", name))
        },
        Request::TopUp => Some("top-up requested".to_string()),
        Request::CancelTopUp => Some("top-up cancelled".to_string()),
    }
}

/// Serves one connection: a request is applied, and a line that is none is
/// refused with the reason. `failure` is what went wrong with saving the config
/// that the request asks for.
pub fn handle<D: Driver>(
    daemon: &mut Daemon<D>,
    request: Result<Request, String>,
    failure: Option<String>,
    now: u64,
) -> (r: Response)
    ensures
        final(daemon).probe() == old(daemon).probe(),
        driver::reached(old(daemon).device(), final(daemon).device()),
        match request {
            Ok(request) => {
                let leg = legs::apply_leg(
                    old(daemon)@,
                    old(daemon).probe(),
                    request,
                    text::chars(failure),
                    now,
                    final(daemon).log(),
                    old(daemon).log().len() as int,
                );
                &&& state::travelled(old(daemon).log(), final(daemon).log(), leg, final(daemon)@)
                &&& r@ == leg.value
            },
            Err(message) => *final(daemon) == *old(daemon) && r@ == bad_request(message@),
        },
{
    broadcast use driver::lemma_reached_itself;

    match request {
        Ok(request) => daemon.apply(request, failure, now),
        Err(message) => Response::err(text::text2("bad request: ", message.as_str())),
    }
}

/// The log tells of a request if and only if it was accepted and asked for a
/// configuration; of a limit it tells the band.
pub proof fn the_log_tells_of_what_changed(config: Config, request: Request)
    ensures
        applied_text(request) is Some <==> legs::planned(config, request) matches Ok(Some(_)),
        request is SetLimit && legs::planned(config, request) is Ok ==> {
            let wanted = legs::planned(config, request)->Ok_0->0;
            applied_text(request) == Some(
                "limit set to "@ + text::decimal(wanted.upper as nat) + "/"@ + text::decimal(
                    wanted.lower as nat,
                ),
            )
        },
        applied_text(Request::SetAdapter { enabled: true }) == Some(
            "adapter enabled: "@ + "true"@,
        ),
        applied_text(Request::SetAdapter { enabled: false }) == Some(
            "adapter enabled: "@ + "false"@,
        ),
{
}

/// A line that is no request is refused, and the reason is told.
pub proof fn a_bad_request_is_refused(message: Seq<char>)
    ensures
        !bad_request(message).ok,
        bad_request(message).status is None,
        bad_request(message).error == Some("bad request: "@ + message),
{
}

/// The log tells of the LED and of a top-up as they were asked for.
pub proof fn the_log_tells_what_was_asked_for()
    ensures
        applied_text(Request::SetMagsafeLed { mode: MagsafeLedMode::System }) == Some(
            "MagSafe LED: "@ + "System"@,
        ),
        applied_text(Request::SetMagsafeLed { mode: MagsafeLedMode::Off }) == Some(
            "MagSafe LED: "@ + "Off"@,
        ),
        applied_text(Request::SetMagsafeLed { mode: MagsafeLedMode::Reflect }) == Some(
            "MagSafe LED: "@ + "Reflect"@,
        ),
        applied_text(Request::TopUp) == Some("top-up requested"@),
        applied_text(Request::CancelTopUp) == Some("top-up cancelled"@),
{
}

} // verus!
