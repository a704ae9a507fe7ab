//! Development stand-in for `chargecapd`.
//!
//! Serves the contract from an in-memory [`Status`]: `status` reads it,
//! `set_limit` and the other commands change it. It never touches the SMC.

use crate::proto::{
    self, validate_limits, ChargeControlMode, MagsafeLedMode, Request, Response, Status, StatusView,
    DEFAULT_GAP, DEFAULT_UPPER, VERSION,
};
use vstd::prelude::*;

verus! {

/// The status after a request, or why the request is turned down.
pub open spec fn applied(s: StatusView, request: Request) -> Result<StatusView, Seq<char>> {
    match request {
        Request::Status => Ok(s),
        Request::SetLimit { upper, lower } => match proto::validated(upper, lower) {
            Ok((upper, lower)) => Ok(
                StatusView { upper, lower, charging_allowed: s.battery_percent < upper, ..s },
            ),
            Err(message) => Err(message),
        },
        Request::SetAdapter { enabled } => Ok(StatusView { adapter_enabled: enabled, ..s }),
        Request::SetMagsafeLed { mode } => Ok(StatusView { magsafe_led: mode, ..s }),
        Request::TopUp => Ok(StatusView { top_up_active: true, ..s }),
        Request::CancelTopUp => Ok(StatusView { top_up_active: false, ..s }),
    }
}

/// Applies `request` to `status` and returns the reply.
pub fn apply(status: &mut Status, request: &Request) -> (r: Response)
    ensures
        match applied(old(status)@, *request) {
            Ok(s) => final(status)@ == s && r@ == proto::accepted(s),
            Err(message) => final(status)@ == old(status)@ && r@ == proto::refused(message),
        },
{
    match request {
        Request::Status => {},
        Request::SetLimit { upper, lower } => match validate_limits(*upper, *lower) {
            Ok((upper, lower)) => {
                status.upper = upper;
                status.lower = lower;
                status.charging_allowed = status.battery_percent < upper;
            },
            Err(message) => return Response::err(message),
        },
        Request::SetAdapter { enabled } => status.adapter_enabled = *enabled,
        Request::SetMagsafeLed { mode } => status.magsafe_led = *mode,
        Request::TopUp => status.top_up_active = true,
        Request::CancelTopUp => status.top_up_active = false,
    }
    Response::ok(status.clone())
}

/// The status the fake daemon starts from.
pub fn canned_status() -> (r: Status)
    ensures
        r@ == (StatusView {
            version: VERSION@,
            mode: ChargeControlMode::Legacy,
            battery_percent: 78,
            plugged_in: true,
            charging_allowed: false,
            adapter_enabled: true,
            upper: DEFAULT_UPPER,
            lower: (DEFAULT_UPPER - DEFAULT_GAP) as u8,
            magsafe_led: MagsafeLedMode::System,
            top_up_active: false,
            last_error: None,
        }),
{
    Status {
        version: VERSION.to_string(),
        mode: ChargeControlMode::Legacy,
        battery_percent: 78,
        plugged_in: true,
        charging_allowed: false,
        adapter_enabled: true,
        upper: DEFAULT_UPPER,
        lower: DEFAULT_UPPER - DEFAULT_GAP,
        magsafe_led: MagsafeLedMode::System,
        top_up_active: false,
        last_error: None,
    }
}

/// The stand-in turns down what the daemon turns down.
pub proof fn the_stand_in_refuses_bad_limits(s: StatusView, upper: u8, lower: Option<u8>)
    ensures
        applied(s, Request::SetLimit { upper, lower }) is Ok <==> proto::validated(
            upper,
            lower,
        ) is Ok,
{
}

/// The stand-in changes what a request names, and nothing else; a limit also
/// moves the charge gate, which is open below the upper percent. A request that
/// is turned down is one for a bad limit.
pub proof fn the_stand_in_changes_what_it_is_told(s: StatusView, request: Request)
    ensures
        match applied(s, request) {
            Err(_) => request is SetLimit,
            Ok(t) => {
                &&& t.version == s.version
                &&& t.mode == s.mode
                &&& t.battery_percent == s.battery_percent
                &&& t.plugged_in == s.plugged_in
                &&& t.last_error == s.last_error
                &&& match request {
                    Request::SetLimit { upper, .. } => {
                        &&& t.upper == upper
                        &&& t.charging_allowed <==> s.battery_percent < upper
                    },
                    _ => {
                        &&& t.upper == s.upper
                        &&& t.lower == s.lower
                        &&& t.charging_allowed == s.charging_allowed
                    },
                }
                &&& t.adapter_enabled == match request {
                    Request::SetAdapter { enabled } => enabled,
                    _ => s.adapter_enabled,
                }
                &&& t.magsafe_led == match request {
                    Request::SetMagsafeLed { mode } => mode,
                    _ => s.magsafe_led,
                }
                &&& t.top_up_active == match request {
                    Request::TopUp => true,
                    Request::CancelTopUp => false,
                    _ => s.top_up_active,
                }
            },
        },
{
}

} // verus!
