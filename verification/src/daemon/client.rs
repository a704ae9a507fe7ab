//! The `status` and `limit` sub-commands, as clients of a running daemon.

use crate::menubar::client as menubar_client;
use crate::proto::{Response, ResponseView, Status, StatusView};
use vstd::prelude::*;

verus! {

/// How long the client waits for the daemon to answer, in seconds.
pub const TIMEOUT: u64 = 5;

/// Message printed when nothing is listening on the socket.
pub const NOT_RUNNING: &'static str = "daemon not running; run: sudo chargecapd install";

/// What a command comes to. With `json` the reply itself was printed, and only
/// a refusal is left to be told; without it the status is to be printed.
pub open spec fn settled(response: ResponseView, json: bool) -> Result<
    Option<StatusView>,
    Seq<char>,
> {
    if json {
        if response.ok {
            Ok(None)
        } else {
            Err(
                match response.error {
                    Some(message) => message,
                    None => "request failed"@,
                },
            )
        }
    } else {
        match menubar_client::status_in(response) {
            Ok(status) => Ok(Some(status)),
            Err(message) => Err(message),
        }
    }
}

/// Decides what a command comes to: a status to print, nothing more, or a
/// failure.
pub fn run(response: Response, json: bool) -> (r: Result<Option<Status>, String>)
    ensures
        match r {
            Ok(Some(status)) => settled(response@, json) == Ok::<Option<StatusView>, Seq<char>>(
                Some(status@),
            ),
            Ok(None) => settled(response@, json) == Ok::<Option<StatusView>, Seq<char>>(None),
            Err(message) => settled(response@, json) == Err::<Option<StatusView>, Seq<char>>(
                message@,
            ),
        },
{
    if json {
        if response.ok {
            return Ok(None);
        }
        return Err(
            match response.error {
                Some(message) => message,
                None => "request failed".to_string(),
            },
        );
    }
    match menubar_client::outcome(response) {
        Ok(status) => Ok(Some(status)),
        Err(message) => Err(message),
    }
}

/// A command fails if and only if the request was refused, or a status is wanted
/// and there is none. With `json` nothing is left to print; without it the
/// status of the reply is.
pub proof fn a_command_fails_where_the_request_did(response: ResponseView, json: bool)
    ensures
        json ==> (settled(response, json) is Ok <==> response.ok),
        !json ==> (settled(response, json) is Ok <==> response.ok && response.status is Some),
        settled(response, json) matches Ok(printed) ==> printed == (if json {
            None
        } else {
            response.status
        }),
        settled(response, json) is Err && response.error is Some ==> response.error == Some(
            settled(response, json)->Err_0,
        ),
{
}

} // verus!
