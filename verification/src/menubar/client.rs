//! One request to `chargecapd`, and what becomes of it.
//!
//! One request per connection: connect, write one [`Request`], read one
//! [`Response`], close.

use crate::proto::{self, Request, Response, ResponseView, Status, StatusView};
use crate::text;
use vstd::prelude::*;

verus! {

/// What came back from the socket.
#[derive(Debug)]
pub enum Answer {
    /// Nothing listens there.
    Unreachable,
    /// The connection failed, with this message.
    Failed(String),
    /// The connection was closed before a line came.
    Closed,
    /// A line that is no response.
    Garbled(String),
    /// A response.
    Reply(Response),
}

/// The status of a reply, or what is said instead. Only a reply that is ok
/// gives a status.
pub open spec fn status_in(response: ResponseView) -> Result<StatusView, Seq<char>> {
    if response.ok && response.status is Some {
        Ok(response.status->0)
    } else if response.error is Some {
        Err(response.error->0)
    } else {
        Err("the daemon sent a reply with no status and no error"@)
    }
}

/// A status, or a message, taken by its view.
pub open spec fn reported(r: Result<Status, String>) -> Result<StatusView, Seq<char>> {
    match r {
        Ok(status) => Ok(status@),
        Err(message) => Err(message@),
    }
}

/// What a line that is no response is reported with.
pub open spec fn garbled(line: Seq<char>) -> Seq<char> {
    if text::trimmed(line).len() == 0 {
        "the daemon sent an empty reply"@
    } else {
        "cannot decode the reply: "@ + text::trim_end(line)
    }
}

/// What one request to the daemon at `path` comes to.
pub open spec fn answered(path: Seq<char>, answer: Answer) -> Result<StatusView, Seq<char>> {
    match answer {
        Answer::Unreachable => Err("cannot reach the daemon at "@ + path),
        Answer::Failed(message) => Err(message@),
        Answer::Closed => Err("the daemon closed the connection without answering"@),
        Answer::Garbled(line) => Err(garbled(line@)),
        Answer::Reply(response) => status_in(response@),
    }
}

/// Returns the request for the current status.
pub fn status() -> (r: Request)
    ensures
        r == Request::Status,
{
    Request::Status
}

/// The request for an upper limit.
pub open spec fn limit_request(upper: u8) -> Request {
    Request::SetLimit { upper, lower: None }
}

/// A limit is asked for without a lower one, so that the daemon puts that two
/// points below, and without a limit at 100.
pub proof fn the_daemon_fills_in_the_lower_limit(upper: u8)
    requires
        50 <= upper <= 100,
    ensures
        limit_request(upper) matches Request::SetLimit { upper: asked, lower } && {
            let band = proto::validated(asked, lower);
            &&& asked == upper
            &&& band is Ok
            &&& band->Ok_0.0 == upper
            &&& upper < 100 ==> band->Ok_0.1 + 2 == upper
            &&& upper == 100 ==> band->Ok_0.1 == 100
        },
{
}

/// Returns the request for an upper limit.
///
/// `lower` is left to the daemon, which fills it in with
/// [`proto::validate_limits`].
pub fn set_limit(upper: u8) -> (r: Request)
    ensures
        r == limit_request(upper),
{
    Request::SetLimit { upper, lower: None }
}

/// Returns the status from a reply, or the message to show.
pub fn outcome(response: Response) -> (r: Result<Status, String>)
    ensures
        reported(r) == status_in(response@),
{
    match (response.ok, response.status, response.error) {
        (true, Some(status), _) => Ok(status),
        (_, _, Some(error)) => Err(error),
        _ => Err("the daemon sent a reply with no status and no error".to_string()),
    }
}

/// Returns what one request to the daemon at `path` came to: the status from
/// the reply, or the message to show.
pub fn send(path: &str, answer: Answer) -> (r: Result<Status, String>)
    ensures
        reported(r) == answered(path@, answer),
{
    match answer {
        Answer::Unreachable => Err(text::text2("cannot reach the daemon at ", path)),
        Answer::Failed(message) => Err(message),
        Answer::Closed => Err("the daemon closed the connection without answering".to_string()),
        Answer::Garbled(line) => Err(garbled_text(line.as_str())),
        Answer::Reply(response) => outcome(response),
    }
}

/// Returns the message for a line that is no response.
pub fn garbled_text(line: &str) -> (r: String)
    ensures
        r@ == garbled(line@),
{
    if text::trim(line).as_str().unicode_len() == 0 {
        "the daemon sent an empty reply".to_string()
    } else {
        text::text2("cannot decode the reply: ", text::trim_tail(line).as_str())
    }
}

/// What a request that was turned down is answered: its reason, and no status.
pub proof fn a_refusal_reaches_the_user(message: Seq<char>)
    ensures
        status_in(proto::refused(message)) == Err::<StatusView, Seq<char>>(message),
{
}

/// What a request that was carried out is answered: the status.
pub proof fn a_status_reaches_the_user(status: StatusView)
    ensures
        status_in(proto::accepted(status)) == Ok::<StatusView, Seq<char>>(status),
{
}

/// A reply gives a status if and only if it is ok and has one. Otherwise it
/// gives its error, where it has one, and always a message.
pub proof fn only_an_ok_reply_gives_a_status(response: ResponseView)
    ensures
        ({
            let told = status_in(response);
            &&& told is Ok <==> response.ok && response.status is Some
            &&& told matches Ok(status) ==> response.status == Some(status)
            &&& told matches Err(message) ==> (response.error is Some ==> response.error == Some(
                message,
            ))
            &&& told is Err && response.error is None ==> told == Err::<StatusView, Seq<char>>(
                "the daemon sent a reply with no status and no error"@,
            )
        }),
{
}

/// Only a reply can give a status. A daemon that cannot be reached is told with
/// its path, and a connection that failed with its message.
pub proof fn only_a_reply_gives_a_status(path: Seq<char>, answer: Answer)
    ensures
        answered(path, answer) is Ok ==> answer is Reply,
        answer is Unreachable ==> answered(path, answer) == Err::<StatusView, Seq<char>>(
            "cannot reach the daemon at "@ + path,
        ),
        answer matches Answer::Failed(message) ==> answered(path, answer) == Err::<
            StatusView,
            Seq<char>,
        >(message@),
        answer matches Answer::Reply(response) ==> answered(path, answer) == status_in(response@),
{
}

/// A line that is no response is told by what it holds, unless it holds white
/// space alone.
pub proof fn a_garbled_reply_is_told(line: Seq<char>)
    ensures
        text::trimmed(line).len() == 0 ==> garbled(line) == "the daemon sent an empty reply"@,
        text::trimmed(line).len() > 0 ==> garbled(line) == "cannot decode the reply: "@
            + text::trim_end(line),
{
}

} // verus!
