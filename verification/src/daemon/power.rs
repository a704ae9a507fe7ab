//! Sleep and wake notifications from IOKit.
//!
//! Sleep is never vetoed. It is allowed at once when the system asks whether it
//! may sleep, and when it is about to sleep after the control loop
//! acknowledged, or after [`ACK_TIMEOUT`], whichever comes first.

use crate::daemon::control::PowerEvent;
use crate::text;
use vstd::prelude::*;

verus! {

/// How long the callback waits for the control loop before it allows sleep, in
/// nanoseconds.
pub const ACK_TIMEOUT: u64 = 5_000_000_000;

/// The system asks whether it may sleep. Idle sleep only.
pub const K_IO_MESSAGE_CAN_SYSTEM_SLEEP: u32 = 0xe000_0270;

/// The system is about to sleep. The last chance to touch the SMC.
pub const K_IO_MESSAGE_SYSTEM_WILL_SLEEP: u32 = 0xe000_0280;

/// The system has woken and the drivers are back.
pub const K_IO_MESSAGE_SYSTEM_HAS_POWERED_ON: u32 = 0xe000_0300;

/// A power event on its way to the control loop.
#[derive(Debug, Clone, Copy, PartialEq, Eq, Structural)]
pub struct PowerNotice {
    /// What happened.
    pub event: PowerEvent,
    /// Someone waits for the event to be handled.
    pub awaited: bool,
}

/// What the callback does with a message: first the notice, then the wait for
/// it, then the permission.
#[derive(Debug, Clone, Copy, PartialEq, Eq, Structural)]
pub struct Reaction {
    /// The notice to send to the control loop.
    pub notice: Option<PowerNotice>,
    /// Allow the power change, whatever became of the notice.
    pub allow: bool,
}

/// What the callback does with a message.
pub open spec fn reaction_to(message: u32) -> Reaction {
    if message == K_IO_MESSAGE_CAN_SYSTEM_SLEEP {
        Reaction { notice: None, allow: true }
    } else if message == K_IO_MESSAGE_SYSTEM_WILL_SLEEP {
        Reaction {
            notice: Some(PowerNotice { event: PowerEvent::WillSleep, awaited: true }),
            allow: true,
        }
    } else if message == K_IO_MESSAGE_SYSTEM_HAS_POWERED_ON {
        Reaction {
            notice: Some(PowerNotice { event: PowerEvent::DidWake, awaited: false }),
            allow: false,
        }
    } else {
        Reaction { notice: None, allow: false }
    }
}

/// Decides what the callback does with a message.
pub fn on_message(message: u32) -> (r: Reaction)
    ensures
        r == reaction_to(message),
{
    if message == K_IO_MESSAGE_CAN_SYSTEM_SLEEP {
        // Idle sleep. Never veto it.
        Reaction { notice: None, allow: true }
    } else if message == K_IO_MESSAGE_SYSTEM_WILL_SLEEP {
        // A missed acknowledgement must delay sleep, never block it.
        Reaction {
            notice: Some(PowerNotice { event: PowerEvent::WillSleep, awaited: true }),
            allow: true,
        }
    } else if message == K_IO_MESSAGE_SYSTEM_HAS_POWERED_ON {
        Reaction {
            notice: Some(PowerNotice { event: PowerEvent::DidWake, awaited: false }),
            allow: false,
        }
    } else {
        Reaction { notice: None, allow: false }
    }
}

/// Sleep is never vetoed: both messages that wait for a permission get it, and
/// a notice that is waited for is one of them.
pub proof fn sleep_is_never_vetoed(message: u32)
    ensures
        message == K_IO_MESSAGE_CAN_SYSTEM_SLEEP || message == K_IO_MESSAGE_SYSTEM_WILL_SLEEP
            ==> reaction_to(message).allow,
        reaction_to(message).notice matches Some(notice) && notice.awaited ==> reaction_to(
            message,
        ).allow,
{
}

/// Why power registration failed.
#[derive(Debug, PartialEq, Eq)]
pub enum PowerError {
    /// `IORegisterForSystemPower` refused to register.
    Register,
    /// The notification thread could not start.
    Thread(String),
    /// The notification thread stopped before it reported back.
    ThreadGone,
}

/// The message of a registration that failed.
pub open spec fn power_text(e: PowerError) -> Seq<char> {
    match e {
        PowerError::Register => "IORegisterForSystemPower failed"@,
        PowerError::Thread(message) => "cannot start the power thread: "@ + message@,
        PowerError::ThreadGone => "the power thread stopped while starting"@,
    }
}

impl PowerError {
    /// The message shown for this error.
    pub fn message(&self) -> (r: String)
        ensures
            r@ == power_text(*self),
    {
        match self {
            PowerError::Register => "IORegisterForSystemPower failed".to_string(),
            PowerError::Thread(message) => text::text2(
                "cannot start the power thread: ",
                message.as_str(),
            ),
            PowerError::ThreadGone => "the power thread stopped while starting".to_string(),
        }
    }
}

/// A registration gave a root port and a notification port.
pub open spec fn has_both_ports(root_port: u32, port: bool) -> bool {
    root_port != 0 && port
}

/// A registration without one of its ports did not work.
pub proof fn a_registration_needs_both_ports(root_port: u32)
    ensures
        !has_both_ports(root_port, false),
        !has_both_ports(0, true),
        root_port > 0 ==> has_both_ports(root_port, true),
{
}

/// Decides whether a registration worked: it gives a root port and a
/// notification port.
pub fn registered(root_port: u32, port: bool) -> (r: Result<(), PowerError>)
    ensures
        r is Ok <==> has_both_ports(root_port, port),
        r matches Err(e) ==> e == PowerError::Register,
{
    if root_port == 0 || !port {
        Err(PowerError::Register)
    } else {
        Ok(())
    }
}

/// A message about sleep that is to come is noticed and waited for, and one about
/// a wake is noticed only; no other message is noticed, and only the two that
/// wait for a permission are given one.
pub proof fn sleep_and_wake_are_noticed(message: u32)
    ensures
        ({
            let reaction = reaction_to(message);
            &&& reaction.notice == Some(PowerNotice { event: PowerEvent::WillSleep, awaited: true })
                <==> message == 0xe000_0280
            &&& reaction.notice == Some(PowerNotice { event: PowerEvent::DidWake, awaited: false })
                <==> message == 0xe000_0300
            &&& message != 0xe000_0280 && message != 0xe000_0300 ==> reaction.notice is None
            &&& reaction.allow <==> message == 0xe000_0270 || message == 0xe000_0280
        }),
{
}

/// What went wrong at the start of the power thread is told apart.
pub proof fn a_power_error_is_told(message: String)
    ensures
        power_text(PowerError::Register) == "IORegisterForSystemPower failed"@,
        power_text(PowerError::Thread(message)) == "cannot start the power thread: "@ + message@,
        power_text(PowerError::ThreadGone) == "the power thread stopped while starting"@,
{
}

} // verus!
