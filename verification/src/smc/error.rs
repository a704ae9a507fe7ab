//! What can go wrong talking to the SMC.

use crate::proto::ChargeControlMode;
use crate::text;
use vstd::prelude::*;

verus! {

/// Everything that can go wrong talking to the SMC.
#[derive(Debug, PartialEq, Eq)]
pub enum SmcError {
    /// Opening the IOKit connection failed with this `IOReturn`.
    Open(i32),
    /// The `AppleSMC` service is not present.
    ServiceNotFound,
    /// A struct call failed with this `IOReturn`.
    Io(i32),
    /// The write needs root (`kIOReturnNotPrivileged`).
    NotPrivileged,
    /// This machine does not have the key.
    KeyNotFound(String),
    /// The SMC returned a nonzero result code.
    Smc { key: String, result: u8 },
    /// The key is not 4 ASCII characters.
    InvalidKey(String),
    /// The payload length does not match what the SMC reports for the key.
    UnexpectedSize { key: String, expected: usize, got: usize },
    /// The call needs a different charge control mode.
    WrongMode { mode: ChargeControlMode, need: &'static str },
    /// This machine does not have the hardware the call needs.
    Unsupported(&'static str),
    /// The requested limits are out of range.
    InvalidLimit(String),
}

/// An [`SmcError`] with its texts taken as characters.
pub enum Fault {
    Open(i32),
    ServiceNotFound,
    Io(i32),
    NotPrivileged,
    KeyNotFound(Seq<char>),
    Smc { key: Seq<char>, result: u8 },
    InvalidKey(Seq<char>),
    UnexpectedSize { key: Seq<char>, expected: usize, got: usize },
    WrongMode { mode: ChargeControlMode, need: Seq<char> },
    Unsupported(Seq<char>),
    InvalidLimit(Seq<char>),
}

impl View for SmcError {
    type V = Fault;

    open spec fn view(&self) -> Fault {
        match *self {
            SmcError::Open(rc) => Fault::Open(rc),
            SmcError::ServiceNotFound => Fault::ServiceNotFound,
            SmcError::Io(rc) => Fault::Io(rc),
            SmcError::NotPrivileged => Fault::NotPrivileged,
            SmcError::KeyNotFound(key) => Fault::KeyNotFound(key@),
            SmcError::Smc { key, result } => Fault::Smc { key: key@, result },
            SmcError::InvalidKey(key) => Fault::InvalidKey(key@),
            SmcError::UnexpectedSize { key, expected, got } => Fault::UnexpectedSize {
                key: key@,
                expected,
                got,
            },
            SmcError::WrongMode { mode, need } => Fault::WrongMode { mode, need: need@ },
            SmcError::Unsupported(what) => Fault::Unsupported(what@),
            SmcError::InvalidLimit(message) => Fault::InvalidLimit(message@),
        }
    }
}

impl Clone for SmcError {
    fn clone(&self) -> (r: Self)
        ensures
            r@ == self@,
    {
        match self {
            SmcError::Open(rc) => SmcError::Open(*rc),
            SmcError::ServiceNotFound => SmcError::ServiceNotFound,
            SmcError::Io(rc) => SmcError::Io(*rc),
            SmcError::NotPrivileged => SmcError::NotPrivileged,
            SmcError::KeyNotFound(key) => SmcError::KeyNotFound(key.clone()),
            SmcError::Smc { key, result } => SmcError::Smc { key: key.clone(), result: *result },
            SmcError::InvalidKey(key) => SmcError::InvalidKey(key.clone()),
            SmcError::UnexpectedSize { key, expected, got } => SmcError::UnexpectedSize {
                key: key.clone(),
                expected: *expected,
                got: *got,
            },
            SmcError::WrongMode { mode, need } => SmcError::WrongMode { mode: *mode, need: *need },
            SmcError::Unsupported(what) => SmcError::Unsupported(*what),
            SmcError::InvalidLimit(message) => SmcError::InvalidLimit(message.clone()),
        }
    }
}

/// A result with its error taken by its view.
pub open spec fn fault_of<T>(r: Result<T, SmcError>) -> Result<T, Fault> {
    match r {
        Ok(v) => Ok(v),
        Err(e) => Err(e@),
    }
}

/// The name of a charge control mode.
pub open spec fn mode_name(mode: ChargeControlMode) -> Seq<char> {
    match mode {
        ChargeControlMode::Legacy => "Legacy"@,
        ChargeControlMode::Firmware => "Firmware"@,
        ChargeControlMode::Unsupported => "Unsupported"@,
    }
}

/// Returns the name of a charge control mode.
pub fn mode_text(mode: ChargeControlMode) -> (r: &'static str)
    ensures
        r@ == mode_name(mode),
{
    match mode {
        ChargeControlMode::Legacy => "Legacy",
        ChargeControlMode::Firmware => "Firmware",
        ChargeControlMode::Unsupported => "Unsupported",
    }
}

/// The 32 bits of an `IOReturn`, read as an unsigned number.
pub open spec fn io_return_bits(rc: i32) -> nat {
    if rc >= 0 {
        rc as nat
    } else {
        (rc + 0x1_0000_0000) as nat
    }
}

/// The message of a fault.
pub open spec fn fault_text(fault: Fault) -> Seq<char> {
    match fault {
        Fault::Open(rc) => "cannot open AppleSMC: IOReturn 0x"@ + text::hex_padded(
            io_return_bits(rc),
            8,
        ),
        Fault::ServiceNotFound => "AppleSMC service not found"@,
        Fault::Io(rc) => "SMC call failed: IOReturn 0x"@ + text::hex_padded(io_return_bits(rc), 8),
        Fault::NotPrivileged => "SMC write needs root"@,
        Fault::KeyNotFound(key) => "SMC key "@ + key + " not found on this Mac"@,
        Fault::Smc { key, result } => "SMC key "@ + key + " returned result 0x"@ + text::hex_padded(
            result as nat,
            2,
        ),
        Fault::InvalidKey(key) => "invalid SMC key "@ + text::debug_text(key)
            + ": need 4 ASCII characters"@,
        Fault::UnexpectedSize { key, expected, got } => "SMC key "@ + key + " takes "@ + text::decimal(
            expected as nat,
        ) + " bytes, got "@ + text::decimal(got as nat),
        Fault::WrongMode { mode, need } => "charge control mode is "@ + mode_name(mode)
            + ", this call needs "@ + need,
        Fault::Unsupported(what) => "this Mac has no "@ + what,
        Fault::InvalidLimit(message) => "invalid charge limit: "@ + message,
    }
}

fn io_return_text(rc: i32) -> (r: String)
    ensures
        r@ == text::hex_padded(io_return_bits(rc), 8),
{
    let bits: u64 = if rc >= 0 {
        rc as u64
    } else {
        ((rc as i64) + 0x1_0000_0000) as u64
    };
    text::hex_padded_text(bits, 8)
}

impl SmcError {
    /// The message shown for this error.
    pub fn message(&self) -> (r: String)
        ensures
            r@ == fault_text(self@),
    {
        match self {
            SmcError::Open(rc) => text::text2(
                "cannot open AppleSMC: IOReturn 0x",
                io_return_text(*rc).as_str(),
            ),
            SmcError::ServiceNotFound => "AppleSMC service not found".to_string(),
            SmcError::Io(rc) => text::text2("SMC call failed: IOReturn 0x", io_return_text(*rc).as_str()),
            SmcError::NotPrivileged => "SMC write needs root".to_string(),
            SmcError::KeyNotFound(key) => text::text3("SMC key ", key.as_str(), " not found on this Mac"),
            SmcError::Smc { key, result } => {
                let code = text::hex_padded_text(*result as u64, 2);
                text::text2(
                    text::text3("SMC key ", key.as_str(), " returned result 0x").as_str(),
                    code.as_str(),
                )
            },
            SmcError::InvalidKey(key) => text::text3(
                "invalid SMC key ",
                text::quoted(key.as_str()).as_str(),
                ": need 4 ASCII characters",
            ),
            SmcError::UnexpectedSize { key, expected, got } => {
                let head = text::text3("SMC key ", key.as_str(), " takes ");
                let expected = text::decimal_text(*expected as u64);
                let got = text::decimal_text(*got as u64);
                text::text2(
                    text::text3(head.as_str(), expected.as_str(), " bytes, got ").as_str(),
                    got.as_str(),
                )
            },
            SmcError::WrongMode { mode, need } => text::text2(
                text::text3("charge control mode is ", mode_text(*mode), ", this call needs ").as_str(),
                need,
            ),
            SmcError::Unsupported(what) => text::text2("this Mac has no ", what),
            SmcError::InvalidLimit(message) => text::text2("invalid charge limit: ", message.as_str()),
        }
    }
}

/// A code of the system is told by its 32 bits: it differs from them by a
/// multiple of two to the 32nd, so that no two codes look alike.
pub proof fn codes_are_told_by_their_bits(a: i32, b: i32)
    ensures
        0 <= io_return_bits(a) < 0x1_0000_0000,
        (io_return_bits(a) - a) % 0x1_0000_0000 == 0,
        io_return_bits(a) == io_return_bits(b) ==> a == b,
{
}

/// A message has what it is about: the code or the key, what the SMC wants
/// before what it got, and the mode of the Mac before the one that is needed.
pub proof fn a_message_has_what_it_is_about(
    rc: i32,
    key: Seq<char>,
    result: u8,
    expected: usize,
    got: usize,
    mode: ChargeControlMode,
    need: Seq<char>,
)
    ensures
        fault_text(Fault::Open(rc)) == "cannot open AppleSMC: IOReturn 0x"@ + text::hex_padded(
            io_return_bits(rc),
            8,
        ),
        fault_text(Fault::Io(rc)) == "SMC call failed: IOReturn 0x"@ + text::hex_padded(
            io_return_bits(rc),
            8,
        ),
        fault_text(Fault::ServiceNotFound) == "AppleSMC service not found"@,
        fault_text(Fault::NotPrivileged) == "SMC write needs root"@,
        fault_text(Fault::KeyNotFound(key)) == "SMC key "@ + key + " not found on this Mac"@,
        fault_text(Fault::Smc { key, result }) == "SMC key "@ + key + " returned result 0x"@
            + text::hex_padded(result as nat, 2),
        fault_text(Fault::InvalidKey(key)) == "invalid SMC key "@ + text::debug_text(key)
            + ": need 4 ASCII characters"@,
        fault_text(Fault::UnexpectedSize { key, expected, got }) == "SMC key "@ + key + " takes "@
            + text::decimal(expected as nat) + " bytes, got "@ + text::decimal(got as nat),
        fault_text(Fault::WrongMode { mode, need }) == "charge control mode is "@ + mode_name(mode)
            + ", this call needs "@ + need,
        fault_text(Fault::Unsupported(need)) == "this Mac has no "@ + need,
        fault_text(Fault::InvalidLimit(need)) == "invalid charge limit: "@ + need,
{
}

} // verus!
