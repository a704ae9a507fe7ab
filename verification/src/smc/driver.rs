//! SMC transport: the `AppleSMC` struct call, key codes, result codes and the
//! [`Driver`] trait.

use crate::smc::error::{self, Fault, SmcError};
use crate::text;
use vstd::prelude::*;
use vstd::utf8;

verus! {

/// Selector for the `AppleSMC` user client struct method.
pub const KERNEL_INDEX_SMC: u32 = 2;

/// `data8` command: fill `key_info` for a key. A nonzero `data_size` in the
/// reply means the key exists.
pub const CMD_READ_KEY_INFO: u8 = 9;

/// `data8` command: read `key_info.data_size` bytes into `bytes`.
pub const CMD_READ_BYTES: u8 = 5;

/// `data8` command: write `key_info.data_size` bytes from `bytes`.
pub const CMD_WRITE_BYTES: u8 = 6;

/// SMC result code for "this machine does not have that key".
pub const SMC_KEY_NOT_FOUND: u8 = 0x84;

/// `kIOReturnNotPrivileged`, 0xe00002c1 as a signed number: the write needs
/// root.
pub const K_IO_RETURN_NOT_PRIVILEGED: i32 = -536870207;

/// Largest payload one struct call can carry.
pub const MAX_DATA_LEN: usize = 32;

/// Version block of the struct call. Always zero here.
#[derive(Debug, Clone, Copy, PartialEq, Eq)]
pub struct Vers {
    pub major: u8,
    pub minor: u8,
    pub build: u8,
    pub reserved: u8,
    pub release: u16,
}

/// Power limit block of the struct call. Always zero here.
#[derive(Debug, Clone, Copy, PartialEq, Eq)]
pub struct PLimit {
    pub version: u16,
    pub length: u16,
    pub cpu: u32,
    pub gpu: u32,
    pub mem: u32,
}

/// Size and type the SMC reports for one key.
#[derive(Debug, Clone, Copy, PartialEq, Eq)]
pub struct KeyInfo {
    /// Payload length in bytes. Zero means the key is absent.
    pub data_size: u32,
    /// Type FourCC, for example `ui8 ` or `ui32`.
    pub data_type: u32,
    pub data_attributes: u8,
}

/// The 80-byte struct the `AppleSMC` user client takes and returns.
#[derive(Debug, Clone, Copy, PartialEq, Eq)]
pub struct SmcKeyData {
    /// Key FourCC, big-endian.
    pub key: u32,
    pub vers: Vers,
    pub p_limit: PLimit,
    pub key_info: KeyInfo,
    pub result: u8,
    pub status: u8,
    /// The command. See the `CMD_*` constants.
    pub data8: u8,
    pub data32: u32,
    pub bytes: [u8; MAX_DATA_LEN],
}

/// An [`SmcKeyData`] with its payload taken as a sequence.
pub struct Packet {
    pub key: u32,
    pub vers: Vers,
    pub p_limit: PLimit,
    pub key_info: KeyInfo,
    pub result: u8,
    pub status: u8,
    pub data8: u8,
    pub data32: u32,
    pub bytes: Seq<u8>,
}

impl View for SmcKeyData {
    type V = Packet;

    open spec fn view(&self) -> Packet {
        Packet {
            key: self.key,
            vers: self.vers,
            p_limit: self.p_limit,
            key_info: self.key_info,
            result: self.result,
            status: self.status,
            data8: self.data8,
            data32: self.data32,
            bytes: self.bytes@,
        }
    }
}

/// `bytes` filled up with zeros to the payload of one struct call.
pub open spec fn payload_of(bytes: Seq<u8>) -> Seq<u8> {
    Seq::new(
        MAX_DATA_LEN as nat,
        |i: int|
            if i < bytes.len() {
                bytes[i]
            } else {
                0u8
            },
    )
}

/// The packet that asks for `command` on `key`, with everything else zero.
pub open spec fn packet(key: u32, command: u8, data_size: u32, bytes: Seq<u8>) -> Packet {
    Packet {
        key,
        vers: Vers { major: 0, minor: 0, build: 0, reserved: 0, release: 0 },
        p_limit: PLimit { version: 0, length: 0, cpu: 0, gpu: 0, mem: 0 },
        key_info: KeyInfo { data_size, data_type: 0, data_attributes: 0 },
        result: 0,
        status: 0,
        data8: command,
        data32: 0,
        bytes: payload_of(bytes),
    }
}

fn no_payload() -> (r: [u8; MAX_DATA_LEN])
    ensures
        r@ == payload_of(Seq::empty()),
{
    let r: [u8; MAX_DATA_LEN] = [
        0, 0, 0, 0, 0, 0, 0, 0, 0, 0, 0, 0, 0, 0, 0, 0,
        0, 0, 0, 0, 0, 0, 0, 0, 0, 0, 0, 0, 0, 0, 0, 0,
    ];
    assert(r@ =~= payload_of(Seq::empty()));
    r
}

impl Default for SmcKeyData {
    fn default() -> (r: Self)
        ensures
            r@ == packet(0, 0, 0, Seq::empty()),
    {
        SmcKeyData {
            key: 0,
            vers: Vers { major: 0, minor: 0, build: 0, reserved: 0, release: 0 },
            p_limit: PLimit { version: 0, length: 0, cpu: 0, gpu: 0, mem: 0 },
            key_info: KeyInfo { data_size: 0, data_type: 0, data_attributes: 0 },
            result: 0,
            status: 0,
            data8: 0,
            data32: 0,
            bytes: no_payload(),
        }
    }
}

/// Builds the packet for one command.
pub fn command(key: u32, code: u8, data_size: u32, bytes: &[u8]) -> (r: SmcKeyData)
    requires
        bytes@.len() <= MAX_DATA_LEN,
    ensures
        r@ == packet(key, code, data_size, bytes@),
{
    let mut data = no_payload();
    let mut i: usize = 0;
    while i < bytes.len()
        invariant
            i <= bytes@.len() <= MAX_DATA_LEN,
            forall|k: int| 0 <= k < i ==> data@[k] == bytes@[k],
            forall|k: int| i <= k < MAX_DATA_LEN ==> data@[k] == 0,
        decreases bytes@.len() - i,
    {
        data[i] = bytes[i];
        i = i + 1;
    }
    let mut r = SmcKeyData::default();
    r.key = key;
    r.data8 = code;
    r.key_info.data_size = data_size;
    r.bytes = data;
    assert(r.bytes@ =~= payload_of(bytes@));
    r
}

/// Builds the packet for one command that carries no payload.
pub fn inquiry(key: u32, code: u8, data_size: u32) -> (r: SmcKeyData)
    ensures
        r@ == packet(key, code, data_size, Seq::empty()),
{
    let mut r = SmcKeyData::default();
    r.key = key;
    r.data8 = code;
    r.key_info.data_size = data_size;
    r
}

// ---------------------------------------------------------------------------
// Key codes
// ---------------------------------------------------------------------------

/// The big-endian FourCC of a key: a number for four ASCII characters, nothing
/// for any other text.
#[verifier::opaque]
pub open spec fn key_code(key: Seq<char>) -> Option<u32> {
    if key.len() == 4 && utf8::is_ascii_chars(key) {
        Some(
            (key[0] as int * 0x100_0000 + key[1] as int * 0x1_0000 + key[2] as int * 0x100
                + key[3] as int) as u32,
        )
    } else {
        None
    }
}

/// The four bytes of a number, most significant first.
pub open spec fn big_endian(n: u32) -> Seq<u8> {
    seq![
        (n / 0x100_0000) as u8,
        (n / 0x1_0000 % 0x100) as u8,
        (n / 0x100 % 0x100) as u8,
        (n % 0x100) as u8,
    ]
}

/// The text of a key code.
pub open spec fn key_text(code: u32) -> Seq<char> {
    text::lossy_text(big_endian(code))
}

/// The text of a key code is the key that it was made of.
pub open spec fn names_itself(code: u32) -> bool {
    forall|key: Seq<char>| #[trigger] key_code(key) == Some(code) ==> key_text(code) == key
}

fn scalar(c: char) -> (r: u32)
    ensures
        r == c as u32,
        r == c as int,
{
    c as u32
}

/// Encodes a 4-character key as a big-endian FourCC.
pub fn fourcc(key: &str) -> (r: Result<u32, SmcError>)
    ensures
        match r {
            Ok(code) => key_code(key@) == Some(code),
            Err(e) => key_code(key@) is None && e@ == Fault::InvalidKey(key@),
        },
{
    proof {
        reveal(key_code);
    }
    let chars = text::chars_of(key);
    if chars.len() != 4 {
        return Err(SmcError::InvalidKey(key.to_string()));
    }
    let (a, b, c, d) = (scalar(chars[0]), scalar(chars[1]), scalar(chars[2]), scalar(chars[3]));
    if a > 127 || b > 127 || c > 127 || d > 127 {
        return Err(SmcError::InvalidKey(key.to_string()));
    }
    assert(utf8::is_ascii_chars(key@)) by {
        assert forall|i: int| 0 <= i < key@.len() implies '\0' <= #[trigger] key@[i] <= '\u{7f}' by {
            assert(i == 0 || i == 1 || i == 2 || i == 3);
        }
    }
    Ok(a * 0x100_0000 + b * 0x1_0000 + c * 0x100 + d)
}

/// Decodes a big-endian FourCC back to a 4-character key.
pub fn fourcc_str(key: u32) -> (r: String)
    ensures
        r@ == key_text(key),
        utf8::valid_utf8(big_endian(key)) ==> r@ == utf8::decode_utf8(big_endian(key)),
        forall|text: Seq<char>| #[trigger] key_code(text) == Some(key) ==> r@ == text,
{
    let mut bytes: Vec<u8> = Vec::new();
    bytes.push((key / 0x100_0000) as u8);
    bytes.push((key / 0x1_0000 % 0x100) as u8);
    bytes.push((key / 0x100 % 0x100) as u8);
    bytes.push((key % 0x100) as u8);
    assert(bytes@ =~= big_endian(key));
    proof {
        assert forall|text: Seq<char>| #[trigger] key_code(text) == Some(key) implies utf8::valid_utf8(
            big_endian(key),
        ) && utf8::decode_utf8(big_endian(key)) == text by {
            key_codes_hold_the_key(text);
        }
    }
    text::lossy(&bytes)
}

proof fn lemma_big_endian(a: int, b: int, c: int, d: int)
    requires
        0 <= a < 0x80,
        0 <= b < 0x80,
        0 <= c < 0x80,
        0 <= d < 0x80,
    ensures
        ({
            let n = a * 0x100_0000 + b * 0x1_0000 + c * 0x100 + d;
            &&& 0 <= n < 0x1_0000_0000
            &&& big_endian(n as u32) == seq![a as u8, b as u8, c as u8, d as u8]
        }),
{
    let n = a * 0x100_0000 + b * 0x1_0000 + c * 0x100 + d;
    assert(n / 0x100_0000 == a);
    assert(n / 0x1_0000 == a * 0x100 + b);
    assert(n / 0x100 == a * 0x1_0000 + b * 0x100 + c);
    assert(big_endian(n as u32) =~= seq![a as u8, b as u8, c as u8, d as u8]);
}

/// The bytes of a key code are the UTF-8 of the key that it was made of.
pub proof fn key_codes_hold_the_key(key: Seq<char>)
    requires
        key_code(key) is Some,
    ensures
        big_endian(key_code(key)->0) == utf8::encode_utf8(key),
        utf8::valid_utf8(big_endian(key_code(key)->0)),
        utf8::decode_utf8(big_endian(key_code(key)->0)) == key,
{
    reveal(key_code);
    let (a, b, c, d) = (key[0] as int, key[1] as int, key[2] as int, key[3] as int);
    let code = key_code(key)->0;
    lemma_big_endian(a, b, c, d);
    utf8::is_ascii_chars_encode_utf8(key);
    utf8::encode_utf8_valid_utf8(key);
    utf8::encode_utf8_decode_utf8(key);
    let encoded = utf8::encode_utf8(key);
    assert(encoded[0] == key[0] as u8 && encoded[1] == key[1] as u8 && encoded[2] == key[2] as u8
        && encoded[3] == key[3] as u8);
    assert(big_endian(code) =~= encoded);
}

/// Two keys with one code are one key.
pub proof fn key_codes_are_distinct(a: Seq<char>, b: Seq<char>)
    requires
        key_code(a) is Some,
        key_code(a) == key_code(b),
    ensures
        a == b,
{
    key_codes_hold_the_key(a);
    key_codes_hold_the_key(b);
}

// ---------------------------------------------------------------------------
// Result codes
// ---------------------------------------------------------------------------

/// The key that an error is about: the one that the reply carries. The SMC
/// leaves it at zero when it refuses a call; then it is the one that the caller
/// asked for.
pub open spec fn meant(requested: u32, output: Packet) -> u32 {
    if output.key == 0 {
        requested
    } else {
        output.key
    }
}

/// What the `result` field of a reply says about the call.
pub open spec fn verdict(requested: u32, output: Packet) -> Result<(), Fault> {
    let key = key_text(meant(requested, output));
    if output.result == 0 {
        Ok(())
    } else if output.result == SMC_KEY_NOT_FOUND {
        Err(Fault::KeyNotFound(key))
    } else {
        Err(Fault::Smc { key, result: output.result })
    }
}

/// The error names `key`.
pub open spec fn names_key(fault: Fault, key: Seq<char>) -> bool {
    match fault {
        Fault::KeyNotFound(named) => named == key,
        Fault::Smc { key: named, .. } => named == key,
        _ => false,
    }
}

/// Turns a nonzero `result` field into a typed error, which names the key.
pub fn check_result(requested: u32, output: &SmcKeyData) -> (r: Result<(), SmcError>)
    ensures
        error::fault_of(r) == verdict(requested, output@),
        forall|key: Seq<char>| #[trigger]
            key_code(key) == Some(meant(requested, output@)) && r is Err ==> names_key(
                r->Err_0@,
                key,
            ),
{
    let key = fourcc_str(
        if output.key == 0 {
            requested
        } else {
            output.key
        },
    );
    if output.result == 0 {
        Ok(())
    } else if output.result == SMC_KEY_NOT_FOUND {
        Err(SmcError::KeyNotFound(key))
    } else {
        Err(SmcError::Smc { key, result: output.result })
    }
}

/// What a struct call amounts to, given its `IOReturn` and its reply.
pub open spec fn call_result(rc: i32, requested: u32, output: Packet) -> Result<Packet, Fault> {
    if rc == K_IO_RETURN_NOT_PRIVILEGED {
        Err(Fault::NotPrivileged)
    } else if rc != 0 {
        Err(Fault::Io(rc))
    } else {
        match verdict(requested, output) {
            Ok(_) => Ok(output),
            Err(e) => Err(e),
        }
    }
}

/// Reads the outcome of one `IOConnectCallStructMethod` call.
pub fn call_outcome(rc: i32, requested: u32, output: SmcKeyData) -> (r: Result<
    SmcKeyData,
    SmcError,
>)
    ensures
        reply_of(r) == call_result(rc, requested, output@),
{
    if rc == K_IO_RETURN_NOT_PRIVILEGED {
        return Err(SmcError::NotPrivileged);
    }
    if rc != 0 {
        return Err(SmcError::Io(rc));
    }
    match check_result(requested, &output) {
        Ok(_) => Ok(output),
        Err(e) => Err(e),
    }
}

// ---------------------------------------------------------------------------
// Opening the service
// ---------------------------------------------------------------------------

/// The calls that open the `AppleSMC` service, in order.
#[derive(Debug, Clone, Copy, PartialEq, Eq, Structural)]
pub enum OpenStep {
    /// `IOMainPort`.
    MainPort,
    /// `IOServiceMatching`.
    Matching,
    /// `IOServiceGetMatchingServices`.
    Services,
    /// `IOIteratorNext`. The iterator is released right after.
    Device,
    /// `IOServiceOpen`. The service object is released right after.
    Connect,
    /// The connection is open.
    Connected,
}

/// What one of the calls gave back.
#[derive(Debug, Clone, Copy, PartialEq, Eq, Structural)]
pub enum OpenReply {
    /// An `IOReturn`.
    Code(i32),
    /// An object or a pointer, and whether it is there.
    Object(bool),
}

/// The step after `step`.
pub open spec fn following(step: OpenStep) -> OpenStep {
    match step {
        OpenStep::MainPort => OpenStep::Matching,
        OpenStep::Matching => OpenStep::Services,
        OpenStep::Services => OpenStep::Device,
        OpenStep::Device => OpenStep::Connect,
        OpenStep::Connect => OpenStep::Connected,
        OpenStep::Connected => OpenStep::Connected,
    }
}

/// What follows a call: the next one, or why the service cannot be opened.
pub open spec fn opened(step: OpenStep, reply: OpenReply) -> Result<OpenStep, Fault> {
    match reply {
        OpenReply::Code(rc) => if rc == 0 {
            Ok(following(step))
        } else {
            Err(Fault::Open(rc))
        },
        OpenReply::Object(there) => if there {
            Ok(following(step))
        } else {
            Err(Fault::ServiceNotFound)
        },
    }
}

/// Opening takes five calls, in their order, and goes on if and only if the last
/// one worked: a code that is not zero is reported, and so is an object that is
/// not there.
pub proof fn opening_takes_five_calls(step: OpenStep, rc: i32, there: bool)
    ensures
        opened(OpenStep::MainPort, OpenReply::Code(0)) == Ok::<OpenStep, Fault>(OpenStep::Matching),
        opened(OpenStep::Matching, OpenReply::Object(true)) == Ok::<OpenStep, Fault>(
            OpenStep::Services,
        ),
        opened(OpenStep::Services, OpenReply::Code(0)) == Ok::<OpenStep, Fault>(OpenStep::Device),
        opened(OpenStep::Device, OpenReply::Object(true)) == Ok::<OpenStep, Fault>(
            OpenStep::Connect,
        ),
        opened(OpenStep::Connect, OpenReply::Code(0)) == Ok::<OpenStep, Fault>(OpenStep::Connected),
        rc != 0 ==> opened(step, OpenReply::Code(rc)) == Err::<OpenStep, Fault>(Fault::Open(rc)),
        !there ==> opened(step, OpenReply::Object(there)) == Err::<OpenStep, Fault>(
            Fault::ServiceNotFound,
        ),
{
}

/// Goes on to the next call, or says why the service cannot be opened.
pub fn open_next(step: OpenStep, reply: OpenReply) -> (r: Result<OpenStep, SmcError>)
    ensures
        error::fault_of(r) == opened(step, reply),
{
    match reply {
        OpenReply::Code(rc) => if rc != 0 {
            return Err(SmcError::Open(rc));
        },
        OpenReply::Object(there) => if !there {
            return Err(SmcError::ServiceNotFound);
        },
    }
    Ok(
        match step {
            OpenStep::MainPort => OpenStep::Matching,
            OpenStep::Matching => OpenStep::Services,
            OpenStep::Services => OpenStep::Device,
            OpenStep::Device => OpenStep::Connect,
            OpenStep::Connect => OpenStep::Connected,
            OpenStep::Connected => OpenStep::Connected,
        },
    )
}

// ---------------------------------------------------------------------------
// The driver
// ---------------------------------------------------------------------------

/// A reply, or the error of the call, taken by its view.
pub open spec fn reply_of(r: Result<SmcKeyData, SmcError>) -> Result<Packet, Fault> {
    match r {
        Ok(output) => Ok(output@),
        Err(e) => Err(e@),
    }
}

/// One round trip: what went out and what came back.
pub struct Exchange {
    pub sent: Packet,
    pub reply: Result<Packet, Fault>,
}

/// One round trip to the SMC.
pub trait Driver {
    /// Every round trip so far, in order. It is there for proofs alone: a
    /// driver that nothing is proved of need not say what it is.
    closed spec fn log(&self) -> Seq<Exchange> {
        vstd::pervasive::arbitrary()
    }

    /// Whether this round trip can take the driver from its state to the state
    /// `after`. A driver that nothing is proved of need not say: any can.
    closed spec fn leads_to(&self, exchange: Exchange, after: &Self) -> bool {
        true
    }

    /// Sends `input` and returns the reply, or a typed error.
    fn call(&mut self, input: SmcKeyData) -> (r: Result<SmcKeyData, SmcError>)
        ensures
            final(self).log() == old(self).log().push(
                (Exchange { sent: input@, reply: reply_of(r) }),
            ),
            (*old(self)).leads_to(
                (Exchange { sent: input@, reply: reply_of(r) }),
                &*final(self),
            ),
    ;
}

/// One round trip took the driver from `before` to `after`.
pub open spec fn stepped<D: Driver>(before: D, after: D) -> bool {
    let exchange = after.log().last();
    &&& after.log() == before.log().push(exchange)
    &&& before.leads_to(exchange, &after)
}

/// `n` round trips took the driver from `before` to `after`.
pub open spec fn reached_in<D: Driver>(before: D, after: D, n: nat) -> bool
    decreases n,
{
    if n == 0 {
        before == after
    } else {
        exists|between: D|
            reached_in(before, between, (n - 1) as nat) && #[trigger] stepped(between, after)
    }
}

/// Round trips, and nothing else, took the driver from `before` to `after`.
#[verifier::opaque]
pub open spec fn reached<D: Driver>(before: D, after: D) -> bool {
    exists|n: nat| #[trigger] reached_in(before, after, n)
}

/// A driver that nothing happened to was reached from itself.
pub broadcast proof fn lemma_reached_itself<D: Driver>(device: D)
    ensures
        #[trigger] reached(device, device),
{
    reveal(reached);
    assert(reached_in(device, device, 0));
}

/// A driver was reached by the round trip that it made.
pub proof fn lemma_reached_once<D: Driver>(before: D, after: D)
    requires
        stepped(before, after),
    ensures
        reached(before, after),
{
    reveal(reached);
    assert(reached_in(before, before, 0));
    assert(reached_in(before, after, 1));
}

/// A driver that was reached from one that was reached was reached.
pub broadcast proof fn lemma_reached_twice<D: Driver>(before: D, between: D, after: D)
    requires
        #[trigger] reached(before, between),
        #[trigger] reached(between, after),
    ensures
        reached(before, after),
{
    reveal(reached);
    let n = choose|n: nat| #[trigger] reached_in(before, between, n);
    let m = choose|m: nat| #[trigger] reached_in(between, after, m);
    lemma_reached_in(before, between, after, n, m);
}

proof fn lemma_reached_in<D: Driver>(before: D, between: D, after: D, n: nat, m: nat)
    requires
        reached_in(before, between, n),
        reached_in(between, after, m),
    ensures
        reached_in(before, after, n + m),
    decreases m,
{
    if m > 0 {
        let last = choose|last: D|
            reached_in(between, last, (m - 1) as nat) && #[trigger] stepped(last, after);
        lemma_reached_in(before, between, last, n, (m - 1) as nat);
        assert((n + m - 1) as nat == n + (m - 1) as nat);
    }
}

/// How the states of a driver follow one another.
pub broadcast group group_reached {
    lemma_reached_itself,
    lemma_reached_twice,
}

} // verus!
