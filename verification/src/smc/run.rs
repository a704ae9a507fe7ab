//! What each SMC operation sends and what it returns, as a function of the
//! replies that come in.
//!
//! An operation is a [`Run`]: the packets it sends, in order, and its result.
//! The replies are read off the log of the driver: the reply to the packet
//! sent at position `i` is `log[i].reply`.

use crate::proto::ChargeControlMode;
use crate::smc::driver::{self, Exchange, KeyInfo, Packet};
use crate::smc::error::Fault;
use crate::smc::{
    FirmwareLimit, LegacyGate, MagsafeLed, ADAPTER_OFF, ADAPTER_OFF_CHIE, ADAPTER_ON, ALL_KEYS,
    CHARGE_ALLOW, CHARGE_INHIBIT, FIRMWARE_ACTIVE, FIRMWARE_OFF, KEY_ACLC, KEY_ACW, KEY_BFD0,
    KEY_BFE0, KEY_BFF0, KEY_BUIC, KEY_CH0B, KEY_CH0C, KEY_CH0I, KEY_CH0J, KEY_CHIE, KEY_CHTE,
};
use crate::text;
use vstd::prelude::*;

verus! {

/// The packets of an operation, in order, and its result.
pub struct Run<T> {
    pub sent: Seq<Packet>,
    pub value: Result<T, Fault>,
}

/// The operation that sends nothing and returns `value`.
pub open spec fn done<T>(value: T) -> Run<T> {
    Run { sent: Seq::empty(), value: Ok(value) }
}

/// The operation that sends nothing and fails.
pub open spec fn failed<T>(fault: Fault) -> Run<T> {
    Run { sent: Seq::empty(), value: Err(fault) }
}

/// `first`, and then `second`.
pub open spec fn joined(first: Seq<Packet>, second: Seq<Packet>) -> Seq<Packet> {
    if second.len() == 0 {
        first
    } else {
        first + second
    }
}

/// `first`, and then `rest` unless `first` failed.
pub open spec fn chain<A, B>(first: Run<A>, rest: Run<B>) -> Run<B> {
    match first.value {
        Ok(_) => Run { sent: joined(first.sent, rest.sent), value: rest.value },
        Err(e) => Run { sent: first.sent, value: Err(e) },
    }
}

/// The position in the log after `run`, which started at `at`.
pub open spec fn past<T>(at: int, run: Run<T>) -> int {
    at + run.sent.len()
}

/// From `before` to `after` the log grew by the packets `sent`.
pub open spec fn followed(before: Seq<Exchange>, after: Seq<Exchange>, sent: Seq<Packet>) -> bool {
    &&& after.len() == before.len() + sent.len()
    &&& forall|i: int| 0 <= i < before.len() ==> #[trigger] after[i] == before[i]
    &&& forall|i: int|
        0 <= i < sent.len() ==> (#[trigger] after[before.len() + i]).sent == sent[i]
}

/// From `before` to `after` the log grew by the packets of `run`, and the
/// operation returned `value`, as `run` does.
pub open spec fn performed<T>(
    before: Seq<Exchange>,
    after: Seq<Exchange>,
    run: Run<T>,
    value: Result<T, Fault>,
) -> bool {
    &&& followed(before, after, run.sent)
    &&& value == run.value
}

/// The log that grew by one round trip grew by its packet.
pub proof fn lemma_exchanged(before: Seq<Exchange>, after: Seq<Exchange>, exchange: Exchange)
    requires
        after == before.push(exchange),
    ensures
        followed(before, after, seq![exchange.sent]),
        after[before.len() as int].reply == exchange.reply,
{
}

/// Every round trip of `before` is one of `after`, at the same position.
pub open spec fn extends(after: Seq<Exchange>, before: Seq<Exchange>) -> bool {
    &&& before.len() <= after.len()
    &&& forall|i: int| 0 <= i < before.len() ==> #[trigger] after[i] == before[i]
}

/// A log that grew holds what it held.
pub broadcast proof fn lemma_followed_extends(
    before: Seq<Exchange>,
    after: Seq<Exchange>,
    sent: Seq<Packet>,
)
    requires
        #[trigger] followed(before, after, sent),
    ensures
        extends(after, before),
{
}

/// A log that grew twice grew by both.
pub broadcast proof fn lemma_followed_twice(
    before: Seq<Exchange>,
    between: Seq<Exchange>,
    after: Seq<Exchange>,
    first: Seq<Packet>,
    second: Seq<Packet>,
)
    requires
        #[trigger] followed(before, between, first),
        #[trigger] followed(between, after, second),
    ensures
        followed(before, after, joined(first, second)),
{
    let sent = first + second;
    assert forall|i: int| 0 <= i < sent.len() implies (#[trigger] after[before.len() + i]).sent
        == sent[i] by {
        if i < first.len() {
            assert(between[before.len() + i].sent == first[i]);
        } else {
            assert(after[between.len() + (i - first.len())].sent == second[i - first.len()]);
        }
    }
    if second.len() == 0 {
        assert(first + second =~= first);
    }
}

// ---------------------------------------------------------------------------
// Keys
// ---------------------------------------------------------------------------

/// What the probe of one Mac found.
pub struct Probe {
    /// The keys that are there, by their code.
    pub present: Map<u32, KeyInfo>,
    pub mode: ChargeControlMode,
}

/// The probe found `key`.
pub open spec fn found(p: Probe, key: Seq<char>) -> bool {
    driver::key_code(key) is Some && p.present.contains_key(driver::key_code(key)->0)
}

/// The reply to the packet at `at`.
pub open spec fn exchange_run(packet: Packet, log: Seq<Exchange>, at: int) -> Run<Packet> {
    Run { sent: seq![packet], value: log[at].reply }
}

/// Asks for the size and type of `key`.
pub open spec fn query_run(key: Seq<char>, log: Seq<Exchange>, at: int) -> Run<KeyInfo> {
    match driver::key_code(key) {
        None => failed(Fault::InvalidKey(key)),
        Some(code) => {
            let asked = exchange_run(
                driver::packet(code, driver::CMD_READ_KEY_INFO, 0, Seq::empty()),
                log,
                at,
            );
            chain(asked, done(asked.value->Ok_0.key_info))
        },
    }
}

/// The size and type of `key`: what the probe found, or else what the SMC
/// says. A size of zero means that there is no such key.
pub open spec fn key_info_run(p: Probe, key: Seq<char>, log: Seq<Exchange>, at: int) -> Run<
    KeyInfo,
> {
    if found(p, key) {
        done(p.present[driver::key_code(key)->0])
    } else {
        let asked = query_run(key, log, at);
        chain(
            asked,
            if asked.value->Ok_0.data_size == 0 {
                failed(Fault::KeyNotFound(key))
            } else {
                done(asked.value->Ok_0)
            },
        )
    }
}

/// What comes after an operation does not change it.
pub broadcast proof fn lemma_key_info_kept(
    p: Probe,
    key: Seq<char>,
    log: Seq<Exchange>,
    longer: Seq<Exchange>,
    at: int,
)
    requires
        #[trigger] extends(longer, log),
        0 <= at,
        past(at, key_info_run(p, key, log, at)) <= log.len(),
    ensures
        #[trigger] key_info_run(p, key, longer, at) == key_info_run(p, key, log, at),
{
}

/// The bytes of `key`: as many as it has, and no more than a packet carries.
#[verifier::opaque]
pub open spec fn read_run(p: Probe, key: Seq<char>, log: Seq<Exchange>, at: int) -> Run<Seq<u8>> {
    let info = key_info_run(p, key, log, at);
    let size = info.value->Ok_0.data_size;
    let asked = exchange_run(
        driver::packet(driver::key_code(key)->0, driver::CMD_READ_BYTES, size, Seq::empty()),
        log,
        past(at, info),
    );
    let len: int = if size < driver::MAX_DATA_LEN {
        size as int
    } else {
        driver::MAX_DATA_LEN as int
    };
    chain(info, chain(asked, done(asked.value->Ok_0.bytes.take(len))))
}

/// What comes after an operation does not change it.
pub broadcast proof fn lemma_read_kept(
    p: Probe,
    key: Seq<char>,
    log: Seq<Exchange>,
    longer: Seq<Exchange>,
    at: int,
)
    requires
        #[trigger] extends(longer, log),
        0 <= at,
        past(at, read_run(p, key, log, at)) <= log.len(),
    ensures
        #[trigger] read_run(p, key, longer, at) == read_run(p, key, log, at),
{
    reveal(read_run);
}

/// Writes `bytes` to `key`, which must be as many as it has.
#[verifier::opaque]
pub open spec fn write_run(
    p: Probe,
    key: Seq<char>,
    bytes: Seq<u8>,
    log: Seq<Exchange>,
    at: int,
) -> Run<()> {
    let info = key_info_run(p, key, log, at);
    let size = info.value->Ok_0.data_size;
    let asked = exchange_run(
        driver::packet(driver::key_code(key)->0, driver::CMD_WRITE_BYTES, size, bytes),
        log,
        past(at, info),
    );
    chain(
        info,
        if size != bytes.len() || bytes.len() > driver::MAX_DATA_LEN {
            failed(
                Fault::UnexpectedSize { key, expected: size as usize, got: bytes.len() as usize },
            )
        } else {
            chain(asked, done(()))
        },
    )
}

/// What comes after an operation does not change it.
pub broadcast proof fn lemma_write_kept(
    p: Probe,
    key: Seq<char>,
    bytes: Seq<u8>,
    log: Seq<Exchange>,
    longer: Seq<Exchange>,
    at: int,
)
    requires
        #[trigger] extends(longer, log),
        0 <= at,
        past(at, write_run(p, key, bytes, log, at)) <= log.len(),
    ensures
        #[trigger] write_run(p, key, bytes, longer, at) == write_run(p, key, bytes, log, at),
{
    reveal(write_run);
}

/// The first byte of `key`.
#[verifier::opaque]
pub open spec fn read_u8_run(p: Probe, key: Seq<char>, log: Seq<Exchange>, at: int) -> Run<u8> {
    let read = read_run(p, key, log, at);
    let bytes = read.value->Ok_0;
    chain(
        read,
        if bytes.len() > 0 {
            done(bytes[0])
        } else {
            failed(Fault::UnexpectedSize { key, expected: 1, got: 0 })
        },
    )
}

/// What comes after an operation does not change it.
pub broadcast proof fn lemma_read_u8_kept(
    p: Probe,
    key: Seq<char>,
    log: Seq<Exchange>,
    longer: Seq<Exchange>,
    at: int,
)
    requires
        #[trigger] extends(longer, log),
        0 <= at,
        past(at, read_u8_run(p, key, log, at)) <= log.len(),
    ensures
        #[trigger] read_u8_run(p, key, longer, at) == read_u8_run(p, key, log, at),
{
    broadcast use lemma_read_kept;

    reveal(read_u8_run);
}

/// Four bytes as a number, least significant first.
pub open spec fn little_endian_value(bytes: Seq<u8>) -> u32 {
    (bytes[0] + bytes[1] * 0x100 + bytes[2] * 0x1_0000 + bytes[3] * 0x100_0000) as u32
}

/// A number below 256 as four bytes, least significant first.
pub open spec fn little_endian(n: u8) -> Seq<u8> {
    seq![n, 0, 0, 0]
}

/// The first four bytes of `key`, as a little-endian number.
#[verifier::opaque]
pub open spec fn read_u32_le_run(p: Probe, key: Seq<char>, log: Seq<Exchange>, at: int) -> Run<
    u32,
> {
    let read = read_run(p, key, log, at);
    let bytes = read.value->Ok_0;
    chain(
        read,
        if bytes.len() >= 4 {
            done(little_endian_value(bytes))
        } else {
            failed(Fault::UnexpectedSize { key, expected: 4, got: bytes.len() as usize })
        },
    )
}

/// What comes after an operation does not change it.
pub broadcast proof fn lemma_read_u32_le_kept(
    p: Probe,
    key: Seq<char>,
    log: Seq<Exchange>,
    longer: Seq<Exchange>,
    at: int,
)
    requires
        #[trigger] extends(longer, log),
        0 <= at,
        past(at, read_u32_le_run(p, key, log, at)) <= log.len(),
    ensures
        #[trigger] read_u32_le_run(p, key, longer, at) == read_u32_le_run(p, key, log, at),
{
    broadcast use lemma_read_kept;

    reveal(read_u32_le_run);
}

// ---------------------------------------------------------------------------
// The probe
// ---------------------------------------------------------------------------

/// The code of one of the keys that the probe looks for.
pub open spec fn known_code(i: int) -> u32 {
    driver::key_code(ALL_KEYS[i]@)->0
}

/// What the probe sends: one question for each known key, in order.
pub open spec fn probe_packets(n: int) -> Seq<Packet> {
    Seq::new(
        n as nat,
        |i: int| driver::packet(known_code(i), driver::CMD_READ_KEY_INFO, 0, Seq::empty()),
    )
}

/// What the first `n` replies to the probe say: a key is there when the reply
/// gives it a size above zero.
pub open spec fn probed(log: Seq<Exchange>, at: int, n: int) -> Map<u32, KeyInfo>
    decreases n,
{
    if n <= 0 {
        Map::empty()
    } else {
        let rest = probed(log, at, n - 1);
        match log[at + n - 1].reply {
            Ok(output) => if output.key_info.data_size > 0 {
                rest.insert(known_code(n - 1), output.key_info)
            } else {
                rest
            },
            Err(_) => rest,
        }
    }
}

/// What comes after the probe does not change it.
pub proof fn lemma_probed_kept(log: Seq<Exchange>, longer: Seq<Exchange>, at: int, n: int)
    requires
        extends(longer, log),
        0 <= at,
        at + n <= log.len(),
    ensures
        probed(longer, at, n) == probed(log, at, n),
    decreases n,
{
    if n > 0 {
        lemma_probed_kept(log, longer, at, n - 1);
    }
}

/// Every known key has a code, and no two have the same.
pub proof fn lemma_known_codes()
    ensures
        forall|i: int| 0 <= i < 12 ==> driver::key_code((#[trigger] ALL_KEYS[i])@) is Some,
        known_code(0) == 0x43483042,
        known_code(1) == 0x43483043,
        known_code(2) == 0x43485445,
        known_code(3) == 0x62664630,
        known_code(4) == 0x62664430,
        known_code(5) == 0x62664530,
        known_code(6) == 0x42554943,
        known_code(7) == 0x41432d57,
        known_code(8) == 0x41434c43,
        known_code(9) == 0x43483049,
        known_code(10) == 0x4348304a,
        known_code(11) == 0x43484945,
{
    reveal(driver::key_code);
    reveal_strlit("CH0B");
    reveal_strlit("CH0C");
    reveal_strlit("CHTE");
    reveal_strlit("bfF0");
    reveal_strlit("bfD0");
    reveal_strlit("bfE0");
    reveal_strlit("BUIC");
    reveal_strlit("AC-W");
    reveal_strlit("ACLC");
    reveal_strlit("CH0I");
    reveal_strlit("CH0J");
    reveal_strlit("CHIE");
}

// ---------------------------------------------------------------------------
// Charge control
// ---------------------------------------------------------------------------

/// The mode that the keys on a Mac make possible. The firmware limit wins over
/// the legacy gate.
pub open spec fn mode_of(present: Map<u32, KeyInfo>) -> ChargeControlMode {
    let p = Probe { present, mode: ChargeControlMode::Unsupported };
    if found(p, KEY_BFF0@) && found(p, KEY_BFD0@) && found(p, KEY_BFE0@) {
        ChargeControlMode::Firmware
    } else if (found(p, KEY_CH0B@) && found(p, KEY_CH0C@)) || found(p, KEY_CHTE@) {
        ChargeControlMode::Legacy
    } else {
        ChargeControlMode::Unsupported
    }
}

/// The legacy gate of a Mac in legacy mode.
pub open spec fn gate_of(p: Probe) -> LegacyGate {
    if found(p, KEY_CH0B@) && found(p, KEY_CH0C@) {
        LegacyGate::Ch0
    } else {
        LegacyGate::Chte
    }
}

/// The fault of a call that needs legacy charge control.
pub open spec fn not_legacy(p: Probe) -> Fault {
    Fault::WrongMode { mode: p.mode, need: "legacy charge control"@ }
}

/// The fault of a call that needs firmware charge control.
pub open spec fn not_firmware(p: Probe) -> Fault {
    Fault::WrongMode { mode: p.mode, need: "firmware charge control"@ }
}

/// Every byte is zero.
pub open spec fn all_zero(bytes: Seq<u8>) -> bool {
    forall|i: int| 0 <= i < bytes.len() ==> bytes[i] == 0
}

/// Whether the legacy gate allows charging.
#[verifier::opaque]
pub open spec fn allowed_run(p: Probe, log: Seq<Exchange>, at: int) -> Run<bool> {
    if p.mode != ChargeControlMode::Legacy {
        failed(not_legacy(p))
    } else {
        match gate_of(p) {
            LegacyGate::Ch0 => {
                let read = read_u8_run(p, KEY_CH0B@, log, at);
                chain(read, done(read.value->Ok_0 == CHARGE_ALLOW))
            },
            LegacyGate::Chte => {
                let read = read_run(p, KEY_CHTE@, log, at);
                chain(read, done(all_zero(read.value->Ok_0)))
            },
        }
    }
}

/// Opens or closes the legacy gate: `CH0B` and then `CH0C`, or `CHTE`.
#[verifier::opaque]
pub open spec fn set_gate_run(p: Probe, allow: bool, log: Seq<Exchange>, at: int) -> Run<()> {
    if p.mode != ChargeControlMode::Legacy {
        failed(not_legacy(p))
    } else {
        match gate_of(p) {
            LegacyGate::Ch0 => {
                let value = seq![
                    if allow {
                        CHARGE_ALLOW
                    } else {
                        CHARGE_INHIBIT
                    },
                ];
                let first = write_run(p, KEY_CH0B@, value, log, at);
                chain(first, write_run(p, KEY_CH0C@, value, log, past(at, first)))
            },
            LegacyGate::Chte => write_run(
                p,
                KEY_CHTE@,
                little_endian(
                    if allow {
                        0u8
                    } else {
                        1u8
                    },
                ),
                log,
                at,
            ),
        }
    }
}

/// A number as a percent: what does not fit is the largest that does.
pub open spec fn capped(n: u32) -> u8 {
    if n < 255 {
        n as u8
    } else {
        255
    }
}

/// The state of the firmware limit.
#[verifier::opaque]
pub open spec fn firmware_limit_run(p: Probe, log: Seq<Exchange>, at: int) -> Run<FirmwareLimit> {
    if p.mode != ChargeControlMode::Firmware {
        failed(not_firmware(p))
    } else {
        let active = read_u8_run(p, KEY_BFF0@, log, at);
        let upper = read_u32_le_run(p, KEY_BFD0@, log, past(at, active));
        let lower = read_u32_le_run(p, KEY_BFE0@, log, past(past(at, active), upper));
        chain(
            active,
            chain(
                upper,
                chain(
                    lower,
                    done(
                        FirmwareLimit {
                            active: active.value->Ok_0 == FIRMWARE_ACTIVE,
                            lower: capped(lower.value->Ok_0),
                            upper: capped(upper.value->Ok_0),
                        },
                    ),
                ),
            ),
        )
    }
}

/// What a firmware limit that cannot be set is refused with.
pub open spec fn bad_limit(lower: u8, upper: u8) -> Fault {
    Fault::InvalidLimit(
        "need lower < upper <= 100, got lower "@ + text::decimal(lower as nat) + ", upper "@
            + text::decimal(upper as nat),
    )
}

/// Sets and activates the firmware limit, in the order that the firmware
/// needs: upper, lower, activation.
#[verifier::opaque]
pub open spec fn set_firmware_limit_run(
    p: Probe,
    lower: u8,
    upper: u8,
    log: Seq<Exchange>,
    at: int,
) -> Run<()> {
    if lower >= upper || upper > 100 {
        failed(bad_limit(lower, upper))
    } else if p.mode != ChargeControlMode::Firmware {
        failed(not_firmware(p))
    } else {
        let first = write_run(p, KEY_BFD0@, little_endian(upper), log, at);
        let second = write_run(p, KEY_BFE0@, little_endian(lower), log, past(at, first));
        let third = write_run(
            p,
            KEY_BFF0@,
            seq![FIRMWARE_ACTIVE],
            log,
            past(past(at, first), second),
        );
        chain(first, chain(second, third))
    }
}

/// Deactivates the firmware limit.
#[verifier::opaque]
pub open spec fn clear_firmware_limit_run(p: Probe, log: Seq<Exchange>, at: int) -> Run<()> {
    if p.mode != ChargeControlMode::Firmware {
        failed(not_firmware(p))
    } else {
        write_run(p, KEY_BFF0@, seq![FIRMWARE_OFF], log, at)
    }
}

/// Returns the machine to unrestricted charging.
#[verifier::opaque]
pub open spec fn reset_run(p: Probe, log: Seq<Exchange>, at: int) -> Run<()> {
    match p.mode {
        ChargeControlMode::Legacy => set_gate_run(p, true, log, at),
        ChargeControlMode::Firmware => clear_firmware_limit_run(p, log, at),
        ChargeControlMode::Unsupported => failed(
            Fault::WrongMode { mode: p.mode, need: "legacy or firmware charge control"@ },
        ),
    }
}

// ---------------------------------------------------------------------------
// Battery, adapter and MagSafe LED
// ---------------------------------------------------------------------------

/// The battery charge percent.
#[verifier::opaque]
pub open spec fn battery_run(p: Probe, log: Seq<Exchange>, at: int) -> Run<u8> {
    read_u8_run(p, KEY_BUIC@, log, at)
}

/// Whether a power adapter is attached: the byte read as a signed number is
/// above zero.
#[verifier::opaque]
pub open spec fn plugged_in_run(p: Probe, log: Seq<Exchange>, at: int) -> Run<bool> {
    let read = read_u8_run(p, KEY_ACW@, log, at);
    chain(read, done(0 < read.value->Ok_0 < 0x80))
}

/// The adapter gate of a Mac: the first of its three variants that is there.
pub open spec fn adapter_key(p: Probe) -> Option<Seq<char>> {
    if found(p, KEY_CH0I@) {
        Some(KEY_CH0I@)
    } else if found(p, KEY_CH0J@) {
        Some(KEY_CH0J@)
    } else if found(p, KEY_CHIE@) {
        Some(KEY_CHIE@)
    } else {
        None
    }
}

/// Whether the power adapter is enabled.
#[verifier::opaque]
pub open spec fn adapter_run(p: Probe, log: Seq<Exchange>, at: int) -> Run<bool> {
    match adapter_key(p) {
        None => failed(Fault::Unsupported("adapter control"@)),
        Some(key) => {
            let read = read_u8_run(p, key, log, at);
            chain(read, done(read.value->Ok_0 == ADAPTER_ON))
        },
    }
}

/// The byte that enables or disables the adapter at `key`.
pub open spec fn adapter_byte(key: Seq<char>, on: bool) -> u8 {
    if on {
        ADAPTER_ON
    } else if key == KEY_CHIE@ {
        ADAPTER_OFF_CHIE
    } else {
        ADAPTER_OFF
    }
}

/// Enables or disables the power adapter.
#[verifier::opaque]
pub open spec fn set_adapter_run(p: Probe, on: bool, log: Seq<Exchange>, at: int) -> Run<()> {
    match adapter_key(p) {
        None => failed(Fault::Unsupported("adapter control"@)),
        Some(key) => write_run(p, key, seq![adapter_byte(key, on)], log, at),
    }
}

/// The colour that a raw `ACLC` byte stands for.
pub open spec fn led_of(byte: u8) -> MagsafeLed {
    if byte == 1 {
        MagsafeLed::Off
    } else if byte == 2 || byte == 3 {
        MagsafeLed::Green
    } else if byte == 4 {
        MagsafeLed::Orange
    } else {
        MagsafeLed::System
    }
}

/// The `ACLC` byte of a colour.
pub open spec fn led_byte(led: MagsafeLed) -> u8 {
    match led {
        MagsafeLed::System => 0x00,
        MagsafeLed::Off => 0x01,
        MagsafeLed::Green => 0x03,
        MagsafeLed::Orange => 0x04,
    }
}

/// The MagSafe LED colour.
#[verifier::opaque]
pub open spec fn led_run(p: Probe, log: Seq<Exchange>, at: int) -> Run<MagsafeLed> {
    if !found(p, KEY_ACLC@) {
        failed(Fault::Unsupported("MagSafe LED"@))
    } else {
        let read = read_u8_run(p, KEY_ACLC@, log, at);
        chain(read, done(led_of(read.value->Ok_0)))
    }
}

/// Sets the MagSafe LED colour.
#[verifier::opaque]
pub open spec fn set_led_run(p: Probe, led: MagsafeLed, log: Seq<Exchange>, at: int) -> Run<()> {
    if !found(p, KEY_ACLC@) {
        failed(Fault::Unsupported("MagSafe LED"@))
    } else {
        write_run(p, KEY_ACLC@, seq![led_byte(led)], log, at)
    }
}

// ---------------------------------------------------------------------------
// What comes after an operation does not change it
// ---------------------------------------------------------------------------

pub broadcast proof fn lemma_allowed_kept(
    p: Probe,
    log: Seq<Exchange>,
    longer: Seq<Exchange>,
    at: int,
)
    requires
        #[trigger] extends(longer, log),
        0 <= at,
        past(at, allowed_run(p, log, at)) <= log.len(),
    ensures
        #[trigger] allowed_run(p, longer, at) == allowed_run(p, log, at),
{
    broadcast use group_runs;

    reveal(allowed_run);
}

pub broadcast proof fn lemma_set_gate_kept(
    p: Probe,
    allow: bool,
    log: Seq<Exchange>,
    longer: Seq<Exchange>,
    at: int,
)
    requires
        #[trigger] extends(longer, log),
        0 <= at,
        past(at, set_gate_run(p, allow, log, at)) <= log.len(),
    ensures
        #[trigger] set_gate_run(p, allow, longer, at) == set_gate_run(p, allow, log, at),
{
    broadcast use group_runs;

    reveal(set_gate_run);
}

pub broadcast proof fn lemma_firmware_limit_kept(
    p: Probe,
    log: Seq<Exchange>,
    longer: Seq<Exchange>,
    at: int,
)
    requires
        #[trigger] extends(longer, log),
        0 <= at,
        past(at, firmware_limit_run(p, log, at)) <= log.len(),
    ensures
        #[trigger] firmware_limit_run(p, longer, at) == firmware_limit_run(p, log, at),
{
    broadcast use group_runs;

    reveal(firmware_limit_run);
}

pub broadcast proof fn lemma_set_firmware_limit_kept(
    p: Probe,
    lower: u8,
    upper: u8,
    log: Seq<Exchange>,
    longer: Seq<Exchange>,
    at: int,
)
    requires
        #[trigger] extends(longer, log),
        0 <= at,
        past(at, set_firmware_limit_run(p, lower, upper, log, at)) <= log.len(),
    ensures
        #[trigger] set_firmware_limit_run(p, lower, upper, longer, at) == set_firmware_limit_run(p, lower, upper, log, at),
{
    broadcast use group_runs;

    reveal(set_firmware_limit_run);
}

pub broadcast proof fn lemma_clear_firmware_limit_kept(
    p: Probe,
    log: Seq<Exchange>,
    longer: Seq<Exchange>,
    at: int,
)
    requires
        #[trigger] extends(longer, log),
        0 <= at,
        past(at, clear_firmware_limit_run(p, log, at)) <= log.len(),
    ensures
        #[trigger] clear_firmware_limit_run(p, longer, at) == clear_firmware_limit_run(p, log, at),
{
    broadcast use group_runs;

    reveal(clear_firmware_limit_run);
}

pub broadcast proof fn lemma_reset_kept(
    p: Probe,
    log: Seq<Exchange>,
    longer: Seq<Exchange>,
    at: int,
)
    requires
        #[trigger] extends(longer, log),
        0 <= at,
        past(at, reset_run(p, log, at)) <= log.len(),
    ensures
        #[trigger] reset_run(p, longer, at) == reset_run(p, log, at),
{
    broadcast use {lemma_set_gate_kept, lemma_clear_firmware_limit_kept};

    reveal(reset_run);
}

pub broadcast proof fn lemma_battery_kept(
    p: Probe,
    log: Seq<Exchange>,
    longer: Seq<Exchange>,
    at: int,
)
    requires
        #[trigger] extends(longer, log),
        0 <= at,
        past(at, battery_run(p, log, at)) <= log.len(),
    ensures
        #[trigger] battery_run(p, longer, at) == battery_run(p, log, at),
{
    broadcast use group_runs;

    reveal(battery_run);
}

pub broadcast proof fn lemma_plugged_in_kept(
    p: Probe,
    log: Seq<Exchange>,
    longer: Seq<Exchange>,
    at: int,
)
    requires
        #[trigger] extends(longer, log),
        0 <= at,
        past(at, plugged_in_run(p, log, at)) <= log.len(),
    ensures
        #[trigger] plugged_in_run(p, longer, at) == plugged_in_run(p, log, at),
{
    broadcast use group_runs;

    reveal(plugged_in_run);
}

pub broadcast proof fn lemma_adapter_kept(
    p: Probe,
    log: Seq<Exchange>,
    longer: Seq<Exchange>,
    at: int,
)
    requires
        #[trigger] extends(longer, log),
        0 <= at,
        past(at, adapter_run(p, log, at)) <= log.len(),
    ensures
        #[trigger] adapter_run(p, longer, at) == adapter_run(p, log, at),
{
    broadcast use group_runs;

    reveal(adapter_run);
}

pub broadcast proof fn lemma_set_adapter_kept(
    p: Probe,
    on: bool,
    log: Seq<Exchange>,
    longer: Seq<Exchange>,
    at: int,
)
    requires
        #[trigger] extends(longer, log),
        0 <= at,
        past(at, set_adapter_run(p, on, log, at)) <= log.len(),
    ensures
        #[trigger] set_adapter_run(p, on, longer, at) == set_adapter_run(p, on, log, at),
{
    broadcast use group_runs;

    reveal(set_adapter_run);
}

pub broadcast proof fn lemma_led_kept(
    p: Probe,
    log: Seq<Exchange>,
    longer: Seq<Exchange>,
    at: int,
)
    requires
        #[trigger] extends(longer, log),
        0 <= at,
        past(at, led_run(p, log, at)) <= log.len(),
    ensures
        #[trigger] led_run(p, longer, at) == led_run(p, log, at),
{
    broadcast use group_runs;

    reveal(led_run);
}

pub broadcast proof fn lemma_set_led_kept(
    p: Probe,
    led: MagsafeLed,
    log: Seq<Exchange>,
    longer: Seq<Exchange>,
    at: int,
)
    requires
        #[trigger] extends(longer, log),
        0 <= at,
        past(at, set_led_run(p, led, log, at)) <= log.len(),
    ensures
        #[trigger] set_led_run(p, led, longer, at) == set_led_run(p, led, log, at),
{
    broadcast use group_runs;

    reveal(set_led_run);
}

/// How logs grow, and that runs are settled by the part of the log that they
/// made.
pub broadcast group group_runs {
    lemma_followed_extends,
    lemma_followed_twice,
    lemma_key_info_kept,
    lemma_read_kept,
    lemma_write_kept,
    lemma_read_u8_kept,
    lemma_read_u32_le_kept,
}

/// That the typed operations are settled by the part of the log that they
/// made.
pub broadcast group group_typed_runs {
    lemma_followed_extends,
    lemma_followed_twice,
    lemma_allowed_kept,
    lemma_set_gate_kept,
    lemma_firmware_limit_kept,
    lemma_set_firmware_limit_kept,
    lemma_clear_firmware_limit_kept,
    lemma_reset_kept,
    lemma_battery_kept,
    lemma_plugged_in_kept,
    lemma_adapter_kept,
    lemma_set_adapter_kept,
    lemma_led_kept,
    lemma_set_led_kept,
}

} // verus!
