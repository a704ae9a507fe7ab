//! An SMC that keeps what it is told: what it answers, what it holds
//! afterwards, and what follows for the typed operations.

use crate::proto::ChargeControlMode;
use crate::smc::driver::{self, Exchange, KeyInfo, Packet};
use crate::smc::error::Fault;
use crate::smc::run::{self, Probe};
use crate::smc::{
    FirmwareLimit, LegacyGate, MagsafeLed, CHARGE_ALLOW, CHARGE_INHIBIT, FIRMWARE_ACTIVE,
    FIRMWARE_OFF, KEY_ACLC, KEY_BFD0, KEY_BFE0, KEY_BFF0, KEY_CH0B, KEY_CH0C, KEY_CH0I, KEY_CH0J,
    KEY_CHIE, KEY_CHTE,
};
use vstd::prelude::*;

verus! {

/// The keys of such an SMC.
pub struct Memory {
    /// Data type and bytes of each key, by its code.
    pub values: Map<u32, (u32, Seq<u8>)>,
    /// The keys that accept a write and keep their bytes.
    pub sticky: Set<u32>,
}

/// The bytes that fit in one packet.
pub open spec fn one_packet(bytes: Seq<u8>) -> Seq<u8> {
    if bytes.len() < driver::MAX_DATA_LEN {
        bytes
    } else {
        bytes.take(driver::MAX_DATA_LEN as int)
    }
}

/// The bytes that a write packet carries.
pub open spec fn carried(input: Packet) -> Seq<u8> {
    if input.key_info.data_size < driver::MAX_DATA_LEN {
        input.bytes.take(input.key_info.data_size as int)
    } else {
        input.bytes.take(driver::MAX_DATA_LEN as int)
    }
}

/// What such an SMC answers.
pub open spec fn answer(m: Memory, input: Packet) -> Result<Packet, Fault> {
    let echo = driver::packet(input.key, input.data8, 0, Seq::empty());
    if !m.values.contains_key(input.key) {
        Err(Fault::KeyNotFound(driver::key_text(input.key)))
    } else {
        let (data_type, value) = m.values[input.key];
        if input.data8 == driver::CMD_READ_KEY_INFO {
            Ok(
                Packet {
                    key_info: KeyInfo {
                        data_size: value.len() as u32,
                        data_type,
                        data_attributes: 0,
                    },
                    ..echo
                },
            )
        } else if input.data8 == driver::CMD_READ_BYTES {
            Ok(
                driver::packet(
                    input.key,
                    input.data8,
                    one_packet(value).len() as u32,
                    one_packet(value),
                ),
            )
        } else if input.data8 == driver::CMD_WRITE_BYTES {
            Ok(echo)
        } else {
            match driver::verdict(input.key, Packet { result: input.data8, ..echo }) {
                Ok(_) => Ok(echo),
                Err(e) => Err(e),
            }
        }
    }
}

/// What such an SMC holds after a packet.
pub open spec fn after(m: Memory, input: Packet) -> Memory {
    if m.values.contains_key(input.key) && input.data8 == driver::CMD_WRITE_BYTES
        && !m.sticky.contains(input.key) {
        Memory {
            values: m.values.insert(input.key, (m.values[input.key].0, carried(input))),
            ..m
        }
    } else {
        m
    }
}

/// The write that a packet is to such an SMC, as a key code and bytes. A write
/// counts even where the key keeps its bytes.
pub open spec fn recorded(m: Memory, input: Packet) -> Seq<(u32, Seq<u8>)> {
    if m.values.contains_key(input.key) && input.data8 == driver::CMD_WRITE_BYTES {
        seq![(input.key, carried(input))]
    } else {
        Seq::empty()
    }
}

// ---------------------------------------------------------------------------
// Reading back what was written
// ---------------------------------------------------------------------------

/// What an SMC that held `m` at position `at` of the log holds at position
/// `i`.
pub open spec fn held(m: Memory, log: Seq<Exchange>, at: int, i: int) -> Memory
    decreases i - at,
{
    if i <= at {
        m
    } else {
        after(held(m, log, at, i - 1), log[i - 1].sent)
    }
}

/// From position `at` on, where it held `m`, the SMC answers for the keys
/// `codes` as one that keeps what it is told.
#[verifier::opaque]
pub open spec fn keeps(m: Memory, log: Seq<Exchange>, at: int, codes: Set<u32>) -> bool {
    forall|i: int|
        at <= i < log.len() && codes.contains((#[trigger] log[i]).sent.key) ==> log[i].reply
            == answer(held(m, log, at, i), log[i].sent)
}

/// An SMC that answers each packet from what it holds, as the mock does, is one
/// that keeps what it is told: it is one to begin with, and one more round trip
/// leaves it one.
pub proof fn answers_from_memory_keep_it(
    m: Memory,
    log: Seq<Exchange>,
    at: int,
    codes: Set<u32>,
    input: Packet,
)
    requires
        0 <= at <= log.len(),
    ensures
        keeps(m, log, log.len() as int, codes),
        held(m, log, log.len() as int, log.len() as int) == m,
        keeps(m, log, at, codes) ==> ({
            let now = held(m, log, at, log.len() as int);
            let next = log.push((Exchange { sent: input, reply: answer(now, input) }));
            &&& keeps(m, next, at, codes)
            &&& held(m, next, at, next.len() as int) == after(now, input)
        }),
{
    reveal(keeps);
    let now = held(m, log, at, log.len() as int);
    let next = log.push((Exchange { sent: input, reply: answer(now, input) }));
    assert forall|i: int| at <= i <= log.len() implies #[trigger] held(m, next, at, i) == held(
        m,
        log,
        at,
        i,
    ) by {
        lemma_held_pushed(m, log, at, i, next.last());
    }
    if keeps(m, log, at, codes) {
        assert forall|i: int|
            at <= i < next.len() && codes.contains(
                (#[trigger] next[i]).sent.key,
            ) implies next[i].reply == answer(held(m, next, at, i), next[i].sent) by {
            assert(held(m, next, at, i) == held(m, log, at, i));
            if i < log.len() {
                assert(next[i] == log[i]);
            }
        }
    }
}

/// What comes after a position does not change what the SMC holds there.
pub proof fn lemma_held_pushed(m: Memory, log: Seq<Exchange>, at: int, i: int, exchange: Exchange)
    requires
        0 <= at <= i <= log.len(),
    ensures
        held(m, log.push(exchange), at, i) == held(m, log, at, i),
    decreases i - at,
{
    if at < i {
        lemma_held_pushed(m, log, at, i - 1, exchange);
    }
}

/// The packets stand in the log from position `at` on.
#[verifier::opaque]
pub open spec fn stands(log: Seq<Exchange>, at: int, sent: Seq<Packet>) -> bool {
    &&& 0 <= at
    &&& at + sent.len() <= log.len()
    &&& forall|i: int| 0 <= i < sent.len() ==> (#[trigger] log[at + i]).sent == sent[i]
}

/// The probe found the key, and it takes writes and has as many bytes as the
/// probe says.
pub open spec fn settable(p: Probe, m: Memory, key: Seq<char>) -> bool {
    let code = driver::key_code(key)->0;
    &&& run::found(p, key)
    &&& m.values.contains_key(code)
    &&& m.values[code].1.len() == p.present[code].data_size
    &&& !m.sticky.contains(code)
}

/// The memory after `bytes` were written to `key`.
pub open spec fn stored(m: Memory, key: Seq<char>, bytes: Seq<u8>) -> Memory {
    let code = driver::key_code(key)->0;
    Memory { values: m.values.insert(code, (m.values[code].0, bytes)), ..m }
}

/// The bytes of a key.
pub open spec fn bytes_at(m: Memory, key: Seq<char>) -> Seq<u8> {
    m.values[driver::key_code(key)->0].1
}

/// An SMC that keeps what it is told goes on doing so.
pub proof fn lemma_keeps_on(m: Memory, log: Seq<Exchange>, at: int, codes: Set<u32>)
    requires
        keeps(m, log, at, codes),
    ensures
        keeps(after(m, log[at].sent), log, at + 1, codes),
{
    reveal(keeps);
    let m1 = after(m, log[at].sent);
    assert forall|i: int|
        at + 1 <= i < log.len() && codes.contains(
            (#[trigger] log[i]).sent.key,
        ) implies log[i].reply == answer(held(m1, log, at + 1, i), log[i].sent) by {
        lemma_held(m, log, at, i);
    }
}

proof fn lemma_held(m: Memory, log: Seq<Exchange>, at: int, i: int)
    requires
        at < i,
    ensures
        held(m, log, at, i) == held(after(m, log[at].sent), log, at + 1, i),
    decreases i - at,
{
    if at + 1 < i {
        lemma_held(m, log, at, i - 1);
    } else {
        reveal_with_fuel(held, 2);
    }
}

/// One write of a settable key.
pub proof fn lemma_write(
    p: Probe,
    m: Memory,
    codes: Set<u32>,
    key: Seq<char>,
    bytes: Seq<u8>,
    log: Seq<Exchange>,
    at: int,
)
    requires
        settable(p, m, key),
        bytes_at(m, key).len() == bytes.len() <= driver::MAX_DATA_LEN,
        keeps(m, log, at, codes),
        codes.contains(driver::key_code(key)->0),
        stands(log, at, run::write_run(p, key, bytes, log, at).sent),
    ensures
        run::write_run(p, key, bytes, log, at).sent.len() == 1,
        run::write_run(p, key, bytes, log, at).value is Ok,
        keeps(stored(m, key, bytes), log, at + 1, codes),
{
    reveal(stands);
    reveal(keeps);
    reveal(run::write_run);
    let sent = run::write_run(p, key, bytes, log, at).sent[0];
    assert(log[at + 0].sent == sent);
    assert(log[at].reply == answer(m, sent));
    assert(carried(sent) =~= bytes);
    assert(after(m, sent) == stored(m, key, bytes));
    lemma_keeps_on(m, log, at, codes);
}

/// One read of a settable key.
pub proof fn lemma_read(
    p: Probe,
    m: Memory,
    codes: Set<u32>,
    key: Seq<char>,
    log: Seq<Exchange>,
    at: int,
)
    requires
        settable(p, m, key),
        bytes_at(m, key).len() <= driver::MAX_DATA_LEN,
        keeps(m, log, at, codes),
        codes.contains(driver::key_code(key)->0),
        stands(log, at, run::read_run(p, key, log, at).sent),
    ensures
        run::read_run(p, key, log, at).sent.len() == 1,
        run::read_run(p, key, log, at).value == Ok::<Seq<u8>, Fault>(bytes_at(m, key)),
        keeps(m, log, at + 1, codes),
{
    reveal(keeps);
    reveal(stands);
    reveal(run::read_run);
    let value = bytes_at(m, key);
    assert(log[at + 0].sent == run::read_run(p, key, log, at).sent[0]);
    assert(log[at].reply == answer(m, log[at].sent));
    assert(one_packet(value) =~= value);
    assert(driver::payload_of(value).take(value.len() as int) =~= value);
    lemma_keeps_on(m, log, at, codes);
}

/// The codes of the keys of the legacy gates.
pub open spec fn gate_codes() -> Set<u32> {
    set![
        driver::key_code(KEY_CH0B@)->0,
        driver::key_code(KEY_CH0C@)->0,
        driver::key_code(KEY_CHTE@)->0,
    ]
}

/// The keys of the legacy gate of this Mac take writes, and have the sizes
/// that the charge gate is written with.
pub open spec fn gate_settable(p: Probe, m: Memory) -> bool {
    match run::gate_of(p) {
        LegacyGate::Ch0 => {
            &&& settable(p, m, KEY_CH0B@)
            &&& settable(p, m, KEY_CH0C@)
            &&& bytes_at(m, KEY_CH0B@).len() == 1
            &&& bytes_at(m, KEY_CH0C@).len() == 1
        },
        LegacyGate::Chte => settable(p, m, KEY_CHTE@) && bytes_at(m, KEY_CHTE@).len() == 4,
    }
}

/// The legacy gate is open.
pub open spec fn gate_open(p: Probe, m: Memory) -> bool {
    match run::gate_of(p) {
        LegacyGate::Ch0 => bytes_at(m, KEY_CH0B@)[0] == CHARGE_ALLOW,
        LegacyGate::Chte => run::all_zero(bytes_at(m, KEY_CHTE@)),
    }
}

/// The memory after the legacy gate was set.
pub open spec fn with_gate(p: Probe, m: Memory, allow: bool) -> Memory {
    match run::gate_of(p) {
        LegacyGate::Ch0 => {
            let value = seq![
                if allow {
                    CHARGE_ALLOW
                } else {
                    CHARGE_INHIBIT
                },
            ];
            stored(stored(m, KEY_CH0B@, value), KEY_CH0C@, value)
        },
        LegacyGate::Chte => stored(
            m,
            KEY_CHTE@,
            run::little_endian(
                if allow {
                    0u8
                } else {
                    1u8
                },
            ),
        ),
    }
}

/// A gate that was set is as it was set.
pub proof fn lemma_with_gate(p: Probe, m: Memory, allow: bool)
    requires
        gate_settable(p, m),
    ensures
        gate_settable(p, with_gate(p, m, allow)),
        gate_open(p, with_gate(p, m, allow)) == allow,
{
    run::lemma_known_codes();
    let value = run::little_endian(
        if allow {
            0u8
        } else {
            1u8
        },
    );
    assert(run::all_zero(value) == allow) by {
        assert(value[0] == if allow {
            0u8
        } else {
            1u8
        });
    }
}

/// The charge gate reads as it is.
pub proof fn lemma_gate_read(p: Probe, m: Memory, codes: Set<u32>, log: Seq<Exchange>, at: int)
    requires
        p.mode == ChargeControlMode::Legacy,
        gate_settable(p, m),
        gate_codes().subset_of(codes),
        keeps(m, log, at, codes),
        stands(log, at, run::allowed_run(p, log, at).sent),
    ensures
        run::allowed_run(p, log, at).value == Ok::<bool, Fault>(gate_open(p, m)),
        keeps(m, log, run::past(at, run::allowed_run(p, log, at)), codes),
{
    reveal(run::allowed_run);
    reveal(run::read_u8_run);
    if run::gate_of(p) == LegacyGate::Ch0 {
        let read = run::read_u8_run(p, KEY_CH0B@, log, at);
        lemma_stands(log, at, read, run::done(()));
        lemma_read(p, m, codes, KEY_CH0B@, log, at);
    } else {
        lemma_read(p, m, codes, KEY_CHTE@, log, at);
    }
}

/// Setting the charge gate sets it.
pub proof fn lemma_gate_set(
    p: Probe,
    m: Memory,
    codes: Set<u32>,
    allow: bool,
    log: Seq<Exchange>,
    at: int,
)
    requires
        p.mode == ChargeControlMode::Legacy,
        gate_settable(p, m),
        gate_codes().subset_of(codes),
        keeps(m, log, at, codes),
        stands(log, at, run::set_gate_run(p, allow, log, at).sent),
    ensures
        run::set_gate_run(p, allow, log, at).value is Ok,
        keeps(
            with_gate(p, m, allow),
            log,
            run::past(at, run::set_gate_run(p, allow, log, at)),
            codes,
        ),
{
    reveal(run::set_gate_run);
    run::lemma_known_codes();
    if run::gate_of(p) == LegacyGate::Ch0 {
        let value = seq![
            if allow {
                CHARGE_ALLOW
            } else {
                CHARGE_INHIBIT
            },
        ];
        let first = run::write_run(p, KEY_CH0B@, value, log, at);
        let second = run::write_run(p, KEY_CH0C@, value, log, run::past(at, first));
        lemma_stands(log, at, first, second);
        lemma_write(p, m, codes, KEY_CH0B@, value, log, at);
        lemma_write(p, stored(m, KEY_CH0B@, value), codes, KEY_CH0C@, value, log, at + 1);
    } else {
        let value = run::little_endian(
            if allow {
                0u8
            } else {
                1u8
            },
        );
        lemma_write(p, m, codes, KEY_CHTE@, value, log, at);
    }
}

/// The legacy gate reads back as it was set: after it was opened it allows
/// charging, after it was closed it does not.
pub proof fn gate_reads_back(p: Probe, m: Memory, allow: bool, log: Seq<Exchange>, at: int)
    requires
        p.mode == ChargeControlMode::Legacy,
        gate_settable(p, m),
        keeps(m, log, at, gate_codes()),
        ({
            let set = run::set_gate_run(p, allow, log, at);
            let then = run::past(at, set);
            &&& stands(log, at, set.sent)
            &&& stands(log, then, run::allowed_run(p, log, then).sent)
        }),
    ensures
        run::set_gate_run(p, allow, log, at).value is Ok,
        run::allowed_run(p, log, run::past(at, run::set_gate_run(p, allow, log, at))).value == Ok::<
            bool,
            Fault,
        >(allow),
{
    lemma_gate_set(p, m, gate_codes(), allow, log, at);
    lemma_with_gate(p, m, allow);
    lemma_gate_read(
        p,
        with_gate(p, m, allow),
        gate_codes(),
        log,
        run::past(at, run::set_gate_run(p, allow, log, at)),
    );
}

/// The codes of the keys of the firmware limit.
pub open spec fn firmware_codes() -> Set<u32> {
    set![
        driver::key_code(KEY_BFF0@)->0,
        driver::key_code(KEY_BFD0@)->0,
        driver::key_code(KEY_BFE0@)->0,
    ]
}

/// The keys of the firmware limit take writes, and have the sizes that the
/// limit is written with.
pub open spec fn firmware_settable(p: Probe, m: Memory) -> bool {
    &&& settable(p, m, KEY_BFF0@)
    &&& settable(p, m, KEY_BFD0@)
    &&& settable(p, m, KEY_BFE0@)
    &&& bytes_at(m, KEY_BFF0@).len() == 1
    &&& bytes_at(m, KEY_BFD0@).len() == 4
    &&& bytes_at(m, KEY_BFE0@).len() == 4
}

/// The state of the firmware limit.
pub open spec fn limit_in(m: Memory) -> FirmwareLimit {
    FirmwareLimit {
        active: bytes_at(m, KEY_BFF0@)[0] == FIRMWARE_ACTIVE,
        lower: run::capped(run::little_endian_value(bytes_at(m, KEY_BFE0@))),
        upper: run::capped(run::little_endian_value(bytes_at(m, KEY_BFD0@))),
    }
}

/// The memory after the firmware limit was set.
pub open spec fn with_limit(m: Memory, lower: u8, upper: u8) -> Memory {
    stored(
        stored(
            stored(m, KEY_BFD0@, run::little_endian(upper)),
            KEY_BFE0@,
            run::little_endian(lower),
        ),
        KEY_BFF0@,
        seq![FIRMWARE_ACTIVE],
    )
}

/// What the firmware limit reads as: its state in memory.
pub proof fn lemma_firmware_limit(p: Probe, m: Memory, log: Seq<Exchange>, at: int)
    requires
        p.mode == ChargeControlMode::Firmware,
        firmware_settable(p, m),
        keeps(m, log, at, firmware_codes()),
        stands(log, at, run::firmware_limit_run(p, log, at).sent),
    ensures
        run::firmware_limit_run(p, log, at).value == Ok::<FirmwareLimit, Fault>(limit_in(m)),
        keeps(m, log, run::past(at, run::firmware_limit_run(p, log, at)), firmware_codes()),
{
    reveal(run::firmware_limit_run);
    reveal(run::read_u8_run);
    reveal(run::read_u32_le_run);
    let codes = firmware_codes();
    let active = run::read_u8_run(p, KEY_BFF0@, log, at);
    let upper = run::read_u32_le_run(p, KEY_BFD0@, log, run::past(at, active));
    let third = run::past(run::past(at, active), upper);
    let lower = run::read_u32_le_run(p, KEY_BFE0@, log, third);
    let limit = FirmwareLimit {
        active: active.value->Ok_0 == FIRMWARE_ACTIVE,
        lower: run::capped(lower.value->Ok_0),
        upper: run::capped(upper.value->Ok_0),
    };
    let tail = run::chain(lower, run::done(limit));
    lemma_stands(log, at, active, run::chain(upper, tail));
    lemma_read(p, m, codes, KEY_BFF0@, log, at);
    lemma_stands(log, at + 1, upper, tail);
    lemma_read(p, m, codes, KEY_BFD0@, log, at + 1);
    lemma_stands(log, at + 2, lower, run::done(limit));
    lemma_read(p, m, codes, KEY_BFE0@, log, at + 2);
}

/// Setting the firmware limit sets it.
pub proof fn lemma_limit_set(
    p: Probe,
    m: Memory,
    lower: u8,
    upper: u8,
    log: Seq<Exchange>,
    at: int,
)
    requires
        p.mode == ChargeControlMode::Firmware,
        lower < upper <= 100,
        firmware_settable(p, m),
        keeps(m, log, at, firmware_codes()),
        stands(log, at, run::set_firmware_limit_run(p, lower, upper, log, at).sent),
    ensures
        run::set_firmware_limit_run(p, lower, upper, log, at).value is Ok,
        firmware_settable(p, with_limit(m, lower, upper)),
        limit_in(with_limit(m, lower, upper)) == (FirmwareLimit { active: true, lower, upper }),
        keeps(
            with_limit(m, lower, upper),
            log,
            run::past(at, run::set_firmware_limit_run(p, lower, upper, log, at)),
            firmware_codes(),
        ),
{
    reveal(run::set_firmware_limit_run);
    run::lemma_known_codes();
    let codes = firmware_codes();
    let first = run::write_run(p, KEY_BFD0@, run::little_endian(upper), log, at);
    let second = run::write_run(
        p,
        KEY_BFE0@,
        run::little_endian(lower),
        log,
        run::past(at, first),
    );
    let third = run::write_run(
        p,
        KEY_BFF0@,
        seq![FIRMWARE_ACTIVE],
        log,
        run::past(run::past(at, first), second),
    );
    lemma_stands(log, at, first, run::chain(second, third));
    lemma_write(p, m, codes, KEY_BFD0@, run::little_endian(upper), log, at);
    let m1 = stored(m, KEY_BFD0@, run::little_endian(upper));
    lemma_stands(log, at + 1, second, third);
    lemma_write(p, m1, codes, KEY_BFE0@, run::little_endian(lower), log, at + 1);
    let m2 = stored(m1, KEY_BFE0@, run::little_endian(lower));
    lemma_write(p, m2, codes, KEY_BFF0@, seq![FIRMWARE_ACTIVE], log, at + 2);
}

/// The firmware limit reads back as it was set, and it is active.
pub proof fn firmware_limit_reads_back(
    p: Probe,
    m: Memory,
    lower: u8,
    upper: u8,
    log: Seq<Exchange>,
    at: int,
)
    requires
        p.mode == ChargeControlMode::Firmware,
        lower < upper <= 100,
        firmware_settable(p, m),
        keeps(m, log, at, firmware_codes()),
        ({
            let set = run::set_firmware_limit_run(p, lower, upper, log, at);
            let then = run::past(at, set);
            &&& stands(log, at, set.sent)
            &&& stands(log, then, run::firmware_limit_run(p, log, then).sent)
        }),
    ensures
        run::set_firmware_limit_run(p, lower, upper, log, at).value is Ok,
        run::firmware_limit_run(
            p,
            log,
            run::past(at, run::set_firmware_limit_run(p, lower, upper, log, at)),
        ).value == Ok::<FirmwareLimit, Fault>(FirmwareLimit { active: true, lower, upper }),
{
    lemma_limit_set(p, m, lower, upper, log, at);
    lemma_firmware_limit(
        p,
        with_limit(m, lower, upper),
        log,
        run::past(at, run::set_firmware_limit_run(p, lower, upper, log, at)),
    );
}

/// Clearing the firmware limit clears it.
pub proof fn lemma_limit_cleared(
    p: Probe,
    m: Memory,
    codes: Set<u32>,
    log: Seq<Exchange>,
    at: int,
)
    requires
        p.mode == ChargeControlMode::Firmware,
        firmware_settable(p, m),
        firmware_codes().subset_of(codes),
        keeps(m, log, at, codes),
        stands(log, at, run::clear_firmware_limit_run(p, log, at).sent),
    ensures
        run::clear_firmware_limit_run(p, log, at).value is Ok,
        firmware_settable(p, stored(m, KEY_BFF0@, seq![FIRMWARE_OFF])),
        limit_in(stored(m, KEY_BFF0@, seq![FIRMWARE_OFF])) == (FirmwareLimit {
            active: false,
            ..limit_in(m)
        }),
        keeps(
            stored(m, KEY_BFF0@, seq![FIRMWARE_OFF]),
            log,
            run::past(at, run::clear_firmware_limit_run(p, log, at)),
            codes,
        ),
{
    reveal(run::clear_firmware_limit_run);
    run::lemma_known_codes();
    lemma_write(p, m, codes, KEY_BFF0@, seq![FIRMWARE_OFF], log, at);
}

/// A firmware limit that was cleared is not active. Its percents stay.
pub proof fn cleared_firmware_limit_is_off(p: Probe, m: Memory, log: Seq<Exchange>, at: int)
    requires
        p.mode == ChargeControlMode::Firmware,
        firmware_settable(p, m),
        keeps(m, log, at, firmware_codes()),
        ({
            let clear = run::clear_firmware_limit_run(p, log, at);
            let then = run::past(at, clear);
            &&& stands(log, at, clear.sent)
            &&& stands(log, then, run::firmware_limit_run(p, log, then).sent)
        }),
    ensures
        run::clear_firmware_limit_run(p, log, at).value is Ok,
        run::firmware_limit_run(
            p,
            log,
            run::past(at, run::clear_firmware_limit_run(p, log, at)),
        ).value == Ok::<FirmwareLimit, Fault>(FirmwareLimit { active: false, ..limit_in(m) }),
{
    lemma_limit_cleared(p, m, firmware_codes(), log, at);
    lemma_firmware_limit(
        p,
        stored(m, KEY_BFF0@, seq![FIRMWARE_OFF]),
        log,
        run::past(at, run::clear_firmware_limit_run(p, log, at)),
    );
}

/// The adapter gate reads back as it was set.
pub proof fn adapter_reads_back(p: Probe, m: Memory, on: bool, log: Seq<Exchange>, at: int)
    requires
        run::adapter_key(p) is Some,
        settable(p, m, run::adapter_key(p)->0),
        bytes_at(m, run::adapter_key(p)->0).len() == 1,
        keeps(m, log, at, set![driver::key_code(run::adapter_key(p)->0)->0]),
        ({
            let set = run::set_adapter_run(p, on, log, at);
            let then = run::past(at, set);
            &&& stands(log, at, set.sent)
            &&& stands(log, then, run::adapter_run(p, log, then).sent)
        }),
    ensures
        run::set_adapter_run(p, on, log, at).value is Ok,
        run::adapter_run(p, log, run::past(at, run::set_adapter_run(p, on, log, at))).value == Ok::<
            bool,
            Fault,
        >(on),
{
    reveal(run::set_adapter_run);
    reveal(run::adapter_run);
    reveal(run::read_u8_run);
    let key = run::adapter_key(p)->0;
    let codes = set![driver::key_code(key)->0];
    let value = seq![run::adapter_byte(key, on)];
    lemma_write(p, m, codes, key, value, log, at);
    lemma_read(p, stored(m, key, value), codes, key, log, at + 1);
}

/// The MagSafe LED reads back as it was set, where the key takes the write.
pub proof fn led_reads_back(p: Probe, m: Memory, led: MagsafeLed, log: Seq<Exchange>, at: int)
    requires
        settable(p, m, KEY_ACLC@),
        bytes_at(m, KEY_ACLC@).len() == 1,
        keeps(m, log, at, set![driver::key_code(KEY_ACLC@)->0]),
        ({
            let set = run::set_led_run(p, led, log, at);
            let then = run::past(at, set);
            &&& stands(log, at, set.sent)
            &&& stands(log, then, run::led_run(p, log, then).sent)
        }),
    ensures
        run::set_led_run(p, led, log, at).value is Ok,
        run::led_run(p, log, run::past(at, run::set_led_run(p, led, log, at))).value == Ok::<
            MagsafeLed,
            Fault,
        >(led),
{
    reveal(run::set_led_run);
    reveal(run::led_run);
    reveal(run::read_u8_run);
    let codes = set![driver::key_code(KEY_ACLC@)->0];
    let value = seq![run::led_byte(led)];
    lemma_write(p, m, codes, KEY_ACLC@, value, log, at);
    lemma_read(p, stored(m, KEY_ACLC@, value), codes, KEY_ACLC@, log, at + 1);
}

/// A reset leaves the machine free to charge: in legacy mode the charge gate allows
/// charging afterwards.
pub proof fn reset_allows_charging(p: Probe, m: Memory, log: Seq<Exchange>, at: int)
    requires
        p.mode == ChargeControlMode::Legacy,
        gate_settable(p, m),
        keeps(m, log, at, gate_codes()),
        ({
            let reset = run::reset_run(p, log, at);
            let then = run::past(at, reset);
            &&& stands(log, at, reset.sent)
            &&& stands(log, then, run::allowed_run(p, log, then).sent)
        }),
    ensures
        run::reset_run(p, log, at).value is Ok,
        run::allowed_run(p, log, run::past(at, run::reset_run(p, log, at))).value == Ok::<
            bool,
            Fault,
        >(true),
{
    reveal(run::reset_run);
    gate_reads_back(p, m, true, log, at);
}

/// A reset leaves the machine free to charge: in firmware mode no limit is
/// active afterwards.
pub proof fn reset_clears_the_firmware_limit(p: Probe, m: Memory, log: Seq<Exchange>, at: int)
    requires
        p.mode == ChargeControlMode::Firmware,
        firmware_settable(p, m),
        keeps(m, log, at, firmware_codes()),
        ({
            let reset = run::reset_run(p, log, at);
            let then = run::past(at, reset);
            &&& stands(log, at, reset.sent)
            &&& stands(log, then, run::firmware_limit_run(p, log, then).sent)
        }),
    ensures
        run::reset_run(p, log, at).value is Ok,
        run::firmware_limit_run(p, log, run::past(at, run::reset_run(p, log, at))).value matches Ok(
            limit,
        ) && !limit.active,
{
    reveal(run::reset_run);
    cleared_firmware_limit_is_off(p, m, log, at);
}

/// The codes of the known keys, by their names.
pub proof fn lemma_known_keys()
    ensures
        driver::key_code(KEY_CH0B@) == Some(run::known_code(0)),
        driver::key_code(KEY_CH0C@) == Some(run::known_code(1)),
        driver::key_code(KEY_CHTE@) == Some(run::known_code(2)),
        driver::key_code(KEY_BFF0@) == Some(run::known_code(3)),
        driver::key_code(KEY_BFD0@) == Some(run::known_code(4)),
        driver::key_code(KEY_BFE0@) == Some(run::known_code(5)),
        driver::key_code(KEY_ACLC@) == Some(run::known_code(8)),
        driver::key_code(KEY_CH0I@) == Some(run::known_code(9)),
        driver::key_code(KEY_CH0J@) == Some(run::known_code(10)),
        driver::key_code(KEY_CHIE@) == Some(run::known_code(11)),
{
    run::lemma_known_codes();
    assert(crate::smc::ALL_KEYS[0]@ == KEY_CH0B@);
    assert(crate::smc::ALL_KEYS[1]@ == KEY_CH0C@);
    assert(crate::smc::ALL_KEYS[2]@ == KEY_CHTE@);
    assert(crate::smc::ALL_KEYS[3]@ == KEY_BFF0@);
    assert(crate::smc::ALL_KEYS[4]@ == KEY_BFD0@);
    assert(crate::smc::ALL_KEYS[5]@ == KEY_BFE0@);
    assert(crate::smc::ALL_KEYS[8]@ == KEY_ACLC@);
    assert(crate::smc::ALL_KEYS[9]@ == KEY_CH0I@);
    assert(crate::smc::ALL_KEYS[10]@ == KEY_CH0J@);
    assert(crate::smc::ALL_KEYS[11]@ == KEY_CHIE@);
}

/// Where two parts stand in the log one behind the other, each does.
pub proof fn lemma_stands_joined(
    log: Seq<Exchange>,
    at: int,
    first: Seq<Packet>,
    second: Seq<Packet>,
)
    requires
        stands(log, at, run::joined(first, second)),
    ensures
        stands(log, at, first),
        stands(log, at + first.len(), second),
{
    lemma_stands(
        log,
        at,
        run::Run { sent: first, value: Ok(()) },
        run::Run { sent: second, value: Ok(()) },
    );
}

/// Where a chain stands in the log, its first part does, and where that did
/// not fail, its second part stands behind it.
pub proof fn lemma_stands<A, B>(log: Seq<Exchange>, at: int, first: run::Run<A>, rest: run::Run<B>)
    requires
        stands(log, at, run::chain(first, rest).sent),
    ensures
        stands(log, at, first.sent),
        first.value is Ok ==> stands(log, run::past(at, first), rest.sent),
{
    reveal(stands);
    let sent = run::chain(first, rest).sent;
    assert forall|i: int| 0 <= i < first.sent.len() implies (#[trigger] log[at + i]).sent
        == first.sent[i] by {
        assert(log[at + i].sent == sent[i]);
    }
    if first.value is Ok {
        let then = run::past(at, first);
        assert forall|i: int| 0 <= i < rest.sent.len() implies (#[trigger] log[then + i]).sent
            == rest.sent[i] by {
            assert(log[at + (first.sent.len() + i)].sent == sent[first.sent.len() + i]);
        }
    }
}

/// An SMC that keeps what it is told answers for the keys that it has. Asked
/// about a key, it tells the size and the type; asked for the bytes, it sends as
/// many as a packet carries, and zeros behind them.
pub proof fn a_key_tells_its_size_and_its_bytes(m: Memory, input: Packet, i: int)
    ensures
        ({
            let reply = answer(m, input);
            let there = m.values.contains_key(input.key);
            let (data_type, bytes) = m.values[input.key];
            &&& !there ==> reply is Err && reply->Err_0 is KeyNotFound
            &&& there && input.data8 == 9 && bytes.len() <= u32::MAX ==> {
                &&& reply is Ok
                &&& reply->Ok_0.key_info.data_size == bytes.len()
                &&& reply->Ok_0.key_info.data_type == data_type
            }
            &&& there && input.data8 == 5 && 0 <= i < 32 ==> {
                &&& reply is Ok
                &&& reply->Ok_0.bytes[i] == if i < bytes.len() {
                    bytes[i]
                } else {
                    0u8
                }
                &&& bytes.len() <= 32 ==> reply->Ok_0.key_info.data_size == bytes.len()
                &&& bytes.len() > 32 ==> reply->Ok_0.key_info.data_size == 32
            }
            &&& there && input.data8 == 6 ==> reply is Ok && reply->Ok_0.key_info.data_size == 0
        }),
{
}

/// Only a write changes what is held, and only the bytes of its key, and those
/// not where the key is sticky. Every write to a key that is there is recorded.
pub proof fn only_a_write_changes_bytes(m: Memory, input: Packet, code: u32)
    requires
        input.bytes.len() == 32,
    ensures
        ({
            let (then, told) = (after(m, input), recorded(m, input));
            let writes = input.data8 == 6 && m.values.contains_key(input.key);
            let n = input.key_info.data_size as int;
            let bytes = input.bytes.take(
                if n < 32 {
                    n
                } else {
                    32
                },
            );
            &&& then.sticky == m.sticky
            &&& then.values.contains_key(code) <==> m.values.contains_key(code)
            &&& then.values[code].0 == m.values[code].0
            &&& !writes ==> then == m && told.len() == 0
            &&& writes ==> told == seq![(input.key, bytes)]
            &&& writes && m.sticky.contains(input.key) ==> then == m
            &&& writes && !m.sticky.contains(input.key) ==> then.values[input.key].1 == bytes
            &&& code != input.key && m.values.contains_key(code) ==> then.values[code]
                == m.values[code]
        }),
{
    if !m.values.contains_key(code) {
        assert(after(m, input).values[code] == m.values[code]);
    }
}

} // verus!
