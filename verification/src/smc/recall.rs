//! Reads and writes on an SMC that keeps what it is told: what each gives, as a
//! function of what the SMC holds, and what the SMC holds and has recorded
//! afterwards.

use crate::proto::ChargeControlMode;
use crate::smc::driver::{self, Exchange, KeyInfo};
use crate::smc::error::Fault;
use crate::smc::memory::{self, Memory};
use crate::smc::run::{self, Probe};
use crate::smc::{
    FirmwareLimit, LegacyGate, MagsafeLed, ADAPTER_ON, CHARGE_ALLOW, CHARGE_INHIBIT,
    FIRMWARE_ACTIVE, FIRMWARE_OFF, KEY_ACLC, KEY_BFD0, KEY_BFE0, KEY_BFF0, KEY_CH0B, KEY_CH0C, KEY_CHTE,
};
use vstd::prelude::*;

verus! {

/// The writes between the positions `at` and `i` of the log, to an SMC that held
/// `m` at `at`.
pub open spec fn records(m: Memory, log: Seq<Exchange>, at: int, i: int) -> Seq<(u32, Seq<u8>)>
    decreases i - at,
{
    if i <= at {
        Seq::empty()
    } else {
        records(m, log, at, i - 1) + memory::recorded(
            memory::held(m, log, at, i - 1),
            log[i - 1].sent,
        )
    }
}

/// What comes after a position does not change the writes before it.
pub proof fn lemma_records_pushed(
    m: Memory,
    log: Seq<Exchange>,
    at: int,
    i: int,
    exchange: Exchange,
)
    requires
        0 <= at <= i <= log.len(),
    ensures
        records(m, log.push(exchange), at, i) == records(m, log, at, i),
    decreases i - at,
{
    if at < i {
        lemma_records_pushed(m, log, at, i - 1, exchange);
        memory::lemma_held_pushed(m, log, at, i - 1, exchange);
    }
}

/// An SMC that held `m` at position `at` of the log holds `now` at position
/// `i`, and was written `writes` in between.
#[verifier::opaque]
pub open spec fn went(
    m: Memory,
    log: Seq<Exchange>,
    at: int,
    i: int,
    now: Memory,
    writes: Seq<(u32, Seq<u8>)>,
) -> bool {
    &&& at <= i
    &&& memory::held(m, log, at, i) == now
    &&& records(m, log, at, i) == writes
}

/// Where nothing was sent, nothing changed.
pub proof fn lemma_went_nowhere(m: Memory, log: Seq<Exchange>, at: int)
    ensures
        went(m, log, at, at, m, Seq::empty()),
{
    reveal(went);
}

/// One packet.
pub proof fn lemma_went_once(m: Memory, log: Seq<Exchange>, at: int)
    ensures
        went(
            m,
            log,
            at,
            at + 1,
            memory::after(m, log[at].sent),
            memory::recorded(m, log[at].sent),
        ),
{
    reveal(went);
    reveal_with_fuel(memory::held, 2);
    reveal_with_fuel(records, 2);
    assert(Seq::<(u32, Seq<u8>)>::empty() + memory::recorded(m, log[at].sent) =~= memory::recorded(
        m,
        log[at].sent,
    ));
}

/// Two parts, one behind the other.
pub proof fn lemma_went_twice(
    m: Memory,
    log: Seq<Exchange>,
    at: int,
    then: int,
    end: int,
    between: Memory,
    first: Seq<(u32, Seq<u8>)>,
    now: Memory,
    second: Seq<(u32, Seq<u8>)>,
)
    requires
        went(m, log, at, then, between, first),
        went(between, log, then, end, now, second),
    ensures
        went(m, log, at, end, now, first + second),
    decreases end - then,
{
    reveal(went);
    if then < end {
        let near = memory::held(between, log, then, end - 1);
        let some = records(between, log, then, end - 1);
        lemma_went_twice(m, log, at, then, end - 1, between, first, near, some);
        let last = memory::recorded(near, log[end - 1].sent);
        assert(first + some + last =~= first + (some + last));
    } else {
        assert(first + second =~= first);
    }
}

/// An SMC that keeps what it is told goes on doing so.
pub proof fn lemma_went_keeps(
    m: Memory,
    log: Seq<Exchange>,
    at: int,
    i: int,
    now: Memory,
    writes: Seq<(u32, Seq<u8>)>,
    codes: Set<u32>,
)
    requires
        memory::keeps(m, log, at, codes),
        went(m, log, at, i, now, writes),
    ensures
        memory::keeps(now, log, i, codes),
    decreases i - at,
{
    reveal(went);
    if at < i {
        let near = memory::held(m, log, at, i - 1);
        lemma_went_keeps(m, log, at, i - 1, near, records(m, log, at, i - 1), codes);
        memory::lemma_keeps_on(near, log, i - 1, codes);
    }
}

// ---------------------------------------------------------------------------
// One key
// ---------------------------------------------------------------------------

/// The size and type of `key`: what the probe found, or else what the SMC
/// holds.
pub open spec fn info_in(p: Probe, m: Memory, key: Seq<char>) -> Result<KeyInfo, Fault> {
    match driver::key_code(key) {
        None => Err(Fault::InvalidKey(key)),
        Some(code) => if p.present.contains_key(code) {
            Ok(p.present[code])
        } else if !m.values.contains_key(code) {
            Err(Fault::KeyNotFound(driver::key_text(code)))
        } else {
            let (data_type, value) = m.values[code];
            let data_size = value.len() as u32;
            if data_size == 0 {
                Err(Fault::KeyNotFound(key))
            } else {
                Ok(KeyInfo { data_size, data_type, data_attributes: 0 })
            }
        },
    }
}

/// What a read of `key` gives.
pub open spec fn bytes_in(p: Probe, m: Memory, key: Seq<char>) -> Result<Seq<u8>, Fault> {
    let code = driver::key_code(key)->0;
    match info_in(p, m, key) {
        Err(e) => Err(e),
        Ok(info) => if !m.values.contains_key(code) {
            Err(Fault::KeyNotFound(driver::key_text(code)))
        } else {
            let len: int = if info.data_size < driver::MAX_DATA_LEN {
                info.data_size as int
            } else {
                driver::MAX_DATA_LEN as int
            };
            Ok(driver::payload_of(memory::one_packet(m.values[code].1)).take(len))
        },
    }
}

/// What a write of `bytes` to `key` gives.
pub open spec fn write_in(p: Probe, m: Memory, key: Seq<char>, bytes: Seq<u8>) -> Result<
    (),
    Fault,
> {
    let code = driver::key_code(key)->0;
    match info_in(p, m, key) {
        Err(e) => Err(e),
        Ok(info) => if info.data_size != bytes.len() || bytes.len() > driver::MAX_DATA_LEN {
            Err(
                Fault::UnexpectedSize {
                    key,
                    expected: info.data_size as usize,
                    got: bytes.len() as usize,
                },
            )
        } else if !m.values.contains_key(code) {
            Err(Fault::KeyNotFound(driver::key_text(code)))
        } else {
            Ok(())
        },
    }
}

/// What the SMC holds after a write of `bytes` to `key`.
pub open spec fn told(p: Probe, m: Memory, key: Seq<char>, bytes: Seq<u8>) -> Memory {
    if write_in(p, m, key, bytes) is Ok && !m.sticky.contains(driver::key_code(key)->0) {
        memory::stored(m, key, bytes)
    } else {
        m
    }
}

/// What the SMC has recorded of a write of `bytes` to `key`.
pub open spec fn noted(p: Probe, m: Memory, key: Seq<char>, bytes: Seq<u8>) -> Seq<
    (u32, Seq<u8>),
> {
    if write_in(p, m, key, bytes) is Ok {
        seq![(driver::key_code(key)->0, bytes)]
    } else {
        Seq::empty()
    }
}

/// `key` has no code, or one of `codes`.
pub open spec fn among(key: Seq<char>, codes: Set<u32>) -> bool {
    driver::key_code(key) matches Some(code) ==> codes.contains(code)
}

/// A key that takes writes holds what was written last, and every other key
/// holds what it held.
pub proof fn lemma_told(p: Probe, m: Memory, key: Seq<char>, bytes: Seq<u8>)
    requires
        write_in(p, m, key, bytes) is Ok,
        !m.sticky.contains(driver::key_code(key)->0),
    ensures
        bytes_in(p, told(p, m, key, bytes), key) == Ok::<Seq<u8>, Fault>(bytes),
        info_in(p, told(p, m, key, bytes), key) matches Ok(info) && info.data_size == bytes.len(),
        told(p, m, key, bytes).sticky == m.sticky,
{
    let held = memory::stored(m, key, bytes);
    assert(memory::one_packet(bytes) =~= bytes);
    assert(driver::payload_of(bytes).take(bytes.len() as int) =~= bytes);
}

/// A write leaves every other key as it was.
pub proof fn lemma_told_others(
    p: Probe,
    m: Memory,
    key: Seq<char>,
    bytes: Seq<u8>,
    other: Seq<char>,
)
    requires
        driver::key_code(other) != driver::key_code(key),
    ensures
        bytes_in(p, told(p, m, key, bytes), other) == bytes_in(p, m, other),
        info_in(p, told(p, m, key, bytes), other) == info_in(p, m, other),
        told(p, m, key, bytes).sticky == m.sticky,
        forall|code: u32| #[trigger]
            told(p, m, key, bytes).values.contains_key(code) == m.values.contains_key(code),
{
}

/// A question about a key.
pub proof fn lemma_info_in(
    p: Probe,
    m: Memory,
    codes: Set<u32>,
    key: Seq<char>,
    log: Seq<Exchange>,
    at: int,
)
    requires
        memory::keeps(m, log, at, codes),
        among(key, codes),
        memory::stands(log, at, run::key_info_run(p, key, log, at).sent),
    ensures
        ({
            let info = run::key_info_run(p, key, log, at);
            &&& info.value == info_in(p, m, key)
            &&& went(m, log, at, run::past(at, info), m, Seq::empty())
        }),
{
    reveal(memory::stands);
    reveal(memory::keeps);
    let info = run::key_info_run(p, key, log, at);
    if info.sent.len() == 0 {
        lemma_went_nowhere(m, log, at);
    } else {
        assert(log[at + 0].sent == info.sent[0]);
        assert(log[at].reply == memory::answer(m, log[at].sent));
        lemma_went_once(m, log, at);
    }
}

/// A read.
pub proof fn lemma_bytes_in(
    p: Probe,
    m: Memory,
    codes: Set<u32>,
    key: Seq<char>,
    log: Seq<Exchange>,
    at: int,
)
    requires
        memory::keeps(m, log, at, codes),
        among(key, codes),
        memory::stands(log, at, run::read_run(p, key, log, at).sent),
    ensures
        ({
            let read = run::read_run(p, key, log, at);
            &&& read.value == bytes_in(p, m, key)
            &&& went(m, log, at, run::past(at, read), m, Seq::empty())
            &&& memory::keeps(m, log, run::past(at, read), codes)
        }),
{
    reveal(run::read_run);
    let read = run::read_run(p, key, log, at);
    let info = run::key_info_run(p, key, log, at);
    let then = run::past(at, info);
    let size = info.value->Ok_0.data_size;
    let code = driver::key_code(key)->0;
    let asked = run::exchange_run(
        driver::packet(code, driver::CMD_READ_BYTES, size, Seq::empty()),
        log,
        then,
    );
    let len: int = if size < driver::MAX_DATA_LEN {
        size as int
    } else {
        driver::MAX_DATA_LEN as int
    };
    let rest = run::chain(asked, run::done(asked.value->Ok_0.bytes.take(len)));
    memory::lemma_stands(log, at, info, rest);
    lemma_info_in(p, m, codes, key, log, at);
    lemma_went_keeps(m, log, at, then, m, Seq::empty(), codes);
    if info.value is Ok {
        reveal(memory::stands);
        reveal(memory::keeps);
        assert(log[then + 0].sent == rest.sent[0]);
        assert(log[then].reply == memory::answer(m, log[then].sent));
        lemma_went_once(m, log, then);
        lemma_went_twice(
            m,
            log,
            at,
            then,
            then + 1,
            m,
            Seq::empty(),
            m,
            Seq::empty(),
        );
        assert(Seq::<(u32, Seq<u8>)>::empty() + Seq::<(u32, Seq<u8>)>::empty() =~= Seq::empty());
    }
    lemma_went_keeps(m, log, at, run::past(at, read), m, Seq::empty(), codes);
}

/// A write.
pub proof fn lemma_write_in(
    p: Probe,
    m: Memory,
    codes: Set<u32>,
    key: Seq<char>,
    bytes: Seq<u8>,
    log: Seq<Exchange>,
    at: int,
)
    requires
        memory::keeps(m, log, at, codes),
        among(key, codes),
        memory::stands(log, at, run::write_run(p, key, bytes, log, at).sent),
    ensures
        ({
            let write = run::write_run(p, key, bytes, log, at);
            let now = told(p, m, key, bytes);
            &&& write.value == write_in(p, m, key, bytes)
            &&& went(m, log, at, run::past(at, write), now, noted(p, m, key, bytes))
            &&& memory::keeps(now, log, run::past(at, write), codes)
        }),
{
    reveal(run::write_run);
    let write = run::write_run(p, key, bytes, log, at);
    let now = told(p, m, key, bytes);
    let info = run::key_info_run(p, key, log, at);
    let then = run::past(at, info);
    let size = info.value->Ok_0.data_size;
    let code = driver::key_code(key)->0;
    let asked = run::exchange_run(
        driver::packet(code, driver::CMD_WRITE_BYTES, size, bytes),
        log,
        then,
    );
    let unfit = size != bytes.len() || bytes.len() > driver::MAX_DATA_LEN;
    let rest = if unfit {
        run::failed(
            Fault::UnexpectedSize { key, expected: size as usize, got: bytes.len() as usize },
        )
    } else {
        run::chain(asked, run::done(()))
    };
    memory::lemma_stands(log, at, info, rest);
    lemma_info_in(p, m, codes, key, log, at);
    lemma_went_keeps(m, log, at, then, m, Seq::empty(), codes);
    if info.value is Ok && !unfit {
        reveal(memory::stands);
        reveal(memory::keeps);
        assert(log[then + 0].sent == rest.sent[0]);
        assert(log[then].reply == memory::answer(m, log[then].sent));
        assert(memory::carried(log[then].sent) =~= bytes);
        lemma_went_once(m, log, then);
        let second = memory::recorded(m, log[then].sent);
        lemma_went_twice(m, log, at, then, then + 1, m, Seq::empty(), now, second);
        assert(Seq::<(u32, Seq<u8>)>::empty() + second =~= noted(p, m, key, bytes));
    }
    lemma_went_keeps(m, log, at, run::past(at, write), now, noted(p, m, key, bytes), codes);
}

/// The first byte of `key`.
pub open spec fn u8_in(p: Probe, m: Memory, key: Seq<char>) -> Result<u8, Fault> {
    match bytes_in(p, m, key) {
        Err(e) => Err(e),
        Ok(bytes) => if bytes.len() > 0 {
            Ok(bytes[0])
        } else {
            Err(Fault::UnexpectedSize { key, expected: 1, got: 0 })
        },
    }
}

/// A read of one byte.
pub proof fn lemma_u8_in(
    p: Probe,
    m: Memory,
    codes: Set<u32>,
    key: Seq<char>,
    log: Seq<Exchange>,
    at: int,
)
    requires
        memory::keeps(m, log, at, codes),
        among(key, codes),
        memory::stands(log, at, run::read_u8_run(p, key, log, at).sent),
    ensures
        ({
            let read = run::read_u8_run(p, key, log, at);
            &&& read.value == u8_in(p, m, key)
            &&& went(m, log, at, run::past(at, read), m, Seq::empty())
            &&& memory::keeps(m, log, run::past(at, read), codes)
        }),
{
    reveal(run::read_u8_run);
    lemma_bytes_in(p, m, codes, key, log, at);
}

/// The first four bytes of `key`, as a little-endian number.
pub open spec fn u32_in(p: Probe, m: Memory, key: Seq<char>) -> Result<u32, Fault> {
    match bytes_in(p, m, key) {
        Err(e) => Err(e),
        Ok(bytes) => if bytes.len() >= 4 {
            Ok(run::little_endian_value(bytes))
        } else {
            Err(Fault::UnexpectedSize { key, expected: 4, got: bytes.len() as usize })
        },
    }
}

/// A read of a number.
pub proof fn lemma_u32_in(
    p: Probe,
    m: Memory,
    codes: Set<u32>,
    key: Seq<char>,
    log: Seq<Exchange>,
    at: int,
)
    requires
        memory::keeps(m, log, at, codes),
        among(key, codes),
        memory::stands(log, at, run::read_u32_le_run(p, key, log, at).sent),
    ensures
        ({
            let read = run::read_u32_le_run(p, key, log, at);
            &&& read.value == u32_in(p, m, key)
            &&& went(m, log, at, run::past(at, read), m, Seq::empty())
            &&& memory::keeps(m, log, run::past(at, read), codes)
        }),
{
    reveal(run::read_u32_le_run);
    lemma_bytes_in(p, m, codes, key, log, at);
}

// ---------------------------------------------------------------------------
// The legacy gate
// ---------------------------------------------------------------------------

/// Whether the legacy gate allows charging.
pub open spec fn gate_in(p: Probe, m: Memory) -> Result<bool, Fault> {
    if p.mode != ChargeControlMode::Legacy {
        Err(run::not_legacy(p))
    } else {
        match run::gate_of(p) {
            LegacyGate::Ch0 => match u8_in(p, m, KEY_CH0B@) {
                Ok(byte) => Ok(byte == CHARGE_ALLOW),
                Err(e) => Err(e),
            },
            LegacyGate::Chte => match bytes_in(p, m, KEY_CHTE@) {
                Ok(bytes) => Ok(run::all_zero(bytes)),
                Err(e) => Err(e),
            },
        }
    }
}

/// The bytes that open or close the legacy gate.
pub open spec fn gate_bytes(p: Probe, allow: bool) -> Seq<u8> {
    match run::gate_of(p) {
        LegacyGate::Ch0 => seq![
            if allow {
                CHARGE_ALLOW
            } else {
                CHARGE_INHIBIT
            },
        ],
        LegacyGate::Chte => run::little_endian(
            if allow {
                0u8
            } else {
                1u8
            },
        ),
    }
}

/// The writes that open or close the legacy gate.
pub open spec fn gate_writes(p: Probe, allow: bool) -> Seq<(Seq<char>, Seq<u8>)> {
    match run::gate_of(p) {
        LegacyGate::Ch0 => seq![
            (KEY_CH0B@, gate_bytes(p, allow)),
            (KEY_CH0C@, gate_bytes(p, allow)),
        ],
        LegacyGate::Chte => seq![(KEY_CHTE@, gate_bytes(p, allow))],
    }
}

/// The same writes, by key code.
pub open spec fn gate_notes(p: Probe, allow: bool) -> Seq<(u32, Seq<u8>)> {
    let writes = gate_writes(p, allow);
    Seq::new(writes.len(), |i: int| (driver::key_code(writes[i].0)->0, writes[i].1))
}

/// The keys of the legacy gate take writes.
pub open spec fn gate_free(p: Probe, m: Memory) -> bool {
    match run::gate_of(p) {
        LegacyGate::Ch0 => {
            &&& !m.sticky.contains(driver::key_code(KEY_CH0B@)->0)
            &&& !m.sticky.contains(driver::key_code(KEY_CH0C@)->0)
        },
        LegacyGate::Chte => !m.sticky.contains(driver::key_code(KEY_CHTE@)->0),
    }
}

/// What setting the legacy gate gives.
pub open spec fn set_gate_in(p: Probe, m: Memory, allow: bool) -> Result<(), Fault> {
    let bytes = gate_bytes(p, allow);
    if p.mode != ChargeControlMode::Legacy {
        Err(run::not_legacy(p))
    } else {
        match run::gate_of(p) {
            LegacyGate::Ch0 => match write_in(p, m, KEY_CH0B@, bytes) {
                Err(e) => Err(e),
                Ok(_) => write_in(p, told(p, m, KEY_CH0B@, bytes), KEY_CH0C@, bytes),
            },
            LegacyGate::Chte => write_in(p, m, KEY_CHTE@, bytes),
        }
    }
}

/// What the SMC holds after the legacy gate was set.
pub open spec fn gate_told(p: Probe, m: Memory, allow: bool) -> Memory {
    let bytes = gate_bytes(p, allow);
    match run::gate_of(p) {
        LegacyGate::Ch0 => told(p, told(p, m, KEY_CH0B@, bytes), KEY_CH0C@, bytes),
        LegacyGate::Chte => told(p, m, KEY_CHTE@, bytes),
    }
}

/// A gate that takes writes is as it was set, and can be set again.
pub proof fn lemma_gate_told(p: Probe, m: Memory, allow: bool, again: bool)
    requires
        set_gate_in(p, m, allow) is Ok,
        gate_free(p, m),
    ensures
        gate_in(p, gate_told(p, m, allow)) == Ok::<bool, Fault>(allow),
        gate_free(p, gate_told(p, m, allow)),
        set_gate_in(p, gate_told(p, m, allow), again) is Ok,
{
    run::lemma_known_codes();
    memory::lemma_known_keys();
    let bytes = gate_bytes(p, allow);
    let next = gate_bytes(p, again);
    let now = gate_told(p, m, allow);
    match run::gate_of(p) {
        LegacyGate::Ch0 => {
            let m1 = told(p, m, KEY_CH0B@, bytes);
            lemma_told(p, m, KEY_CH0B@, bytes);
            lemma_told(p, m1, KEY_CH0C@, bytes);
            lemma_told_others(p, m1, KEY_CH0C@, bytes, KEY_CH0B@);
            lemma_told_others(p, now, KEY_CH0B@, next, KEY_CH0C@);
        },
        LegacyGate::Chte => {
            lemma_told(p, m, KEY_CHTE@, bytes);
            assert(run::all_zero(bytes) == allow) by {
                assert(bytes[0] == if allow {
                    0u8
                } else {
                    1u8
                });
            }
        },
    }
}

/// The legacy gate reads as it is.
pub proof fn lemma_gate_in(p: Probe, m: Memory, codes: Set<u32>, log: Seq<Exchange>, at: int)
    requires
        memory::gate_codes().subset_of(codes),
        memory::keeps(m, log, at, codes),
        memory::stands(log, at, run::allowed_run(p, log, at).sent),
    ensures
        ({
            let read = run::allowed_run(p, log, at);
            &&& read.value == gate_in(p, m)
            &&& went(m, log, at, run::past(at, read), m, Seq::empty())
            &&& memory::keeps(m, log, run::past(at, read), codes)
        }),
{
    reveal(run::allowed_run);
    memory::lemma_known_keys();
    if p.mode != ChargeControlMode::Legacy {
        lemma_went_nowhere(m, log, at);
    } else if run::gate_of(p) == LegacyGate::Ch0 {
        assert(memory::gate_codes().contains(driver::key_code(KEY_CH0B@)->0));
        lemma_u8_in(p, m, codes, KEY_CH0B@, log, at);
    } else {
        assert(memory::gate_codes().contains(driver::key_code(KEY_CHTE@)->0));
        lemma_bytes_in(p, m, codes, KEY_CHTE@, log, at);
    }
}

/// Setting the legacy gate.
pub proof fn lemma_set_gate_in(
    p: Probe,
    m: Memory,
    codes: Set<u32>,
    allow: bool,
    log: Seq<Exchange>,
    at: int,
)
    requires
        memory::gate_codes().subset_of(codes),
        memory::keeps(m, log, at, codes),
        memory::stands(log, at, run::set_gate_run(p, allow, log, at).sent),
    ensures
        ({
            let set = run::set_gate_run(p, allow, log, at);
            let now = gate_told(p, m, allow);
            &&& set.value == set_gate_in(p, m, allow)
            &&& set.value is Ok ==> {
                &&& went(m, log, at, run::past(at, set), now, gate_notes(p, allow))
                &&& memory::keeps(now, log, run::past(at, set), codes)
            }
        }),
{
    reveal(run::set_gate_run);
    memory::lemma_known_keys();
    let set = run::set_gate_run(p, allow, log, at);
    let bytes = gate_bytes(p, allow);
    if p.mode == ChargeControlMode::Legacy {
        if run::gate_of(p) == LegacyGate::Ch0 {
            assert(memory::gate_codes().contains(driver::key_code(KEY_CH0B@)->0));
            assert(memory::gate_codes().contains(driver::key_code(KEY_CH0C@)->0));
            let first = run::write_run(p, KEY_CH0B@, bytes, log, at);
            let then = run::past(at, first);
            let second = run::write_run(p, KEY_CH0C@, bytes, log, then);
            memory::lemma_stands(log, at, first, second);
            lemma_write_in(p, m, codes, KEY_CH0B@, bytes, log, at);
            let m1 = told(p, m, KEY_CH0B@, bytes);
            if first.value is Ok {
                lemma_write_in(p, m1, codes, KEY_CH0C@, bytes, log, then);
                let n1 = noted(p, m, KEY_CH0B@, bytes);
                let n2 = noted(p, m1, KEY_CH0C@, bytes);
                let m2 = told(p, m1, KEY_CH0C@, bytes);
                lemma_went_twice(m, log, at, then, run::past(then, second), m1, n1, m2, n2);
                if second.value is Ok {
                    assert(n1 + n2 =~= gate_notes(p, allow));
                }
            }
        } else {
            assert(memory::gate_codes().contains(driver::key_code(KEY_CHTE@)->0));
            lemma_write_in(p, m, codes, KEY_CHTE@, bytes, log, at);
            if set.value is Ok {
                assert(noted(p, m, KEY_CHTE@, bytes) =~= gate_notes(p, allow));
            }
        }
    }
}

// ---------------------------------------------------------------------------
// The firmware limit
// ---------------------------------------------------------------------------

/// The state of the firmware limit.
pub open spec fn limit_in(p: Probe, m: Memory) -> Result<FirmwareLimit, Fault> {
    if p.mode != ChargeControlMode::Firmware {
        Err(run::not_firmware(p))
    } else {
        match u8_in(p, m, KEY_BFF0@) {
            Err(e) => Err(e),
            Ok(active) => match u32_in(p, m, KEY_BFD0@) {
                Err(e) => Err(e),
                Ok(upper) => match u32_in(p, m, KEY_BFE0@) {
                    Err(e) => Err(e),
                    Ok(lower) => Ok(
                        FirmwareLimit {
                            active: active == FIRMWARE_ACTIVE,
                            lower: run::capped(lower),
                            upper: run::capped(upper),
                        },
                    ),
                },
            },
        }
    }
}

/// The firmware limit reads as it is.
pub proof fn lemma_limit_in(p: Probe, m: Memory, codes: Set<u32>, log: Seq<Exchange>, at: int)
    requires
        memory::firmware_codes().subset_of(codes),
        memory::keeps(m, log, at, codes),
        memory::stands(log, at, run::firmware_limit_run(p, log, at).sent),
    ensures
        ({
            let read = run::firmware_limit_run(p, log, at);
            &&& read.value == limit_in(p, m)
            &&& went(m, log, at, run::past(at, read), m, Seq::empty())
            &&& memory::keeps(m, log, run::past(at, read), codes)
        }),
{
    reveal(run::firmware_limit_run);
    memory::lemma_known_keys();
    assert(memory::firmware_codes().contains(driver::key_code(KEY_BFF0@)->0));
    assert(memory::firmware_codes().contains(driver::key_code(KEY_BFD0@)->0));
    assert(memory::firmware_codes().contains(driver::key_code(KEY_BFE0@)->0));
    lemma_went_nowhere(m, log, at);
    if p.mode == ChargeControlMode::Firmware {
        let none = Seq::<(u32, Seq<u8>)>::empty();
        let active = run::read_u8_run(p, KEY_BFF0@, log, at);
        let second = run::past(at, active);
        let upper = run::read_u32_le_run(p, KEY_BFD0@, log, second);
        let third = run::past(second, upper);
        let lower = run::read_u32_le_run(p, KEY_BFE0@, log, third);
        let limit = FirmwareLimit {
            active: active.value->Ok_0 == FIRMWARE_ACTIVE,
            lower: run::capped(lower.value->Ok_0),
            upper: run::capped(upper.value->Ok_0),
        };
        let tail = run::chain(lower, run::done(limit));
        assert(none + none =~= none);
        memory::lemma_stands(log, at, active, run::chain(upper, tail));
        lemma_u8_in(p, m, codes, KEY_BFF0@, log, at);
        if active.value is Ok {
            memory::lemma_stands(log, second, upper, tail);
            lemma_u32_in(p, m, codes, KEY_BFD0@, log, second);
            lemma_went_twice(m, log, at, second, third, m, none, m, none);
            if upper.value is Ok {
                memory::lemma_stands(log, third, lower, run::done(limit));
                lemma_u32_in(p, m, codes, KEY_BFE0@, log, third);
                lemma_went_twice(m, log, at, third, run::past(third, lower), m, none, m, none);
            }
        }
    }
}

/// The keys of the firmware limit take writes.
pub open spec fn limit_free(m: Memory) -> bool {
    &&& !m.sticky.contains(driver::key_code(KEY_BFD0@)->0)
    &&& !m.sticky.contains(driver::key_code(KEY_BFE0@)->0)
    &&& !m.sticky.contains(driver::key_code(KEY_BFF0@)->0)
}

/// What setting the firmware limit gives.
pub open spec fn set_limit_in(p: Probe, m: Memory, lower: u8, upper: u8) -> Result<(), Fault> {
    if lower >= upper || upper > 100 {
        Err(run::bad_limit(lower, upper))
    } else if p.mode != ChargeControlMode::Firmware {
        Err(run::not_firmware(p))
    } else {
        let m1 = told(p, m, KEY_BFD0@, run::little_endian(upper));
        let m2 = told(p, m1, KEY_BFE0@, run::little_endian(lower));
        match write_in(p, m, KEY_BFD0@, run::little_endian(upper)) {
            Err(e) => Err(e),
            Ok(_) => match write_in(p, m1, KEY_BFE0@, run::little_endian(lower)) {
                Err(e) => Err(e),
                Ok(_) => write_in(p, m2, KEY_BFF0@, seq![FIRMWARE_ACTIVE]),
            },
        }
    }
}

/// What the SMC holds after the firmware limit was set.
pub open spec fn limit_told(p: Probe, m: Memory, lower: u8, upper: u8) -> Memory {
    let m1 = told(p, m, KEY_BFD0@, run::little_endian(upper));
    let m2 = told(p, m1, KEY_BFE0@, run::little_endian(lower));
    told(p, m2, KEY_BFF0@, seq![FIRMWARE_ACTIVE])
}

/// The writes that set the firmware limit, by key code.
pub open spec fn limit_notes(lower: u8, upper: u8) -> Seq<(u32, Seq<u8>)> {
    seq![
        (driver::key_code(KEY_BFD0@)->0, run::little_endian(upper)),
        (driver::key_code(KEY_BFE0@)->0, run::little_endian(lower)),
        (driver::key_code(KEY_BFF0@)->0, seq![FIRMWARE_ACTIVE]),
    ]
}

/// A limit whose keys take writes is as it was set.
pub proof fn lemma_limit_told(p: Probe, m: Memory, lower: u8, upper: u8)
    requires
        set_limit_in(p, m, lower, upper) is Ok,
        limit_free(m),
    ensures
        limit_in(p, limit_told(p, m, lower, upper)) == Ok::<FirmwareLimit, Fault>(
            FirmwareLimit { active: true, lower, upper },
        ),
        limit_free(limit_told(p, m, lower, upper)),
{
    run::lemma_known_codes();
    memory::lemma_known_keys();
    let (low, high) = (run::little_endian(lower), run::little_endian(upper));
    let m1 = told(p, m, KEY_BFD0@, high);
    let m2 = told(p, m1, KEY_BFE0@, low);
    let on = seq![FIRMWARE_ACTIVE];
    lemma_told(p, m, KEY_BFD0@, high);
    lemma_told(p, m1, KEY_BFE0@, low);
    lemma_told(p, m2, KEY_BFF0@, on);
    lemma_told_others(p, m1, KEY_BFE0@, low, KEY_BFD0@);
    lemma_told_others(p, m2, KEY_BFF0@, on, KEY_BFD0@);
    lemma_told_others(p, m2, KEY_BFF0@, on, KEY_BFE0@);
}

/// Setting the firmware limit.
pub proof fn lemma_set_limit_in(
    p: Probe,
    m: Memory,
    codes: Set<u32>,
    lower: u8,
    upper: u8,
    log: Seq<Exchange>,
    at: int,
)
    requires
        memory::firmware_codes().subset_of(codes),
        memory::keeps(m, log, at, codes),
        memory::stands(log, at, run::set_firmware_limit_run(p, lower, upper, log, at).sent),
    ensures
        ({
            let set = run::set_firmware_limit_run(p, lower, upper, log, at);
            let now = limit_told(p, m, lower, upper);
            &&& set.value == set_limit_in(p, m, lower, upper)
            &&& set.value is Ok ==> {
                &&& went(m, log, at, run::past(at, set), now, limit_notes(lower, upper))
                &&& memory::keeps(now, log, run::past(at, set), codes)
            }
        }),
{
    reveal(run::set_firmware_limit_run);
    memory::lemma_known_keys();
    assert(memory::firmware_codes().contains(driver::key_code(KEY_BFF0@)->0));
    assert(memory::firmware_codes().contains(driver::key_code(KEY_BFD0@)->0));
    assert(memory::firmware_codes().contains(driver::key_code(KEY_BFE0@)->0));
    if p.mode == ChargeControlMode::Firmware && lower < upper <= 100 {
        let (low, high) = (run::little_endian(lower), run::little_endian(upper));
        let on = seq![FIRMWARE_ACTIVE];
        let first = run::write_run(p, KEY_BFD0@, high, log, at);
        let at2 = run::past(at, first);
        let second = run::write_run(p, KEY_BFE0@, low, log, at2);
        let at3 = run::past(at2, second);
        let third = run::write_run(p, KEY_BFF0@, on, log, at3);
        let m1 = told(p, m, KEY_BFD0@, high);
        let m2 = told(p, m1, KEY_BFE0@, low);
        let m3 = told(p, m2, KEY_BFF0@, on);
        let (n1, n2) = (noted(p, m, KEY_BFD0@, high), noted(p, m1, KEY_BFE0@, low));
        let n3 = noted(p, m2, KEY_BFF0@, on);
        memory::lemma_stands(log, at, first, run::chain(second, third));
        lemma_write_in(p, m, codes, KEY_BFD0@, high, log, at);
        if first.value is Ok {
            memory::lemma_stands(log, at2, second, third);
            lemma_write_in(p, m1, codes, KEY_BFE0@, low, log, at2);
            lemma_went_twice(m, log, at, at2, at3, m1, n1, m2, n2);
            if second.value is Ok {
                lemma_write_in(p, m2, codes, KEY_BFF0@, on, log, at3);
                lemma_went_twice(m, log, at, at3, run::past(at3, third), m2, n1 + n2, m3, n3);
                if third.value is Ok {
                    assert(n1 + n2 + n3 =~= limit_notes(lower, upper));
                }
            }
        }
    }
}

/// What clearing the firmware limit gives.
pub open spec fn clear_limit_in(p: Probe, m: Memory) -> Result<(), Fault> {
    if p.mode != ChargeControlMode::Firmware {
        Err(run::not_firmware(p))
    } else {
        write_in(p, m, KEY_BFF0@, seq![FIRMWARE_OFF])
    }
}

/// A limit that was cleared is off, and its percents stay.
pub proof fn lemma_limit_off(p: Probe, m: Memory)
    requires
        clear_limit_in(p, m) is Ok,
        limit_in(p, m) is Ok,
        !m.sticky.contains(driver::key_code(KEY_BFF0@)->0),
    ensures
        limit_in(p, told(p, m, KEY_BFF0@, seq![FIRMWARE_OFF])) == Ok::<FirmwareLimit, Fault>(
            FirmwareLimit { active: false, ..limit_in(p, m)->Ok_0 },
        ),
{
    run::lemma_known_codes();
    memory::lemma_known_keys();
    let off = seq![FIRMWARE_OFF];
    lemma_told(p, m, KEY_BFF0@, off);
    lemma_told_others(p, m, KEY_BFF0@, off, KEY_BFD0@);
    lemma_told_others(p, m, KEY_BFF0@, off, KEY_BFE0@);
}

/// Clearing the firmware limit.
pub proof fn lemma_clear_limit_in(
    p: Probe,
    m: Memory,
    codes: Set<u32>,
    log: Seq<Exchange>,
    at: int,
)
    requires
        memory::firmware_codes().subset_of(codes),
        memory::keeps(m, log, at, codes),
        memory::stands(log, at, run::clear_firmware_limit_run(p, log, at).sent),
    ensures
        ({
            let clear = run::clear_firmware_limit_run(p, log, at);
            let now = told(p, m, KEY_BFF0@, seq![FIRMWARE_OFF]);
            &&& clear.value == clear_limit_in(p, m)
            &&& p.mode == ChargeControlMode::Firmware ==> {
                &&& went(
                    m,
                    log,
                    at,
                    run::past(at, clear),
                    now,
                    noted(p, m, KEY_BFF0@, seq![FIRMWARE_OFF]),
                )
                &&& memory::keeps(now, log, run::past(at, clear), codes)
            }
        }),
{
    reveal(run::clear_firmware_limit_run);
    memory::lemma_known_keys();
    assert(memory::firmware_codes().contains(driver::key_code(KEY_BFF0@)->0));
    if p.mode == ChargeControlMode::Firmware {
        lemma_write_in(p, m, codes, KEY_BFF0@, seq![FIRMWARE_OFF], log, at);
    }
}

/// A limit whose keys take writes of its sizes can be read, set and cleared.
pub proof fn lemma_limit_settable(p: Probe, m: Memory, lower: u8, upper: u8)
    requires
        p.mode == ChargeControlMode::Firmware,
        memory::firmware_settable(p, m),
    ensures
        limit_free(m),
        limit_in(p, m) is Ok,
        clear_limit_in(p, m) is Ok,
        lower < upper <= 100 ==> set_limit_in(p, m, lower, upper) is Ok,
{
    run::lemma_known_codes();
    memory::lemma_known_keys();
    let (low, high) = (run::little_endian(lower), run::little_endian(upper));
    let m1 = told(p, m, KEY_BFD0@, high);
    lemma_told_others(p, m, KEY_BFD0@, high, KEY_BFE0@);
    lemma_told_others(p, m, KEY_BFD0@, high, KEY_BFF0@);
    lemma_told_others(p, m1, KEY_BFE0@, low, KEY_BFF0@);
}

// ---------------------------------------------------------------------------
// The adapter and the MagSafe LED
// ---------------------------------------------------------------------------

/// Whether the power adapter is enabled.
pub open spec fn adapter_in(p: Probe, m: Memory) -> Result<bool, Fault> {
    match run::adapter_key(p) {
        None => Err(Fault::Unsupported("adapter control"@)),
        Some(key) => match u8_in(p, m, key) {
            Ok(byte) => Ok(byte == ADAPTER_ON),
            Err(e) => Err(e),
        },
    }
}

/// The adapter reads as it is.
pub proof fn lemma_adapter_in(p: Probe, m: Memory, codes: Set<u32>, log: Seq<Exchange>, at: int)
    requires
        run::adapter_key(p) matches Some(key) ==> among(key, codes),
        memory::keeps(m, log, at, codes),
        memory::stands(log, at, run::adapter_run(p, log, at).sent),
    ensures
        ({
            let read = run::adapter_run(p, log, at);
            &&& read.value == adapter_in(p, m)
            &&& went(m, log, at, run::past(at, read), m, Seq::empty())
        }),
{
    reveal(run::adapter_run);
    lemma_went_nowhere(m, log, at);
    if run::adapter_key(p) is Some {
        lemma_u8_in(p, m, codes, run::adapter_key(p)->0, log, at);
    }
}

/// The MagSafe LED colour.
pub open spec fn led_in(p: Probe, m: Memory) -> Result<MagsafeLed, Fault> {
    if !run::found(p, KEY_ACLC@) {
        Err(Fault::Unsupported("MagSafe LED"@))
    } else {
        match u8_in(p, m, KEY_ACLC@) {
            Ok(byte) => Ok(run::led_of(byte)),
            Err(e) => Err(e),
        }
    }
}

/// The MagSafe LED reads as it is.
pub proof fn lemma_led_in(p: Probe, m: Memory, codes: Set<u32>, log: Seq<Exchange>, at: int)
    requires
        among(KEY_ACLC@, codes),
        memory::keeps(m, log, at, codes),
        memory::stands(log, at, run::led_run(p, log, at).sent),
    ensures
        ({
            let read = run::led_run(p, log, at);
            &&& read.value == led_in(p, m)
            &&& went(m, log, at, run::past(at, read), m, Seq::empty())
        }),
{
    reveal(run::led_run);
    lemma_went_nowhere(m, log, at);
    if run::found(p, KEY_ACLC@) {
        lemma_u8_in(p, m, codes, KEY_ACLC@, log, at);
    }
}

} // verus!
