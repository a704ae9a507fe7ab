//! What an SMC over the mock gives back of what it was told.

use crate::smc::driver::{self, Driver};
use crate::smc::error::Fault;
use crate::smc::memory::{self, Memory};
use crate::smc::mock::{self, MockDriver};
use crate::smc::recall;
use crate::smc::run::{self, Run};
use crate::smc::{
    self, FirmwareLimit, MagsafeLed, Smc, ALL_KEYS, FIRMWARE_ACTIVE, FIRMWARE_OFF, KEY_ACLC,
    KEY_BFD0, KEY_BFE0, KEY_BFF0,
};
use vstd::prelude::*;

verus! {

/// What an SMC over the mock holds.
pub open spec fn memory_of(smc: Smc<MockDriver>) -> Memory {
    smc.device().memory()
}

/// The writes that the mock under an SMC recorded.
pub open spec fn writes_of(smc: Smc<MockDriver>) -> Seq<(Seq<char>, Seq<u8>)> {
    smc.device().written()
}

/// A write to `key` changes its bytes.
pub open spec fn takes_writes(smc: Smc<MockDriver>, key: Seq<char>) -> bool {
    driver::key_code(key) matches Some(code) ==> !memory_of(smc).sticky.contains(code)
}

/// `after` is `before` once the mock under it forgot the writes that it
/// recorded.
pub open spec fn cleared(before: Smc<MockDriver>, after: Smc<MockDriver>) -> bool {
    &&& after@ == before@
    &&& memory_of(after) == memory_of(before)
    &&& writes_of(after) == Seq::<(Seq<char>, Seq<u8>)>::empty()
}

/// An operation over the mock: the mock keeps what it is told, and it is where
/// the packets of the operation lead.
proof fn lemma_did<T>(
    before: Smc<MockDriver>,
    after: Smc<MockDriver>,
    run: Run<T>,
    value: Result<T, Fault>,
)
    requires
        smc::did(before, after, run, value),
    ensures
        ({
            let (m, log, at) = (memory_of(before), after.log(), before.log().len() as int);
            let end = run::past(at, run);
            &&& end == log.len()
            &&& memory::keeps(m, log, at, Set::full())
            &&& memory::stands(log, at, run.sent)
            &&& forall|now: Memory, writes: Seq<(u32, Seq<u8>)>| #[trigger]
                recall::went(m, log, at, end, now, writes) ==> {
                    &&& memory_of(after) == now
                    &&& writes_of(after) == writes_of(before) + mock::spelled(writes)
                    &&& mock::all_named(writes)
                }
        }),
{
    reveal(memory::stands);
    reveal(recall::went);
    mock::the_mock_keeps_what_it_is_told(before.device(), after.device(), Set::full());
}

/// Nothing written is nothing recorded.
proof fn lemma_nothing_written(before: Seq<(Seq<char>, Seq<u8>)>)
    ensures
        before + mock::spelled(Seq::empty()) == before,
{
    assert(before + mock::spelled(Seq::empty()) =~= before);
}

/// A read over the mock.
proof fn lemma_read(
    before: Smc<MockDriver>,
    after: Smc<MockDriver>,
    key: Seq<char>,
    value: Result<Seq<u8>, Fault>,
)
    requires
        smc::did(
            before,
            after,
            run::read_run(before@, key, after.log(), before.log().len() as int),
            value,
        ),
    ensures
        value == recall::bytes_in(before@, memory_of(before), key),
        memory_of(after) == memory_of(before),
        writes_of(after) == writes_of(before),
{
    let (log, at) = (after.log(), before.log().len() as int);
    lemma_did(before, after, run::read_run(before@, key, log, at), value);
    recall::lemma_bytes_in(before@, memory_of(before), Set::full(), key, log, at);
    lemma_nothing_written(writes_of(before));
}

/// A write over the mock.
proof fn lemma_write(
    before: Smc<MockDriver>,
    after: Smc<MockDriver>,
    key: Seq<char>,
    bytes: Seq<u8>,
    value: Result<(), Fault>,
)
    requires
        smc::did(
            before,
            after,
            run::write_run(before@, key, bytes, after.log(), before.log().len() as int),
            value,
        ),
    ensures
        value == recall::write_in(before@, memory_of(before), key, bytes),
        memory_of(after) == recall::told(before@, memory_of(before), key, bytes),
        writes_of(after) == if value is Ok {
            writes_of(before).push((key, bytes))
        } else {
            writes_of(before)
        },
{
    let (m, log, at) = (memory_of(before), after.log(), before.log().len() as int);
    lemma_did(before, after, run::write_run(before@, key, bytes, log, at), value);
    recall::lemma_write_in(before@, m, Set::full(), key, bytes, log, at);
    lemma_nothing_written(writes_of(before));
    if value is Ok {
        let notes = recall::noted(before@, m, key, bytes);
        assert(driver::names_itself(notes[0].0));
        assert(writes_of(after) =~= writes_of(before).push((key, bytes)));
    }
}

/// A read gives back what the last write wrote, on any key that takes writes.
pub proof fn a_read_gives_back_a_write(
    before: Smc<MockDriver>,
    written: Smc<MockDriver>,
    read: Smc<MockDriver>,
    key: Seq<char>,
    bytes: Seq<u8>,
    value: Result<Seq<u8>, Fault>,
)
    requires
        takes_writes(before, key),
        smc::did(
            before,
            written,
            run::write_run(before@, key, bytes, written.log(), before.log().len() as int),
            Ok(()),
        ),
        smc::did(
            written,
            read,
            run::read_run(written@, key, read.log(), written.log().len() as int),
            value,
        ),
    ensures
        value == Ok::<Seq<u8>, Fault>(bytes),
        writes_of(read) == writes_of(before).push((key, bytes)),
{
    lemma_write(before, written, key, bytes, Ok(()));
    lemma_read(written, read, key, value);
    recall::lemma_told(before@, memory_of(before), key, bytes);
}

/// A write, whatever comes of it, leaves every other key alone: it reads as it
/// did before.
pub proof fn a_write_leaves_other_keys_alone(
    before: Smc<MockDriver>,
    asked: Smc<MockDriver>,
    written: Smc<MockDriver>,
    read: Smc<MockDriver>,
    key: Seq<char>,
    bytes: Seq<u8>,
    result: Result<(), Fault>,
    other: Seq<char>,
    first: Result<Seq<u8>, Fault>,
    second: Result<Seq<u8>, Fault>,
)
    requires
        other != key,
        smc::did(
            before,
            asked,
            run::read_run(before@, other, asked.log(), before.log().len() as int),
            first,
        ),
        smc::did(
            asked,
            written,
            run::write_run(asked@, key, bytes, written.log(), asked.log().len() as int),
            result,
        ),
        smc::did(
            written,
            read,
            run::read_run(written@, other, read.log(), written.log().len() as int),
            second,
        ),
    ensures
        second == first,
{
    lemma_read(before, asked, other, first);
    lemma_write(asked, written, key, bytes, result);
    lemma_read(written, read, other, second);
    if driver::key_code(other) is Some && driver::key_code(other) == driver::key_code(key) {
        driver::key_codes_are_distinct(other, key);
    }
    if driver::key_code(other) is Some {
        recall::lemma_told_others(before@, memory_of(before), key, bytes, other);
    }
}

/// The charge gate over the mock, read.
proof fn lemma_gate_read(
    before: Smc<MockDriver>,
    after: Smc<MockDriver>,
    value: Result<bool, Fault>,
)
    requires
        smc::did(
            before,
            after,
            run::allowed_run(before@, after.log(), before.log().len() as int),
            value,
        ),
    ensures
        value == recall::gate_in(before@, memory_of(before)),
        memory_of(after) == memory_of(before),
        writes_of(after) == writes_of(before),
{
    let (log, at) = (after.log(), before.log().len() as int);
    lemma_did(before, after, run::allowed_run(before@, log, at), value);
    recall::lemma_gate_in(before@, memory_of(before), Set::full(), log, at);
    lemma_nothing_written(writes_of(before));
}

/// The charge gate over the mock, set.
proof fn lemma_gate_set(
    before: Smc<MockDriver>,
    after: Smc<MockDriver>,
    allow: bool,
    value: Result<(), Fault>,
)
    requires
        smc::did(
            before,
            after,
            run::set_gate_run(before@, allow, after.log(), before.log().len() as int),
            value,
        ),
    ensures
        value == recall::set_gate_in(before@, memory_of(before), allow),
        value is Ok ==> memory_of(after) == recall::gate_told(before@, memory_of(before), allow),
        value is Ok ==> writes_of(after) == writes_of(before) + recall::gate_writes(before@, allow),
{
    let (m, log, at) = (memory_of(before), after.log(), before.log().len() as int);
    lemma_did(before, after, run::set_gate_run(before@, allow, log, at), value);
    recall::lemma_set_gate_in(before@, m, Set::full(), allow, log, at);
    if value is Ok {
        memory::lemma_known_keys();
        let notes = recall::gate_notes(before@, allow);
        let writes = recall::gate_writes(before@, allow);
        assert(mock::spelled(notes) =~= writes) by {
            assert forall|i: int| 0 <= i < writes.len() implies mock::spelled(notes)[i]
                == writes[i] by {
                assert(driver::names_itself(notes[i].0));
                assert(driver::key_code(writes[i].0) == Some(notes[i].0));
            }
        }
    }
}

/// A charge gate that takes writes and was once set can be set again, either
/// way: it then reads as it was set last, and what was written is the bytes of
/// the charge gate, `CH0B` before `CH0C` where the Mac has both and `CHTE` where
/// it has not, and nothing more.
pub proof fn the_gate_reads_back(
    before: Smc<MockDriver>,
    set: Smc<MockDriver>,
    blank: Smc<MockDriver>,
    again: Smc<MockDriver>,
    read: Smc<MockDriver>,
    first: bool,
    allow: bool,
    result: Result<(), Fault>,
    value: Result<bool, Fault>,
)
    requires
        recall::gate_free(before@, memory_of(before)),
        smc::did(
            before,
            set,
            run::set_gate_run(before@, first, set.log(), before.log().len() as int),
            Ok(()),
        ),
        cleared(set, blank),
        smc::did(
            blank,
            again,
            run::set_gate_run(blank@, allow, again.log(), blank.log().len() as int),
            result,
        ),
        smc::did(
            again,
            read,
            run::allowed_run(again@, read.log(), again.log().len() as int),
            value,
        ),
    ensures
        result == Ok::<(), Fault>(()),
        value == Ok::<bool, Fault>(allow),
        writes_of(read) == recall::gate_writes(before@, allow),
{
    lemma_gate_set(before, set, first, Ok(()));
    recall::lemma_gate_told(before@, memory_of(before), first, allow);
    lemma_gate_set(blank, again, allow, result);
    recall::lemma_gate_told(blank@, memory_of(blank), allow, allow);
    lemma_gate_read(again, read, value);
    assert(writes_of(blank) + recall::gate_writes(before@, allow) =~= recall::gate_writes(
        before@,
        allow,
    ));
}

/// The firmware limit over the mock, read.
proof fn lemma_limit_read(
    before: Smc<MockDriver>,
    after: Smc<MockDriver>,
    value: Result<FirmwareLimit, Fault>,
)
    requires
        smc::did(
            before,
            after,
            run::firmware_limit_run(before@, after.log(), before.log().len() as int),
            value,
        ),
    ensures
        value == recall::limit_in(before@, memory_of(before)),
        memory_of(after) == memory_of(before),
        writes_of(after) == writes_of(before),
{
    let (log, at) = (after.log(), before.log().len() as int);
    lemma_did(before, after, run::firmware_limit_run(before@, log, at), value);
    recall::lemma_limit_in(before@, memory_of(before), Set::full(), log, at);
    lemma_nothing_written(writes_of(before));
}

/// A firmware limit whose keys take writes reads back as it was set, and it is
/// active. What was written is the upper percent, the lower one and the
/// activation, in this order.
pub proof fn the_firmware_limit_reads_back(
    before: Smc<MockDriver>,
    set: Smc<MockDriver>,
    read: Smc<MockDriver>,
    lower: u8,
    upper: u8,
    value: Result<FirmwareLimit, Fault>,
)
    requires
        takes_writes(before, KEY_BFD0@),
        takes_writes(before, KEY_BFE0@),
        takes_writes(before, KEY_BFF0@),
        smc::did(
            before,
            set,
            run::set_firmware_limit_run(before@, lower, upper, set.log(), before.log().len() as int),
            Ok(()),
        ),
        smc::did(
            set,
            read,
            run::firmware_limit_run(set@, read.log(), set.log().len() as int),
            value,
        ),
    ensures
        value == Ok::<FirmwareLimit, Fault>(FirmwareLimit { active: true, lower, upper }),
        writes_of(read) == writes_of(before) + seq![
            (KEY_BFD0@, run::little_endian(upper)),
            (KEY_BFE0@, run::little_endian(lower)),
            (KEY_BFF0@, seq![FIRMWARE_ACTIVE]),
        ],
{
    memory::lemma_known_keys();
    let (m, log, at) = (memory_of(before), set.log(), before.log().len() as int);
    lemma_did(
        before,
        set,
        run::set_firmware_limit_run(before@, lower, upper, log, at),
        Ok(()),
    );
    recall::lemma_set_limit_in(before@, m, Set::full(), lower, upper, log, at);
    recall::lemma_limit_told(before@, m, lower, upper);
    lemma_limit_read(set, read, value);
    let notes = recall::limit_notes(lower, upper);
    assert(driver::names_itself(notes[0].0));
    assert(driver::names_itself(notes[1].0));
    assert(driver::names_itself(notes[2].0));
    assert(mock::spelled(notes) =~= seq![
        (KEY_BFD0@, run::little_endian(upper)),
        (KEY_BFE0@, run::little_endian(lower)),
        (KEY_BFF0@, seq![FIRMWARE_ACTIVE]),
    ]);
}

/// A firmware limit that could be read can be cleared if and only if `bfF0` has
/// one byte. It is then not active, its percents stay, and the one write is the
/// zero in `bfF0`. Otherwise nothing is written, and the limit reads as before.
pub proof fn a_cleared_limit_keeps_its_percents(
    before: Smc<MockDriver>,
    asked: Smc<MockDriver>,
    blank: Smc<MockDriver>,
    after: Smc<MockDriver>,
    read: Smc<MockDriver>,
    limit: FirmwareLimit,
    result: Result<(), Fault>,
    value: Result<FirmwareLimit, Fault>,
)
    requires
        takes_writes(before, KEY_BFF0@),
        smc::did(
            before,
            asked,
            run::firmware_limit_run(before@, asked.log(), before.log().len() as int),
            Ok(limit),
        ),
        cleared(asked, blank),
        smc::did(
            blank,
            after,
            run::clear_firmware_limit_run(blank@, after.log(), blank.log().len() as int),
            result,
        ),
        smc::did(
            after,
            read,
            run::firmware_limit_run(after@, read.log(), after.log().len() as int),
            value,
        ),
    ensures
        ({
            let info = recall::info_in(before@, memory_of(before), KEY_BFF0@)->Ok_0;
            if info.data_size == 1 {
                &&& result == Ok::<(), Fault>(())
                &&& value == Ok::<FirmwareLimit, Fault>(FirmwareLimit { active: false, ..limit })
                &&& writes_of(read) == seq![(KEY_BFF0@, seq![FIRMWARE_OFF])]
            } else {
                &&& result == Err::<(), Fault>(
                    Fault::UnexpectedSize {
                        key: KEY_BFF0@,
                        expected: info.data_size as usize,
                        got: 1,
                    },
                )
                &&& value == Ok::<FirmwareLimit, Fault>(limit)
                &&& writes_of(read) == Seq::<(Seq<char>, Seq<u8>)>::empty()
            }
        }),
{
    memory::lemma_known_keys();
    let (m, log, at) = (memory_of(blank), after.log(), blank.log().len() as int);
    lemma_limit_read(before, asked, Ok(limit));
    lemma_did(blank, after, run::clear_firmware_limit_run(blank@, log, at), result);
    recall::lemma_clear_limit_in(blank@, m, Set::full(), log, at);
    lemma_limit_read(after, read, value);
    let notes = recall::noted(blank@, m, KEY_BFF0@, seq![FIRMWARE_OFF]);
    if result is Ok {
        recall::lemma_limit_off(blank@, m);
        assert(driver::names_itself(notes[0].0));
        assert(writes_of(after) =~= seq![(KEY_BFF0@, seq![FIRMWARE_OFF])]);
    } else {
        lemma_nothing_written(writes_of(blank));
    }
}

/// The adapter over the mock, read.
proof fn lemma_adapter_read(
    before: Smc<MockDriver>,
    after: Smc<MockDriver>,
    value: Result<bool, Fault>,
)
    requires
        smc::did(
            before,
            after,
            run::adapter_run(before@, after.log(), before.log().len() as int),
            value,
        ),
    ensures
        value == recall::adapter_in(before@, memory_of(before)),
        memory_of(after) == memory_of(before),
        writes_of(after) == writes_of(before),
{
    let (log, at) = (after.log(), before.log().len() as int);
    lemma_did(before, after, run::adapter_run(before@, log, at), value);
    recall::lemma_adapter_in(before@, memory_of(before), Set::full(), log, at);
    lemma_nothing_written(writes_of(before));
}

/// The adapter reads back as it was set, whichever of its keys the Mac has,
/// where that key takes writes.
pub proof fn the_adapter_reads_back(
    before: Smc<MockDriver>,
    set: Smc<MockDriver>,
    read: Smc<MockDriver>,
    on: bool,
    value: Result<bool, Fault>,
)
    requires
        run::adapter_key(before@) matches Some(key) ==> takes_writes(before, key),
        smc::did(
            before,
            set,
            run::set_adapter_run(before@, on, set.log(), before.log().len() as int),
            Ok(()),
        ),
        smc::did(
            set,
            read,
            run::adapter_run(set@, read.log(), set.log().len() as int),
            value,
        ),
    ensures
        value == Ok::<bool, Fault>(on),
{
    reveal(run::set_adapter_run);
    let key = run::adapter_key(before@)->0;
    let bytes = seq![run::adapter_byte(key, on)];
    lemma_write(before, set, key, bytes, Ok(()));
    recall::lemma_told(before@, memory_of(before), key, bytes);
    lemma_adapter_read(set, read, value);
}

/// The adapter is unsupported on a Mac without any of its keys, and on no
/// other. There nothing is sent.
pub proof fn the_adapter_needs_a_key(
    before: Smc<MockDriver>,
    set: Smc<MockDriver>,
    read: Smc<MockDriver>,
    on: bool,
    result: Result<(), Fault>,
    value: Result<bool, Fault>,
)
    requires
        smc::did(
            before,
            set,
            run::set_adapter_run(before@, on, set.log(), before.log().len() as int),
            result,
        ),
        smc::did(
            set,
            read,
            run::adapter_run(set@, read.log(), set.log().len() as int),
            value,
        ),
    ensures
        result matches Err(Fault::Unsupported(_)) <==> run::adapter_key(before@) is None,
        value matches Err(Fault::Unsupported(_)) <==> run::adapter_key(before@) is None,
        run::adapter_key(before@) is None ==> read.log() == before.log() && writes_of(read)
            == writes_of(before),
{
    reveal(run::set_adapter_run);
    reveal(run::adapter_run);
    lemma_adapter_read(set, read, value);
    match run::adapter_key(before@) {
        Some(key) => {
            lemma_write(before, set, key, seq![run::adapter_byte(key, on)], result);
        },
        None => {
            let (log, at) = (set.log(), before.log().len() as int);
            lemma_did(before, set, run::set_adapter_run(before@, on, log, at), result);
            recall::lemma_went_nowhere(memory_of(before), log, at);
            lemma_nothing_written(writes_of(before));
            assert(read.log() =~= before.log());
        },
    }
}

/// The MagSafe LED over the mock, read.
proof fn lemma_led_read(
    before: Smc<MockDriver>,
    after: Smc<MockDriver>,
    value: Result<MagsafeLed, Fault>,
)
    requires
        smc::did(
            before,
            after,
            run::led_run(before@, after.log(), before.log().len() as int),
            value,
        ),
    ensures
        value == recall::led_in(before@, memory_of(before)),
        memory_of(after) == memory_of(before),
        writes_of(after) == writes_of(before),
{
    let (log, at) = (after.log(), before.log().len() as int);
    lemma_did(before, after, run::led_run(before@, log, at), value);
    recall::lemma_led_in(before@, memory_of(before), Set::full(), log, at);
    lemma_nothing_written(writes_of(before));
}

/// The MagSafe LED reads back as it was set, in every colour, where its key
/// takes writes.
pub proof fn the_led_reads_back(
    before: Smc<MockDriver>,
    set: Smc<MockDriver>,
    read: Smc<MockDriver>,
    led: MagsafeLed,
    value: Result<MagsafeLed, Fault>,
)
    requires
        takes_writes(before, KEY_ACLC@),
        smc::did(
            before,
            set,
            run::set_led_run(before@, led, set.log(), before.log().len() as int),
            Ok(()),
        ),
        smc::did(
            set,
            read,
            run::led_run(set@, read.log(), set.log().len() as int),
            value,
        ),
    ensures
        value == Ok::<MagsafeLed, Fault>(led),
{
    reveal(run::set_led_run);
    let bytes = seq![run::led_byte(led)];
    lemma_write(before, set, KEY_ACLC@, bytes, Ok(()));
    recall::lemma_told(before@, memory_of(before), KEY_ACLC@, bytes);
    lemma_led_read(set, read, value);
}

/// A Mac without a MagSafe LED can neither set nor read it, and nothing is sent.
pub proof fn the_led_needs_its_key(
    before: Smc<MockDriver>,
    set: Smc<MockDriver>,
    read: Smc<MockDriver>,
    led: MagsafeLed,
    result: Result<(), Fault>,
    value: Result<MagsafeLed, Fault>,
)
    requires
        !run::found(before@, KEY_ACLC@),
        smc::did(
            before,
            set,
            run::set_led_run(before@, led, set.log(), before.log().len() as int),
            result,
        ),
        smc::did(
            set,
            read,
            run::led_run(set@, read.log(), set.log().len() as int),
            value,
        ),
    ensures
        result == Err::<(), Fault>(Fault::Unsupported("MagSafe LED"@)),
        value == Err::<MagsafeLed, Fault>(Fault::Unsupported("MagSafe LED"@)),
        read.log() == before.log(),
        writes_of(read) == writes_of(before),
{
    reveal(run::set_led_run);
    reveal(run::led_run);
    let (log, at) = (set.log(), before.log().len() as int);
    lemma_led_read(set, read, value);
    lemma_did(before, set, run::set_led_run(before@, led, log, at), result);
    recall::lemma_went_nowhere(memory_of(before), log, at);
    lemma_nothing_written(writes_of(before));
    assert(read.log() =~= before.log());
}

// ---------------------------------------------------------------------------
// The probe
// ---------------------------------------------------------------------------

/// The first `n` questions of the probe change nothing.
proof fn lemma_probe_asks(m: Memory, log: Seq<driver::Exchange>, at: int, n: int)
    requires
        0 <= n <= 12,
        memory::keeps(m, log, at, Set::full()),
        memory::stands(log, at, run::probe_packets(12)),
    ensures
        recall::went(m, log, at, at + n, m, Seq::empty()),
        memory::keeps(m, log, at + n, Set::full()),
    decreases n,
{
    recall::lemma_went_nowhere(m, log, at);
    if n > 0 {
        let none = Seq::<(u32, Seq<u8>)>::empty();
        let then = at + (n - 1);
        lemma_probe_asks(m, log, at, n - 1);
        assert(log[then].sent == run::probe_packets(12)[n - 1]) by {
            reveal(memory::stands);
        }
        recall::lemma_went_once(m, log, then);
        recall::lemma_went_twice(m, log, at, then, at + n, m, none, m, none);
        assert(none + none =~= none);
        recall::lemma_went_keeps(m, log, at, at + n, m, none, Set::full());
    }
}

/// The reply to one question of the probe.
proof fn lemma_probe_reply(m: Memory, log: Seq<driver::Exchange>, at: int, i: int)
    requires
        0 <= i < 12,
        memory::keeps(m, log, at, Set::full()),
        memory::stands(log, at, run::probe_packets(12)),
    ensures
        log[at + i].reply == memory::answer(m, run::probe_packets(12)[i]),
{
    lemma_probe_asks(m, log, at, i);
    reveal(memory::stands);
    reveal(memory::keeps);
    assert(log[at + i].sent == run::probe_packets(12)[i]);
}

/// `code` is one of the first `n` codes that the probe asks for.
spec fn asked_for(n: int, code: u32) -> bool
    decreases n,
{
    n > 0 && (run::known_code(n - 1) == code || asked_for(n - 1, code))
}

proof fn lemma_asked_for(n: int, i: int)
    requires
        0 <= i < n,
    ensures
        asked_for(n, run::known_code(i)),
    decreases n,
{
    if i < n - 1 {
        lemma_asked_for(n - 1, i);
    }
}

/// What the first `n` replies to the probe say of one key.
proof fn lemma_probed(m: Memory, log: Seq<driver::Exchange>, at: int, n: int, code: u32)
    requires
        0 <= n <= 12,
        memory::keeps(m, log, at, Set::full()),
        memory::stands(log, at, run::probe_packets(12)),
    ensures
        ({
            let present = run::probed(log, at, n);
            let size = m.values[code].1.len() as u32;
            &&& present.contains_key(code) <==> m.values.contains_key(code) && size > 0
                && asked_for(n, code)
            &&& present.contains_key(code) ==> present[code].data_size == size
        }),
    decreases n,
{
    if n > 0 {
        lemma_probed(m, log, at, n - 1, code);
        lemma_probe_reply(m, log, at, n - 1);
        assert(log[at + (n - 1)] == log[at + n - 1]);
    }
}

/// The probe finds the known keys that the mock has bytes for, and no others,
/// with the sizes that they have. It changes nothing.
pub proof fn the_probe_finds_what_is_there(device: MockDriver, made: Smc<MockDriver>, i: int)
    requires
        0 <= i < 12,
        driver::reached(device, made.device()),
        run::followed(device.log(), made.log(), run::probe_packets(12)),
        made@.present == run::probed(made.log(), device.log().len() as int, 12),
    ensures
        ({
            let code = run::known_code(i);
            let values = device.memory().values;
            &&& run::found(made@, ALL_KEYS[i]@) <==> values.contains_key(code)
                && values[code].1.len() as u32 > 0
            &&& run::found(made@, ALL_KEYS[i]@) ==> made@.present[code].data_size
                == values[code].1.len() as u32
            &&& memory_of(made) == device.memory()
            &&& writes_of(made) == device.written()
        }),
{
    run::lemma_known_codes();
    lemma_made(device, made, run::known_code(i));
    lemma_asked_for(12, i);
}

/// What the probe leaves, and what it says of one key.
proof fn lemma_made(device: MockDriver, made: Smc<MockDriver>, code: u32)
    requires
        driver::reached(device, made.device()),
        run::followed(device.log(), made.log(), run::probe_packets(12)),
        made@.present == run::probed(made.log(), device.log().len() as int, 12),
    ensures
        memory_of(made) == device.memory(),
        writes_of(made) == device.written(),
        ({
            let size = device.memory().values[code].1.len() as u32;
            &&& made@.present.contains_key(code) <==> device.memory().values.contains_key(code)
                && size > 0 && asked_for(12, code)
            &&& made@.present.contains_key(code) ==> made@.present[code].data_size == size
        }),
{
    let (m, log, at) = (device.memory(), made.log(), device.log().len() as int);
    mock::the_mock_keeps_what_it_is_told(device, made.device(), Set::full());
    assert(memory::stands(log, at, run::probe_packets(12))) by {
        reveal(memory::stands);
    }
    lemma_probe_asks(m, log, at, 12);
    lemma_probed(m, log, at, 12, code);
    reveal(recall::went);
    lemma_nothing_written(device.written());
}

/// A key that the mock was seeded with reads as it was seeded, as far as one
/// packet carries it, whether or not the probe looks for it.
pub proof fn a_seeded_key_reads(
    device: MockDriver,
    made: Smc<MockDriver>,
    read: Smc<MockDriver>,
    key: Seq<char>,
    value: Result<Seq<u8>, Fault>,
)
    requires
        driver::reached(device, made.device()),
        run::followed(device.log(), made.log(), run::probe_packets(12)),
        made@.present == run::probed(made.log(), device.log().len() as int, 12),
        driver::key_code(key) is Some,
        ({
            let code = driver::key_code(key)->0;
            &&& device.memory().values.contains_key(code)
            &&& 0 < device.memory().values[code].1.len() <= u32::MAX
        }),
        smc::did(
            made,
            read,
            run::read_run(made@, key, read.log(), made.log().len() as int),
            value,
        ),
    ensures
        value == Ok::<Seq<u8>, Fault>(
            memory::one_packet(device.memory().values[driver::key_code(key)->0].1),
        ),
{
    let bytes = device.memory().values[driver::key_code(key)->0].1;
    lemma_made(device, made, driver::key_code(key)->0);
    lemma_read(made, read, key, value);
    let sent = memory::one_packet(bytes);
    assert(driver::payload_of(sent).take(sent.len() as int) =~= sent);
}

} // verus!
