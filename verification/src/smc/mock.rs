//! In-memory [`Driver`] for tests.

use crate::smc::driver::{
    self, check_result, command, fourcc, fourcc_str, inquiry, Driver, Exchange, SmcKeyData,
    CMD_READ_BYTES, CMD_READ_KEY_INFO, CMD_WRITE_BYTES, MAX_DATA_LEN, SMC_KEY_NOT_FOUND,
};
use crate::smc::error::SmcError;
use crate::smc::leading_bytes;
use crate::smc::memory::{self, Memory};
use crate::smc::{recall, run};
use std::collections::{BTreeMap, BTreeSet};
use vstd::prelude::*;

verus! {

/// A fake SMC backed by a map.
pub struct MockDriver {
    /// FourCC -> (data type FourCC, current bytes).
    keys: BTreeMap<u32, (u32, Vec<u8>)>,
    /// Every write, in order, as `(key, bytes)`.
    writes: Vec<(String, Vec<u8>)>,
    /// Keys whose stored bytes a write records but does not change.
    sticky: BTreeSet<u32>,
    log: Ghost<Seq<Exchange>>,
}

/// Writes as pairs of a key and bytes.
pub open spec fn writes_of(writes: Seq<(String, Vec<u8>)>) -> Seq<(Seq<char>, Seq<u8>)> {
    Seq::new(writes.len(), |i: int| (writes[i].0@, writes[i].1@))
}

/// Writes by key code, with the text of the code.
pub open spec fn spelled(writes: Seq<(u32, Seq<u8>)>) -> Seq<(Seq<char>, Seq<u8>)> {
    Seq::new(writes.len(), |i: int| (driver::key_text(writes[i].0), writes[i].1))
}

/// The text of each code is the key that it was made of.
pub open spec fn all_named(writes: Seq<(u32, Seq<u8>)>) -> bool {
    forall|i: int| 0 <= i < writes.len() ==> driver::names_itself((#[trigger] writes[i]).0)
}

/// The data type that goes with a length.
pub open spec fn type_for(len: nat) -> Seq<char> {
    if len == 1 {
        "ui8 "@
    } else if len == 2 {
        "ui16"@
    } else if len == 4 {
        "ui32"@
    } else {
        "hex_"@
    }
}

/// `m` with a key of the given type and bytes.
pub open spec fn seeded(m: Memory, key: Seq<char>, data_type: Seq<char>, bytes: Seq<u8>) -> Memory {
    Memory {
        values: m.values.insert(
            driver::key_code(key)->0,
            (driver::key_code(data_type)->0, bytes),
        ),
        ..m
    }
}

impl Default for MockDriver {
    fn default() -> (r: Self)
        ensures
            r.memory().values == Map::<u32, (u32, Seq<u8>)>::empty(),
            r.memory().sticky == Set::<u32>::empty(),
            r.written() == Seq::<(Seq<char>, Seq<u8>)>::empty(),
            r.log() == Seq::<Exchange>::empty(),
    {
        MockDriver::new()
    }
}

impl MockDriver {
    /// The keys and their bytes.
    pub closed spec fn memory(&self) -> Memory {
        Memory {
            values: self.keys@.map_values(|v: (u32, Vec<u8>)| (v.0, v.1@)),
            sticky: self.sticky@,
        }
    }

    /// Every write so far, in order.
    pub closed spec fn written(&self) -> Seq<(Seq<char>, Seq<u8>)> {
        writes_of(self.writes@)
    }

    /// Returns a mock without keys.
    pub fn new() -> (r: Self)
        ensures
            r.memory().values == Map::<u32, (u32, Seq<u8>)>::empty(),
            r.memory().sticky == Set::<u32>::empty(),
            r.written() == Seq::<(Seq<char>, Seq<u8>)>::empty(),
            r.log() == Seq::<Exchange>::empty(),
    {
        let r = MockDriver {
            keys: BTreeMap::new(),
            writes: Vec::new(),
            sticky: BTreeSet::new(),
            log: Ghost(Seq::empty()),
        };
        assert(r.memory().values =~= Map::<u32, (u32, Seq<u8>)>::empty());
        r
    }

    fn put(&mut self, key: u32, data_type: u32, bytes: Vec<u8>)
        ensures
            final(self).memory() == (Memory {
                values: old(self).memory().values.insert(key, (data_type, bytes@)),
                ..old(self).memory()
            }),
            final(self).written() == old(self).written(),
            final(self).log() == old(self).log(),
    {
        let ghost before = self.memory().values;
        self.keys.insert(key, (data_type, bytes));
        assert(self.memory().values =~= before.insert(key, (data_type, bytes@)));
    }

    fn add(&mut self, key: &str, data_type: &str, bytes: &[u8])
        requires
            driver::key_code(key@) is Some,
            driver::key_code(data_type@) is Some,
        ensures
            final(self).memory() == seeded(old(self).memory(), key@, data_type@, bytes@),
            final(self).written() == old(self).written(),
            final(self).log() == old(self).log(),
    {
        if let Ok(code) = fourcc(key) {
            if let Ok(data_type) = fourcc(data_type) {
                let copy = vstd::slice::slice_to_vec(bytes);
                self.put(code, data_type, copy);
            }
        }
    }

    /// Adds a key with its current bytes. The data type follows the length.
    pub fn seed(&mut self, key: &str, bytes: &[u8]) -> (r: &mut Self)
        requires
            driver::key_code(key@) is Some,
        ensures
            r.memory() == seeded(old(self).memory(), key@, type_for(bytes@.len()), bytes@),
            r.written() == old(self).written(),
            r.log() == old(self).log(),
            *final(self) == *final(r),
    {
        proof {
            lemma_types();
        }
        let data_type = match bytes.len() {
            1 => "ui8 ",
            2 => "ui16",
            4 => "ui32",
            _ => "hex_",
        };
        self.add(key, data_type, bytes);
        self
    }

    /// Adds a key that accepts a write but keeps returning `bytes`.
    ///
    /// Models a key the firmware owns, such as `ACLC`: writing `0x00` hands
    /// the MagSafe LED back to the system, and the next read reports the
    /// colour the system chose, never the byte that was written.
    pub fn seed_sticky(&mut self, key: &str, bytes: &[u8]) -> (r: &mut Self)
        requires
            driver::key_code(key@) is Some,
        ensures
            r.memory() == (Memory {
                sticky: old(self).memory().sticky.insert(driver::key_code(key@)->0),
                ..seeded(old(self).memory(), key@, type_for(bytes@.len()), bytes@)
            }),
            r.written() == old(self).written(),
            r.log() == old(self).log(),
            *final(self) == *final(r),
    {
        self.seed(key, bytes);
        if let Ok(code) = fourcc(key) {
            self.sticky.insert(code);
        }
        self
    }

    /// Adds a key with an explicit data type FourCC.
    pub fn seed_typed(&mut self, key: &str, data_type: &str, bytes: &[u8]) -> (r: &mut Self)
        requires
            driver::key_code(key@) is Some,
            driver::key_code(data_type@) is Some,
        ensures
            r.memory() == seeded(old(self).memory(), key@, data_type@, bytes@),
            r.written() == old(self).written(),
            r.log() == old(self).log(),
            *final(self) == *final(r),
    {
        self.add(key, data_type, bytes);
        self
    }

    /// Answers one packet.
    fn respond(&mut self, input: &SmcKeyData) -> (r: Result<SmcKeyData, SmcError>)
        ensures
            driver::reply_of(r) == memory::answer(old(self).memory(), input@),
            final(self).memory() == memory::after(old(self).memory(), input@),
            final(self).written() == old(self).written() + spelled(
                memory::recorded(old(self).memory(), input@),
            ),
            all_named(memory::recorded(old(self).memory(), input@)),
            final(self).log() == old(self).log(),
    {
        assert(self.written() =~= self.written() + spelled(Seq::empty()));
        let mut output = inquiry(input.key, input.data8, 0);
        let (data_type, value) = match self.keys.get(&input.key) {
            Some(entry) => (entry.0, vstd::slice::slice_to_vec(entry.1.as_slice())),
            None => {
                output.result = SMC_KEY_NOT_FOUND;
                return match check_result(input.key, &output) {
                    Ok(_) => Ok(output),
                    Err(e) => Err(e),
                };
            },
        };
        if input.data8 == CMD_READ_KEY_INFO {
            output.key_info.data_size = value.len() as u32;
            output.key_info.data_type = data_type;
            Ok(output)
        } else if input.data8 == CMD_READ_BYTES {
            let ghost stored = value@;
            let mut value = value;
            if value.len() > MAX_DATA_LEN {
                value.truncate(MAX_DATA_LEN);
            }
            assert(value@ =~= memory::one_packet(stored));
            Ok(command(input.key, input.data8, value.len() as u32, value.as_slice()))
        } else if input.data8 == CMD_WRITE_BYTES {
            let len: usize = if (input.key_info.data_size as usize) < MAX_DATA_LEN {
                input.key_info.data_size as usize
            } else {
                MAX_DATA_LEN
            };
            let written = leading_bytes(&input.bytes, len);
            if !self.sticky.contains(&input.key) {
                let stored = vstd::slice::slice_to_vec(written.as_slice());
                self.put(input.key, data_type, stored);
            }
            let ghost before = self.written();
            self.writes.push((fourcc_str(input.key), written));
            assert(self.written() =~= before + spelled(
                seq![(input.key, memory::carried(input@))],
            ));
            Ok(output)
        } else {
            output.result = input.data8;
            match check_result(input.key, &output) {
                Ok(_) => Ok(output),
                Err(e) => Err(e),
            }
        }
    }

    /// Returns every write so far, in order.
    pub fn writes(&self) -> (r: Vec<(String, Vec<u8>)>)
        ensures
            writes_of(r@) == self.written(),
    {
        let mut out: Vec<(String, Vec<u8>)> = Vec::new();
        let mut i: usize = 0;
        while i < self.writes.len()
            invariant
                i <= self.writes@.len(),
                writes_of(out@) == writes_of(self.writes@).take(i as int),
            decreases self.writes@.len() - i,
        {
            let bytes = vstd::slice::slice_to_vec(self.writes[i].1.as_slice());
            let key = self.writes[i].0.clone();
            let ghost before = out@;
            out.push((key, bytes));
            i = i + 1;
            assert(writes_of(out@) =~= writes_of(before).push(
                writes_of(self.writes@)[i - 1],
            ));
            assert(writes_of(out@) =~= writes_of(self.writes@).take(i as int));
        }
        assert(writes_of(out@) =~= self.written());
        out
    }

    /// Forgets the recorded writes. Stored values stay.
    pub fn clear_writes(&mut self)
        ensures
            final(self).memory() == old(self).memory(),
            final(self).written() == Seq::<(Seq<char>, Seq<u8>)>::empty(),
            final(self).log() == old(self).log(),
    {
        self.writes.clear();
        assert(self.written() =~= Seq::<(Seq<char>, Seq<u8>)>::empty());
    }

    /// Returns the current bytes of a key.
    pub fn value(&self, key: &str) -> (r: Option<Vec<u8>>)
        ensures
            match r {
                Some(bytes) => driver::key_code(key@) matches Some(code)
                    && self.memory().values.contains_key(code) && bytes@
                    == self.memory().values[code].1,
                None => driver::key_code(key@) matches Some(code)
                    ==> !self.memory().values.contains_key(code),
            },
    {
        let code = match fourcc(key) {
            Ok(code) => code,
            Err(_) => return None,
        };
        match self.keys.get(&code) {
            Some(entry) => Some(vstd::slice::slice_to_vec(entry.1.as_slice())),
            None => None,
        }
    }
}

impl Driver for MockDriver {
    closed spec fn log(&self) -> Seq<Exchange> {
        self.log@
    }

    /// The mock answers from its memory, keeps what a write tells it, and
    /// records the write.
    open spec fn leads_to(&self, exchange: Exchange, after: &Self) -> bool {
        &&& exchange.reply == memory::answer(self.memory(), exchange.sent)
        &&& after.memory() == memory::after(self.memory(), exchange.sent)
        &&& after.written() == self.written() + spelled(
            memory::recorded(self.memory(), exchange.sent),
        )
        &&& all_named(memory::recorded(self.memory(), exchange.sent))
    }

    fn call(&mut self, input: SmcKeyData) -> (r: Result<SmcKeyData, SmcError>) {
        let r = self.respond(&input);
        proof {
            self.log@ = self.log@.push((Exchange { sent: input@, reply: driver::reply_of(r) }));
        }
        r
    }
}

/// The mock is an SMC that keeps what it is told: over any number of round
/// trips it answers from its memory, and its memory and the writes that it
/// recorded are what the round trips made of them.
pub proof fn the_mock_keeps_what_it_is_told(
    before: MockDriver,
    after: MockDriver,
    codes: Set<u32>,
)
    requires
        driver::reached(before, after),
    ensures
        ({
            let (log, at) = (after.log(), before.log().len() as int);
            let end = log.len() as int;
            let writes = recall::records(before.memory(), log, at, end);
            &&& run::extends(log, before.log())
            &&& memory::keeps(before.memory(), log, at, codes)
            &&& memory::held(before.memory(), log, at, end) == after.memory()
            &&& after.written() == before.written() + spelled(writes)
            &&& all_named(writes)
        }),
{
    reveal(driver::reached);
    let n = choose|n: nat| #[trigger] driver::reached_in(before, after, n);
    lemma_reached_in(before, after, n, codes);
}

proof fn lemma_reached_in(before: MockDriver, after: MockDriver, n: nat, codes: Set<u32>)
    requires
        driver::reached_in(before, after, n),
    ensures
        ({
            let (log, at) = (after.log(), before.log().len() as int);
            let end = log.len() as int;
            let writes = recall::records(before.memory(), log, at, end);
            &&& run::extends(log, before.log())
            &&& memory::keeps(before.memory(), log, at, codes)
            &&& memory::held(before.memory(), log, at, end) == after.memory()
            &&& after.written() == before.written() + spelled(writes)
            &&& all_named(writes)
        }),
    decreases n,
{
    let m = before.memory();
    let at = before.log().len() as int;
    if n == 0 {
        let none = Seq::<(u32, Seq<u8>)>::empty();
        memory::answers_from_memory_keep_it(m, before.log(), at, codes, arbitrary());
        assert(before.written() =~= before.written() + spelled(none));
    } else {
        let between = choose|between: MockDriver|
            driver::reached_in(before, between, (n - 1) as nat) && #[trigger] driver::stepped(
                between,
                after,
            );
        lemma_reached_in(before, between, (n - 1) as nat, codes);
        let log = between.log();
        let end = log.len() as int;
        let exchange = after.log().last();
        memory::answers_from_memory_keep_it(m, log, at, codes, exchange.sent);
        memory::lemma_held_pushed(m, log, at, end, exchange);
        recall::lemma_records_pushed(m, log, at, end, exchange);
        let some = recall::records(m, log, at, end);
        let last = memory::recorded(between.memory(), exchange.sent);
        assert(recall::records(m, after.log(), at, end + 1) == some + last);
        assert(after.written() =~= before.written() + spelled(some + last));
        assert forall|i: int| 0 <= i < (some + last).len() implies driver::names_itself(
            (#[trigger] (some + last)[i]).0,
        ) by {
            if i < some.len() {
                assert(driver::names_itself(some[i].0));
            } else {
                assert(driver::names_itself(last[i - some.len()].0));
            }
        }
    }
}

/// The data types that go with a length are codes.
proof fn lemma_types()
    ensures
        driver::key_code("ui8 "@) is Some,
        driver::key_code("ui16"@) is Some,
        driver::key_code("ui32"@) is Some,
        driver::key_code("hex_"@) is Some,
{
    reveal(driver::key_code);
    reveal_strlit("ui8 ");
    reveal_strlit("ui16");
    reveal_strlit("ui32");
    reveal_strlit("hex_");
}

/// Bytes of the sizes of an integer have the type of that integer, and any other
/// bytes are bytes.
pub proof fn a_type_goes_with_its_length(len: nat)
    ensures
        ({
            let code = driver::key_code(type_for(len));
            &&& code == Some(0x75693820u32) <==> len == 1
            &&& code == Some(0x75693136u32) <==> len == 2
            &&& code == Some(0x75693332u32) <==> len == 4
            &&& code == Some(0x6865785fu32) <==> len != 1 && len != 2 && len != 4
        }),
{
    reveal(driver::key_code);
    reveal_strlit("ui8 ");
    reveal_strlit("ui16");
    reveal_strlit("ui32");
    reveal_strlit("hex_");
}

} // verus!
