//! What holds of the typed SMC operations on every Mac.
//!
//! Keys are named by their codes here: `0x43483042` is `CH0B`, `0x43483043`
//! `CH0C`, `0x43485445` `CHTE`, `0x62664630` `bfF0`, `0x62664430` `bfD0`,
//! `0x62664530` `bfE0`, `0x42554943` `BUIC`, `0x41432d57` `AC-W`, `0x41434c43`
//! `ACLC`, `0x43483049` `CH0I`, `0x4348304a` `CH0J` and `0x43484945` `CHIE`.

use crate::proto::ChargeControlMode;
use crate::smc::driver::{self, Exchange, KeyInfo, Packet};
use crate::smc::error::Fault;
use crate::smc::memory;
use crate::smc::run::{self, Probe};
use crate::smc::MagsafeLed;
use vstd::prelude::*;

verus! {

// ---------------------------------------------------------------------------
// The mode
// ---------------------------------------------------------------------------

/// The firmware limit wins: a Mac with all three of its keys is in firmware
/// mode, whatever else it has. A Mac without one of them is in legacy mode if
/// and only if it has both halves of the one legacy gate, or the other one. Any
/// other Mac has no charge control.
pub proof fn the_firmware_limit_wins(present: Map<u32, KeyInfo>)
    ensures
        ({
            let firmware = present.contains_key(0x62664630) && present.contains_key(0x62664430)
                && present.contains_key(0x62664530);
            let pair = present.contains_key(0x43483042) && present.contains_key(0x43483043);
            let single = present.contains_key(0x43485445);
            let mode = run::mode_of(present);
            &&& firmware ==> mode == ChargeControlMode::Firmware
            &&& !firmware && (pair || single) ==> mode == ChargeControlMode::Legacy
            &&& !firmware && !pair && !single ==> mode == ChargeControlMode::Unsupported
        }),
{
    run::lemma_known_codes();
    memory::lemma_known_keys();
}

/// A key more never takes charge control away: a Mac that has it keeps it, and
/// one in firmware mode stays in firmware mode.
pub proof fn more_keys_never_cost_charge_control(
    present: Map<u32, KeyInfo>,
    code: u32,
    info: KeyInfo,
)
    ensures
        ({
            let before = run::mode_of(present);
            let after = run::mode_of(present.insert(code, info));
            &&& before != ChargeControlMode::Unsupported ==> after
                != ChargeControlMode::Unsupported
            &&& before == ChargeControlMode::Firmware ==> after == ChargeControlMode::Firmware
        }),
{
    run::lemma_known_codes();
    memory::lemma_known_keys();
}

/// An operation of one kind of charge control is refused in every other mode,
/// and then nothing is sent.
pub proof fn charge_control_needs_its_mode(
    p: Probe,
    allow: bool,
    lower: u8,
    upper: u8,
    log: Seq<Exchange>,
    at: int,
)
    ensures
        p.mode != ChargeControlMode::Legacy ==> {
            let read = run::allowed_run(p, log, at);
            let set = run::set_gate_run(p, allow, log, at);
            &&& read.sent.len() == 0 && set.sent.len() == 0
            &&& read.value matches Err(Fault::WrongMode { mode, .. }) && mode == p.mode
            &&& set.value matches Err(Fault::WrongMode { mode, .. }) && mode == p.mode
        },
        p.mode != ChargeControlMode::Firmware ==> {
            let read = run::firmware_limit_run(p, log, at);
            let set = run::set_firmware_limit_run(p, lower, upper, log, at);
            let clear = run::clear_firmware_limit_run(p, log, at);
            &&& read.sent.len() == 0 && set.sent.len() == 0 && clear.sent.len() == 0
            &&& read.value matches Err(Fault::WrongMode { mode, .. }) && mode == p.mode
            &&& clear.value matches Err(Fault::WrongMode { mode, .. }) && mode == p.mode
            &&& set.value is Err
        },
        p.mode == ChargeControlMode::Unsupported ==> {
            let reset = run::reset_run(p, log, at);
            reset.sent.len() == 0 && reset.value is Err
        },
{
    reveal(run::allowed_run);
    reveal(run::set_gate_run);
    reveal(run::firmware_limit_run);
    reveal(run::set_firmware_limit_run);
    reveal(run::clear_firmware_limit_run);
    reveal(run::reset_run);
}

/// Limits that are no band are refused before anything is sent: the lower
/// percent must be below the upper one, and that no more than 100. A band is
/// sent.
pub proof fn the_firmware_takes_only_bands(
    p: Probe,
    lower: u8,
    upper: u8,
    log: Seq<Exchange>,
    at: int,
)
    ensures
        ({
            let set = run::set_firmware_limit_run(p, lower, upper, log, at);
            &&& !(lower < upper && upper <= 100) ==> set.sent.len() == 0 && (
            set.value matches Err(Fault::InvalidLimit(_)))
            &&& {
                &&& lower < upper <= 100
                &&& p.mode == ChargeControlMode::Firmware
                &&& p.present.contains_key(0x62664430)
                &&& p.present[0x62664430].data_size == 4
            } ==> set.sent.len() > 0 && set.sent[0].key == 0x62664430
        }),
{
    reveal(run::set_firmware_limit_run);
    reveal(run::write_run);
    run::lemma_known_codes();
    memory::lemma_known_keys();
}

// ---------------------------------------------------------------------------
// What a byte means
// ---------------------------------------------------------------------------

/// The adapter is attached if and only if its byte, read as a signed number, is
/// above zero; and the battery percent is the byte as it is.
pub proof fn power_is_read_from_its_bytes(p: Probe, log: Seq<Exchange>, at: int)
    ensures
        ({
            let bytes = run::read_run(p, "AC-W"@, log, at).value;
            let plugged = run::plugged_in_run(p, log, at).value;
            match bytes {
                Ok(b) => if b.len() > 0 {
                    plugged == Ok::<bool, Fault>(1 <= b[0] && b[0] <= 127)
                } else {
                    plugged is Err
                },
                Err(e) => plugged == Err::<bool, Fault>(e),
            }
        }),
        ({
            let bytes = run::read_run(p, "BUIC"@, log, at).value;
            let percent = run::battery_run(p, log, at).value;
            match bytes {
                Ok(b) => if b.len() > 0 {
                    percent == Ok::<u8, Fault>(b[0])
                } else {
                    percent is Err
                },
                Err(e) => percent == Err::<u8, Fault>(e),
            }
        }),
{
    reveal(run::plugged_in_run);
    reveal(run::battery_run);
    reveal(run::read_u8_run);
}

/// A legacy gate of two keys is open if and only if `CH0B` is zero, whatever
/// `CHTE` says; the other one if and only if every byte of `CHTE` is zero.
pub proof fn an_open_gate_is_zero(p: Probe, log: Seq<Exchange>, at: int)
    requires
        p.mode == ChargeControlMode::Legacy,
    ensures
        ({
            let pair = p.present.contains_key(0x43483042) && p.present.contains_key(0x43483043);
            let gate = run::allowed_run(p, log, at).value;
            &&& pair ==> match run::read_run(p, "CH0B"@, log, at).value {
                Ok(b) => if b.len() > 0 {
                    gate == Ok::<bool, Fault>(b[0] == 0)
                } else {
                    gate is Err
                },
                Err(e) => gate == Err::<bool, Fault>(e),
            }
            &&& !pair ==> match run::read_run(p, "CHTE"@, log, at).value {
                Ok(b) => {
                    &&& gate is Ok
                    &&& gate->Ok_0 <==> forall|i: int| 0 <= i < b.len() ==> b[i] == 0
                },
                Err(e) => gate == Err::<bool, Fault>(e),
            }
        }),
{
    reveal(run::allowed_run);
    reveal(run::read_u8_run);
    run::lemma_known_codes();
    memory::lemma_known_keys();
}

/// Setting the legacy gate writes 0 to open it and 2 to close it, to `CH0B` and
/// then to `CH0C`, on a Mac that has both; on any other Mac it writes four
/// bytes to `CHTE`, of which the first is 0 to open it and 1 to close it, and
/// the others are 0.
pub proof fn the_gate_is_written_key_by_key(p: Probe, allow: bool, log: Seq<Exchange>, at: int)
    requires
        p.mode == ChargeControlMode::Legacy,
    ensures
        ({
            let pair = p.present.contains_key(0x43483042) && p.present.contains_key(0x43483043);
            let set = run::set_gate_run(p, allow, log, at);
            let byte = if allow {
                0u8
            } else {
                2u8
            };
            let first = run::write_run(p, "CH0B"@, seq![byte], log, at);
            let second = run::write_run(p, "CH0C"@, seq![byte], log, run::past(at, first));
            let four = if allow {
                seq![0u8, 0u8, 0u8, 0u8]
            } else {
                seq![1u8, 0u8, 0u8, 0u8]
            };
            let single = run::write_run(p, "CHTE"@, four, log, at);
            &&& pair && first.value is Err ==> set.sent == first.sent && set.value == first.value
            &&& pair && first.value is Ok ==> set.sent == first.sent + second.sent && set.value
                == second.value
            &&& !pair ==> set.sent == single.sent && set.value == single.value
        }),
{
    reveal(run::set_gate_run);
    run::lemma_known_codes();
    memory::lemma_known_keys();
    let byte = if allow {
        0u8
    } else {
        2u8
    };
    let first = run::write_run(p, "CH0B"@, seq![byte], log, at);
    let second = run::write_run(p, "CH0C"@, seq![byte], log, run::past(at, first));
    assert(first.sent + second.sent =~= run::joined(first.sent, second.sent));
    assert(run::little_endian(0) =~= seq![0u8, 0u8, 0u8, 0u8]);
    assert(run::little_endian(1) =~= seq![1u8, 0u8, 0u8, 0u8]);
}

/// The limit that the firmware holds is active if and only if `bfF0` is 2. Its
/// percents are the numbers in `bfD0`, the upper one, and `bfE0`, the lower one,
/// least significant byte first; what is above 255 counts as 255.
pub proof fn the_firmware_limit_is_read_from_its_keys(p: Probe, log: Seq<Exchange>, at: int)
    requires
        p.mode == ChargeControlMode::Firmware,
    ensures
        ({
            let active = run::read_run(p, "bfF0"@, log, at);
            let at2 = run::past(at, active);
            let upper = run::read_run(p, "bfD0"@, log, at2);
            let at3 = run::past(at2, upper);
            let lower = run::read_run(p, "bfE0"@, log, at3);
            let limit = run::firmware_limit_run(p, log, at).value;
            let (a, u, l) = (active.value->Ok_0, upper.value->Ok_0, lower.value->Ok_0);
            active.value is Ok && a.len() > 0 && upper.value is Ok && u.len() >= 4
                && lower.value is Ok && l.len() >= 4 ==> limit is Ok && {
                let limit = limit->Ok_0;
                let high = u[0] + 0x100 * u[1] + 0x1_0000 * u[2] + 0x100_0000 * u[3];
                let low = l[0] + 0x100 * l[1] + 0x1_0000 * l[2] + 0x100_0000 * l[3];
                &&& limit.active <==> a[0] == 2
                &&& high <= 255 ==> limit.upper == high
                &&& high > 255 ==> limit.upper == 255
                &&& low <= 255 ==> limit.lower == low
                &&& low > 255 ==> limit.lower == 255
            }
        }),
        run::firmware_limit_run(p, log, at).value is Ok ==> run::read_run(
            p,
            "bfF0"@,
            log,
            at,
        ).value is Ok,
{
    reveal(run::firmware_limit_run);
    reveal(run::read_u8_run);
    reveal(run::read_u32_le_run);
}

/// Setting a band writes the upper percent to `bfD0`, then the lower one to
/// `bfE0`, and activates it last, with a 2 in `bfF0`. A write that fails ends
/// it.
pub proof fn a_band_is_activated_last(
    p: Probe,
    lower: u8,
    upper: u8,
    log: Seq<Exchange>,
    at: int,
)
    requires
        p.mode == ChargeControlMode::Firmware,
        lower < upper <= 100,
    ensures
        ({
            let set = run::set_firmware_limit_run(p, lower, upper, log, at);
            let first = run::write_run(p, "bfD0"@, seq![upper, 0u8, 0u8, 0u8], log, at);
            let at2 = run::past(at, first);
            let second = run::write_run(p, "bfE0"@, seq![lower, 0u8, 0u8, 0u8], log, at2);
            let third = run::write_run(p, "bfF0"@, seq![2u8], log, run::past(at2, second));
            &&& first.value is Err ==> set.sent == first.sent && set.value == first.value
            &&& first.value is Ok && second.value is Err ==> set.sent == first.sent + second.sent
                && set.value == second.value
            &&& first.value is Ok && second.value is Ok ==> set.sent == first.sent + second.sent
                + third.sent && set.value == third.value
        }),
{
    reveal(run::set_firmware_limit_run);
    let first = run::write_run(p, "bfD0"@, seq![upper, 0u8, 0u8, 0u8], log, at);
    let at2 = run::past(at, first);
    let second = run::write_run(p, "bfE0"@, seq![lower, 0u8, 0u8, 0u8], log, at2);
    let third = run::write_run(p, "bfF0"@, seq![2u8], log, run::past(at2, second));
    assert(run::little_endian(upper) =~= seq![upper, 0u8, 0u8, 0u8]);
    assert(run::little_endian(lower) =~= seq![lower, 0u8, 0u8, 0u8]);
    assert(run::joined(second.sent, third.sent) =~= second.sent + third.sent);
    assert(run::joined(first.sent, second.sent) =~= first.sent + second.sent);
    assert(first.sent + (second.sent + third.sent) =~= first.sent + second.sent + third.sent);
    assert(run::joined(first.sent, second.sent + third.sent) =~= first.sent + second.sent
        + third.sent);
}

/// Clearing the limit is one write of 0 to `bfF0`: the percents are not
/// touched.
pub proof fn clearing_only_deactivates(p: Probe, log: Seq<Exchange>, at: int)
    requires
        p.mode == ChargeControlMode::Firmware,
    ensures
        run::clear_firmware_limit_run(p, log, at) == run::write_run(
            p,
            "bfF0"@,
            seq![0u8],
            log,
            at,
        ),
{
    reveal(run::clear_firmware_limit_run);
}

/// A reset opens the legacy gate, or clears the firmware limit: it does what the
/// operation of the mode does.
pub proof fn a_reset_frees_the_machine(p: Probe, log: Seq<Exchange>, at: int)
    ensures
        p.mode == ChargeControlMode::Legacy ==> run::reset_run(p, log, at) == run::set_gate_run(
            p,
            true,
            log,
            at,
        ),
        p.mode == ChargeControlMode::Firmware ==> run::reset_run(p, log, at)
            == run::clear_firmware_limit_run(p, log, at),
{
    reveal(run::reset_run);
}

/// The adapter is gated by `CH0I`, else by `CH0J`, else by `CHIE`. Zero enables
/// it. To disable it, `CHIE` takes an 8 and the others a 1. It is enabled if
/// and only if its byte is zero.
pub proof fn the_adapter_has_its_bytes(p: Probe, on: bool, log: Seq<Exchange>, at: int)
    ensures
        ({
            let (i, j, e) = (
                p.present.contains_key(0x43483049),
                p.present.contains_key(0x4348304a),
                p.present.contains_key(0x43484945),
            );
            let set = run::set_adapter_run(p, on, log, at);
            let off = if on {
                0u8
            } else {
                1u8
            };
            let off_chie = if on {
                0u8
            } else {
                8u8
            };
            &&& i ==> set == run::write_run(p, "CH0I"@, seq![off], log, at)
            &&& !i && j ==> set == run::write_run(p, "CH0J"@, seq![off], log, at)
            &&& !i && !j && e ==> set == run::write_run(p, "CHIE"@, seq![off_chie], log, at)
            &&& !i && !j && !e ==> set.sent.len() == 0 && set.value is Err
        }),
        ({
            let key = if p.present.contains_key(0x43483049) {
                "CH0I"@
            } else if p.present.contains_key(0x4348304a) {
                "CH0J"@
            } else {
                "CHIE"@
            };
            let there = p.present.contains_key(0x43483049) || p.present.contains_key(0x4348304a)
                || p.present.contains_key(0x43484945);
            let read = run::adapter_run(p, log, at).value;
            &&& there ==> match run::read_run(p, key, log, at).value {
                Ok(b) => if b.len() > 0 {
                    read == Ok::<bool, Fault>(b[0] == 0)
                } else {
                    read is Err
                },
                Err(fault) => read == Err::<bool, Fault>(fault),
            }
            &&& !there ==> read is Err
        }),
{
    reveal(run::set_adapter_run);
    reveal(run::adapter_run);
    reveal(run::read_u8_run);
    run::lemma_known_codes();
    memory::lemma_known_keys();
    reveal_strlit("CH0I");
    reveal_strlit("CH0J");
    reveal_strlit("CHIE");
    assert("CH0I"@[2] != "CHIE"@[2]);
    assert("CH0J"@[2] != "CHIE"@[2]);
}

/// The MagSafe LED bytes: 0 hands the LED to the system, 1 turns it off, 3 makes
/// it green and 4 orange. A 2 reads as green too, and every other byte as the
/// system's.
pub proof fn the_led_has_its_bytes(byte: u8, led: MagsafeLed)
    ensures
        run::led_byte(led) == 0 <==> led == MagsafeLed::System,
        run::led_byte(led) == 1 <==> led == MagsafeLed::Off,
        run::led_byte(led) == 3 <==> led == MagsafeLed::Green,
        run::led_byte(led) == 4 <==> led == MagsafeLed::Orange,
        run::led_of(byte) == MagsafeLed::Off <==> byte == 1,
        run::led_of(byte) == MagsafeLed::Green <==> byte == 2 || byte == 3,
        run::led_of(byte) == MagsafeLed::Orange <==> byte == 4,
        run::led_of(byte) == MagsafeLed::System <==> byte == 0 || byte > 4,
{
}

/// The MagSafe LED is written to `ACLC` and read from it, one byte.
pub proof fn the_led_has_its_key(p: Probe, led: MagsafeLed, log: Seq<Exchange>, at: int)
    ensures
        p.present.contains_key(0x41434c43) ==> {
            let read = run::led_run(p, log, at).value;
            &&& run::set_led_run(p, led, log, at) == run::write_run(
                p,
                "ACLC"@,
                seq![run::led_byte(led)],
                log,
                at,
            )
            &&& match run::read_run(p, "ACLC"@, log, at).value {
                Ok(b) => if b.len() > 0 {
                    read == Ok::<MagsafeLed, Fault>(run::led_of(b[0]))
                } else {
                    read is Err
                },
                Err(fault) => read == Err::<MagsafeLed, Fault>(fault),
            }
        },
        !p.present.contains_key(0x41434c43) ==> {
            &&& run::led_run(p, log, at).value is Err
            &&& run::set_led_run(p, led, log, at).value is Err
            &&& run::set_led_run(p, led, log, at).sent.len() == 0
            &&& run::led_run(p, log, at).sent.len() == 0
        },
{
    reveal(run::led_run);
    reveal(run::set_led_run);
    reveal(run::read_u8_run);
    run::lemma_known_codes();
    memory::lemma_known_keys();
}

// ---------------------------------------------------------------------------
// Raw reads and writes
// ---------------------------------------------------------------------------

/// A write goes out if and only if it has as many bytes as its key, and no more
/// than 32. One that does carries the key, the write command and the bytes; it
/// is the last packet of the operation, and its reply decides.
pub proof fn a_write_has_the_size_of_its_key(
    p: Probe,
    key: Seq<char>,
    bytes: Seq<u8>,
    log: Seq<Exchange>,
    at: int,
)
    ensures
        ({
            let info = run::key_info_run(p, key, log, at);
            let write = run::write_run(p, key, bytes, log, at);
            match info.value {
                Err(e) => write.value == Err::<(), Fault>(e) && write.sent == info.sent,
                Ok(i) => if i.data_size == bytes.len() && bytes.len() <= 32 {
                    let last = write.sent.last();
                    &&& write.sent.len() == info.sent.len() + 1
                    &&& Some(last.key) == driver::key_code(key)
                    &&& last.data8 == 6
                    &&& last.key_info.data_size == bytes.len()
                    &&& forall|n: int| 0 <= n < bytes.len() ==> last.bytes[n] == bytes[n]
                    &&& match log[run::past(at, info)].reply {
                        Ok(_) => write.value is Ok,
                        Err(e) => write.value == Err::<(), Fault>(e),
                    }
                } else {
                    &&& write.sent == info.sent
                    &&& write.value matches Err(Fault::UnexpectedSize { .. })
                },
            }
        }),
{
    reveal(run::write_run);
}

/// A read asks for the bytes of its key, and returns as many as the key has, up
/// to 32, from the start of the reply.
pub proof fn a_read_has_the_size_of_its_key(
    p: Probe,
    key: Seq<char>,
    log: Seq<Exchange>,
    at: int,
)
    ensures
        ({
            let info = run::key_info_run(p, key, log, at);
            let read = run::read_run(p, key, log, at);
            match info.value {
                Err(e) => read.value == Err::<Seq<u8>, Fault>(e) && read.sent == info.sent,
                Ok(i) => {
                    let last = read.sent.last();
                    &&& read.sent.len() == info.sent.len() + 1
                    &&& Some(last.key) == driver::key_code(key)
                    &&& last.data8 == 5
                    &&& last.key_info.data_size == i.data_size
                    &&& match log[run::past(at, info)].reply {
                        Err(e) => read.value == Err::<Seq<u8>, Fault>(e),
                        Ok(output) => output.bytes.len() == 32 ==> {
                            let bytes = read.value->Ok_0;
                            &&& read.value is Ok
                            &&& i.data_size <= 32 ==> bytes.len() == i.data_size
                            &&& i.data_size > 32 ==> bytes.len() == 32
                            &&& forall|n: int| 0 <= n < bytes.len() ==> bytes[n] == output.bytes[n]
                        },
                    }
                },
            }
        }),
{
    reveal(run::read_run);
    let info = run::key_info_run(p, key, log, at);
    if info.value is Ok {
        assert(driver::key_code(key) is Some);
    }
}

/// The probe is asked first: a key that it found costs no packet. Any other key
/// is asked for with one, and one of size zero is no key.
pub proof fn a_known_key_costs_no_packet(p: Probe, key: Seq<char>, log: Seq<Exchange>, at: int)
    ensures
        ({
            let info = run::key_info_run(p, key, log, at);
            match driver::key_code(key) {
                None => info.sent.len() == 0 && info.value == Err::<KeyInfo, Fault>(
                    Fault::InvalidKey(key),
                ),
                Some(code) => if p.present.contains_key(code) {
                    info.sent.len() == 0 && info.value == Ok::<KeyInfo, Fault>(p.present[code])
                } else {
                    &&& info.sent.len() == 1
                    &&& info.sent[0].key == code
                    &&& info.sent[0].data8 == 9
                    &&& match log[at].reply {
                        Err(e) => info.value == Err::<KeyInfo, Fault>(e),
                        Ok(output) => if output.key_info.data_size == 0 {
                            info.value == Err::<KeyInfo, Fault>(Fault::KeyNotFound(key))
                        } else {
                            info.value == Ok::<KeyInfo, Fault>(output.key_info)
                        },
                    }
                },
            }
        }),
{
}

/// The probe asks for the size of each known key once, and writes nothing.
pub proof fn the_probe_only_asks(i: int)
    requires
        0 <= i < 12,
    ensures
        run::probe_packets(12).len() == 12,
        run::probe_packets(12)[i].data8 == 9,
        run::probe_packets(12)[i].key == run::known_code(i),
        forall|j: int|
            0 <= j < 12 && i != j ==> run::probe_packets(12)[i].key
                != (#[trigger] run::probe_packets(12)[j]).key,
{
    run::lemma_known_codes();
}

// ---------------------------------------------------------------------------
// Replies
// ---------------------------------------------------------------------------

/// A call succeeds if and only if the system and the SMC both say so. A call
/// that needs root is told apart from every other failure of the system, which
/// comes first; and a missing key from every other refusal of the SMC.
pub proof fn a_call_succeeds_where_nothing_refuses(rc: i32, requested: u32, output: Packet)
    ensures
        ({
            let result = driver::call_result(rc, requested, output);
            if rc == -536870207 {
                result == Err::<Packet, Fault>(Fault::NotPrivileged)
            } else if rc != 0 {
                result == Err::<Packet, Fault>(Fault::Io(rc))
            } else {
                match result {
                    Ok(reply) => output.result == 0 && reply == output,
                    Err(Fault::KeyNotFound(_)) => output.result == 0x84,
                    Err(Fault::Smc { result: code, .. }) => {
                        &&& code == output.result
                        &&& code != 0
                        &&& code != 0x84
                    },
                    _ => false,
                }
            }
        }),
{
}

/// An error is about the key of the reply, and about the one that was asked for
/// where the reply leaves it out.
pub proof fn an_error_is_about_a_key(requested: u32, output: Packet)
    requires
        output.result != 0,
    ensures
        ({
            let named = driver::key_text(
                if output.key == 0 {
                    requested
                } else {
                    output.key
                },
            );
            match driver::verdict(requested, output) {
                Err(Fault::KeyNotFound(key)) => key == named,
                Err(Fault::Smc { key, .. }) => key == named,
                _ => false,
            }
        }),
{
}

/// What the replies to the probe say of a key that it asked for.
proof fn lemma_probed(log: Seq<Exchange>, at: int, n: int, i: int)
    requires
        0 <= n <= 12,
        0 <= i < 12,
    ensures
        ({
            let present = run::probed(log, at, n);
            let reply = log[at + i].reply;
            &&& present.contains_key(run::known_code(i)) <==> i < n && reply is Ok
                && reply->Ok_0.key_info.data_size > 0
            &&& present.contains_key(run::known_code(i)) ==> present[run::known_code(i)]
                == reply->Ok_0.key_info
        }),
    decreases n,
{
    run::lemma_known_codes();
    if n > 0 {
        lemma_probed(log, at, n - 1, i);
        assert(log[at + (n - 1)] == log[at + n - 1]);
        assert(i != n - 1 ==> run::known_code(i) != run::known_code(n - 1));
    }
}

/// A Mac has a key if and only if the SMC answered the probe for it with a size
/// above zero, and the Mac has it with what the SMC said.
pub proof fn a_key_of_no_size_is_absent(log: Seq<Exchange>, at: int, i: int)
    requires
        0 <= i < 12,
    ensures
        ({
            let present = run::probed(log, at, 12);
            let code = run::probe_packets(12)[i].key;
            &&& present.contains_key(code) <==> match log[at + i].reply {
                Ok(output) => output.key_info.data_size > 0,
                Err(_) => false,
            }
            &&& present.contains_key(code) ==> present[code] == log[at + i].reply->Ok_0.key_info
        }),
{
    lemma_probed(log, at, 12, i);
}

/// A packet says what it is for, and nothing else: the key, the command, the size
/// and the bytes, with zeros behind them.
pub proof fn a_packet_says_only_what_it_is_for(
    key: u32,
    command: u8,
    size: u32,
    bytes: Seq<u8>,
    i: int,
)
    requires
        bytes.len() <= 32,
        0 <= i < 32,
    ensures
        ({
            let packet = driver::packet(key, command, size, bytes);
            &&& packet.key == key && packet.data8 == command && packet.key_info.data_size == size
            &&& packet.bytes.len() == 32
            &&& i < bytes.len() ==> packet.bytes[i] == bytes[i]
            &&& i >= bytes.len() ==> packet.bytes[i] == 0
            &&& packet.result == 0 && packet.status == 0 && packet.data32 == 0
            &&& packet.key_info.data_type == 0 && packet.key_info.data_attributes == 0
        }),
{
}

/// A question of the probe carries no size and no bytes.
pub proof fn a_question_is_empty(i: int, j: int)
    requires
        0 <= i < 12,
        0 <= j < 32,
    ensures
        run::probe_packets(12)[i].key_info.data_size == 0,
        run::probe_packets(12)[i].bytes[j] == 0,
{
}

} // verus!
