//! SMC (System Management Controller) access for battery charge control.
//!
//! [`Smc`] wraps a [`Driver`] and exposes typed helpers for every key the
//! daemon needs. Construction probes [`ALL_KEYS`] once, so [`Smc::has_key`]
//! and [`Smc::charge_control_mode`] are cheap afterwards.
//!
//! Apple Silicon only. Reads are unprivileged; writes need root.

pub mod driver;
pub mod error;
pub mod laws;
pub mod memory;
pub mod mock;
pub mod readback;
pub mod recall;
pub mod run;
pub mod smcctl;

use crate::proto::ChargeControlMode;
use crate::smc::driver::{
    command, fourcc, inquiry, Driver, Exchange, KeyInfo, SmcKeyData, CMD_READ_BYTES,
    CMD_READ_KEY_INFO, CMD_WRITE_BYTES, MAX_DATA_LEN,
};
use crate::smc::error::{Fault, SmcError};
use crate::smc::run::{Probe, Run};
use crate::text;
use std::collections::BTreeMap;
use vstd::prelude::*;

verus! {

broadcast use {run::group_runs, driver::group_reached};

/// Legacy charge gate, read and written. `0x00` allowed, `0x02` inhibited.
pub const KEY_CH0B: &'static str = "CH0B";

/// Legacy charge gate, written together with [`KEY_CH0B`].
pub const KEY_CH0C: &'static str = "CH0C";

/// Legacy charge gate on Tahoe firmware, 4 bytes little-endian.
pub const KEY_CHTE: &'static str = "CHTE";

/// Firmware limit activation. `0x02` active, `0x00` off.
pub const KEY_BFF0: &'static str = "bfF0";

/// Firmware upper percent, `u32` little-endian.
pub const KEY_BFD0: &'static str = "bfD0";

/// Firmware lower percent, `u32` little-endian.
pub const KEY_BFE0: &'static str = "bfE0";

/// Battery charge percent.
pub const KEY_BUIC: &'static str = "BUIC";

/// Power adapter present when the byte read as `i8` is above zero.
pub const KEY_ACW: &'static str = "AC-W";

/// MagSafe LED colour.
pub const KEY_ACLC: &'static str = "ACLC";

/// Adapter gate. `0x00` enabled, `0x01` disabled.
pub const KEY_CH0I: &'static str = "CH0I";

/// Adapter gate, second variant. `0x00` enabled, `0x01` disabled.
pub const KEY_CH0J: &'static str = "CH0J";

/// Adapter gate on Tahoe firmware. `0x00` enabled, `0x08` disabled.
pub const KEY_CHIE: &'static str = "CHIE";

/// Every key the capability probe looks for.
pub const ALL_KEYS: [&'static str; 12] = [
    KEY_CH0B,
    KEY_CH0C,
    KEY_CHTE,
    KEY_BFF0,
    KEY_BFD0,
    KEY_BFE0,
    KEY_BUIC,
    KEY_ACW,
    KEY_ACLC,
    KEY_CH0I,
    KEY_CH0J,
    KEY_CHIE,
];

/// Legacy gate value that allows charging.
pub const CHARGE_ALLOW: u8 = 0x00;

/// Legacy gate value that inhibits charging.
pub const CHARGE_INHIBIT: u8 = 0x02;

/// `bfF0` value that activates the firmware limit.
pub const FIRMWARE_ACTIVE: u8 = 0x02;

/// `bfF0` value that clears the firmware limit.
pub const FIRMWARE_OFF: u8 = 0x00;

/// Adapter gate value that enables the adapter.
pub const ADAPTER_ON: u8 = 0x00;

/// Adapter gate value that disables the adapter on `CH0I`/`CH0J`.
pub const ADAPTER_OFF: u8 = 0x01;

/// Adapter gate value that disables the adapter on `CHIE`.
pub const ADAPTER_OFF_CHIE: u8 = 0x08;

/// The state of the firmware charge limit.
#[derive(Debug, Clone, Copy, PartialEq, Eq, Structural)]
pub struct FirmwareLimit {
    pub active: bool,
    pub lower: u8,
    pub upper: u8,
}

/// MagSafe LED colour, as stored in `ACLC`.
#[derive(Debug, Clone, Copy, PartialEq, Eq, Structural)]
pub enum MagsafeLed {
    /// The system drives the LED.
    System,
    Off,
    Green,
    Orange,
}

impl MagsafeLed {
    /// Decodes a raw `ACLC` byte. `0x02` also reads as [`MagsafeLed::Green`].
    pub fn from_byte(byte: u8) -> (r: Self)
        ensures
            r == run::led_of(byte),
    {
        match byte {
            0x01 => MagsafeLed::Off,
            0x02 => MagsafeLed::Green,
            0x03 => MagsafeLed::Green,
            0x04 => MagsafeLed::Orange,
            _ => MagsafeLed::System,
        }
    }

    /// The raw `ACLC` byte.
    pub fn to_byte(self) -> (r: u8)
        ensures
            r == run::led_byte(self),
    {
        match self {
            MagsafeLed::System => 0x00,
            MagsafeLed::Off => 0x01,
            MagsafeLed::Green => 0x03,
            MagsafeLed::Orange => 0x04,
        }
    }
}

/// Every colour reads back as itself.
pub proof fn led_colours_read_back(led: MagsafeLed)
    ensures
        run::led_of(run::led_byte(led)) == led,
{
}

/// Which legacy gate this Mac uses.
#[derive(Debug, Clone, Copy, PartialEq, Eq, Structural)]
pub enum LegacyGate {
    /// `CH0B` and `CH0C`, one byte each.
    Ch0,
    /// `CHTE`, four bytes.
    Chte,
}

/// Typed SMC access over a [`Driver`].
#[derive(Debug)]
pub struct Smc<D: Driver> {
    driver: D,
    present: BTreeMap<u32, KeyInfo>,
    mode: ChargeControlMode,
}

impl<D: Driver> View for Smc<D> {
    type V = Probe;

    closed spec fn view(&self) -> Probe {
        Probe { present: self.present@, mode: self.mode }
    }
}

impl<D: Driver> Smc<D> {
    /// The driver under this SMC.
    pub closed spec fn device(&self) -> D {
        self.driver
    }

    /// Every round trip of the driver so far.
    pub open spec fn log(&self) -> Seq<Exchange> {
        self.device().log()
    }

    /// Wraps `driver` and probes [`ALL_KEYS`] once.
    pub fn new(driver: D) -> (r: Self)
        ensures
            driver::reached(driver, r.device()),
            run::followed(driver.log(), r.log(), run::probe_packets(12)),
            r@.present == run::probed(r.log(), driver.log().len() as int, 12),
            r@.mode == run::mode_of(r@.present),
    {
        let ghost start = driver.log();
        let ghost device = driver;
        let mut smc = Smc { driver, present: BTreeMap::new(), mode: ChargeControlMode::Unsupported };
        let mut i: usize = 0;
        while i < 12
            invariant
                i <= 12,
                driver::reached(device, smc.device()),
                run::followed(start, smc.log(), run::probe_packets(i as int)),
                smc@.present == run::probed(smc.log(), start.len() as int, i as int),
            decreases 12 - i,
        {
            let ghost before = smc.log();
            let key: &'static str = ALL_KEYS[i];
            proof {
                run::lemma_known_codes();
            }
            let info = smc.query_key_info(key);
            proof {
                run::lemma_probed_kept(before, smc.log(), start.len() as int, i as int);
                let asked = run::query_run(key@, smc.log(), before.len() as int);
                assert(run::probe_packets(i as int) + asked.sent =~= run::probe_packets(i + 1));
            }
            if let Ok(info) = info {
                if info.data_size > 0 {
                    if let Ok(code) = fourcc(key) {
                        smc.present.insert(code, info);
                    }
                }
            }
            i = i + 1;
        }
        smc.mode = smc.compute_mode();
        smc
    }

    /// Applies the mode precedence to the probe result.
    fn compute_mode(&self) -> (r: ChargeControlMode)
        ensures
            r == run::mode_of(self@.present),
    {
        if self.has_key(KEY_BFF0) && self.has_key(KEY_BFD0) && self.has_key(KEY_BFE0) {
            ChargeControlMode::Firmware
        } else if (self.has_key(KEY_CH0B) && self.has_key(KEY_CH0C)) || self.has_key(KEY_CHTE) {
            ChargeControlMode::Legacy
        } else {
            ChargeControlMode::Unsupported
        }
    }

    /// The driver under this SMC.
    pub fn driver(&self) -> (r: &D)
        ensures
            *r == self.device(),
    {
        &self.driver
    }

    /// The driver under this SMC, to be changed behind its back.
    pub fn driver_mut(&mut self) -> (r: &mut D)
        ensures
            *r == old(self).device(),
            final(self).device() == *final(r),
            final(self)@ == old(self)@,
    {
        &mut self.driver
    }

    /// One round trip.
    fn exchange(&mut self, input: SmcKeyData) -> (r: Result<SmcKeyData, SmcError>)
        ensures
            final(self)@ == old(self)@,
            driver::reached(old(self).device(), final(self).device()),
            run::performed(
                old(self).log(),
                final(self).log(),
                run::exchange_run(input@, final(self).log(), old(self).log().len() as int),
                driver::reply_of(r),
            ),
    {
        let r = self.driver.call(input);
        proof {
            driver::lemma_reached_once(old(self).device(), self.device());
            run::lemma_exchanged(
                old(self).log(),
                self.log(),
                (Exchange { sent: input@, reply: driver::reply_of(r) }),
            );
        }
        r
    }

    /// Asks the SMC for the size and type of `key`, bypassing the cache.
    fn query_key_info(&mut self, key: &str) -> (r: Result<KeyInfo, SmcError>)
        ensures
            final(self)@ == old(self)@,
            driver::reached(old(self).device(), final(self).device()),
            run::performed(
                old(self).log(),
                final(self).log(),
                run::query_run(key@, final(self).log(), old(self).log().len() as int),
                error::fault_of(r),
            ),
    {
        let code = match fourcc(key) {
            Ok(code) => code,
            Err(e) => return Err(e),
        };
        let input = inquiry(code, CMD_READ_KEY_INFO, 0);
        match self.exchange(input) {
            Ok(output) => Ok(output.key_info),
            Err(e) => Err(e),
        }
    }

    /// Returns true when the probe found `key` on this Mac.
    pub fn has_key(&self, key: &str) -> (r: bool)
        ensures
            r == run::found(self@, key@),
    {
        match fourcc(key) {
            Ok(code) => self.present.contains_key(&code),
            Err(_) => false,
        }
    }

    /// Returns the size and type of `key`, from the probe cache if possible.
    pub fn key_info(&mut self, key: &str) -> (r: Result<KeyInfo, SmcError>)
        ensures
            final(self)@ == old(self)@,
            driver::reached(old(self).device(), final(self).device()),
            run::performed(
                old(self).log(),
                final(self).log(),
                run::key_info_run(old(self)@, key@, final(self).log(), old(self).log().len() as int),
                error::fault_of(r),
            ),
    {
        if let Ok(code) = fourcc(key) {
            if let Some(info) = self.present.get(&code) {
                return Ok(*info);
            }
        }
        let info = match self.query_key_info(key) {
            Ok(info) => info,
            Err(e) => return Err(e),
        };
        if info.data_size == 0 {
            return Err(SmcError::KeyNotFound(key.to_string()));
        }
        Ok(info)
    }

    /// Reads the raw bytes of `key`.
    pub fn read(&mut self, key: &str) -> (r: Result<Vec<u8>, SmcError>)
        ensures
            final(self)@ == old(self)@,
            driver::reached(old(self).device(), final(self).device()),
            run::performed(
                old(self).log(),
                final(self).log(),
                run::read_run(old(self)@, key@, final(self).log(), old(self).log().len() as int),
                bytes_of(r),
            ),
    {
        proof {
            reveal(run::read_run);
        }
        let info = match self.key_info(key) {
            Ok(info) => info,
            Err(e) => return Err(e),
        };
        let code = match fourcc(key) {
            Ok(code) => code,
            Err(e) => return Err(e),
        };
        let output = match self.exchange(inquiry(code, CMD_READ_BYTES, info.data_size)) {
            Ok(output) => output,
            Err(e) => return Err(e),
        };
        let len: usize = if (info.data_size as usize) < MAX_DATA_LEN {
            info.data_size as usize
        } else {
            MAX_DATA_LEN
        };
        Ok(leading_bytes(&output.bytes, len))
    }

    /// Writes `bytes` to `key`. Needs root.
    pub fn write(&mut self, key: &str, bytes: &[u8]) -> (r: Result<(), SmcError>)
        ensures
            final(self)@ == old(self)@,
            driver::reached(old(self).device(), final(self).device()),
            run::performed(
                old(self).log(),
                final(self).log(),
                run::write_run(old(self)@, key@, bytes@, final(self).log(), old(self).log().len() as int),
                error::fault_of(r),
            ),
    {
        proof {
            reveal(run::write_run);
        }
        let info = match self.key_info(key) {
            Ok(info) => info,
            Err(e) => return Err(e),
        };
        if info.data_size as usize != bytes.len() || bytes.len() > MAX_DATA_LEN {
            return Err(
                SmcError::UnexpectedSize {
                    key: key.to_string(),
                    expected: info.data_size as usize,
                    got: bytes.len(),
                },
            );
        }
        let code = match fourcc(key) {
            Ok(code) => code,
            Err(e) => return Err(e),
        };
        match self.exchange(command(code, CMD_WRITE_BYTES, info.data_size, bytes)) {
            Ok(_) => Ok(()),
            Err(e) => Err(e),
        }
    }

    /// Writes one byte to `key`.
    fn write_byte(&mut self, key: &str, value: u8) -> (r: Result<(), SmcError>)
        ensures
            final(self)@ == old(self)@,
            driver::reached(old(self).device(), final(self).device()),
            run::performed(
                old(self).log(),
                final(self).log(),
                run::write_run(
                    old(self)@,
                    key@,
                    seq![value],
                    final(self).log(),
                    old(self).log().len() as int,
                ),
                error::fault_of(r),
            ),
    {
        let bytes: [u8; 1] = [value];
        assert(bytes@ =~= seq![value]);
        self.write(key, &bytes)
    }

    /// Writes a number to `key`, four bytes little-endian.
    fn write_number(&mut self, key: &str, value: u8) -> (r: Result<(), SmcError>)
        ensures
            final(self)@ == old(self)@,
            driver::reached(old(self).device(), final(self).device()),
            run::performed(
                old(self).log(),
                final(self).log(),
                run::write_run(
                    old(self)@,
                    key@,
                    run::little_endian(value),
                    final(self).log(),
                    old(self).log().len() as int,
                ),
                error::fault_of(r),
            ),
    {
        let bytes: [u8; 4] = [value, 0, 0, 0];
        assert(bytes@ =~= run::little_endian(value));
        self.write(key, &bytes)
    }

    fn read_u8(&mut self, key: &str) -> (r: Result<u8, SmcError>)
        ensures
            final(self)@ == old(self)@,
            driver::reached(old(self).device(), final(self).device()),
            run::performed(
                old(self).log(),
                final(self).log(),
                run::read_u8_run(old(self)@, key@, final(self).log(), old(self).log().len() as int),
                error::fault_of(r),
            ),
    {
        proof {
            reveal(run::read_u8_run);
        }
        let bytes = match self.read(key) {
            Ok(bytes) => bytes,
            Err(e) => return Err(e),
        };
        if bytes.len() == 0 {
            return Err(SmcError::UnexpectedSize { key: key.to_string(), expected: 1, got: 0 });
        }
        Ok(bytes[0])
    }

    fn read_u32_le(&mut self, key: &str) -> (r: Result<u32, SmcError>)
        ensures
            final(self)@ == old(self)@,
            driver::reached(old(self).device(), final(self).device()),
            run::performed(
                old(self).log(),
                final(self).log(),
                run::read_u32_le_run(old(self)@, key@, final(self).log(), old(self).log().len() as int),
                error::fault_of(r),
            ),
    {
        proof {
            reveal(run::read_u32_le_run);
        }
        let bytes = match self.read(key) {
            Ok(bytes) => bytes,
            Err(e) => return Err(e),
        };
        if bytes.len() < 4 {
            return Err(
                SmcError::UnexpectedSize { key: key.to_string(), expected: 4, got: bytes.len() },
            );
        }
        Ok(
            bytes[0] as u32 + bytes[1] as u32 * 0x100 + bytes[2] as u32 * 0x1_0000 + bytes[3] as u32
                * 0x100_0000,
        )
    }

    // -- charge control ----------------------------------------------------
    /// Returns the charge control mode found by the probe.
    pub fn charge_control_mode(&self) -> (r: ChargeControlMode)
        ensures
            r == self@.mode,
    {
        self.mode
    }

    fn require_mode(&self, want: ChargeControlMode, need: &'static str) -> (r: Result<
        (),
        SmcError,
    >)
        ensures
            error::fault_of(r) == if self@.mode == want {
                Ok(())
            } else {
                Err(Fault::WrongMode { mode: self@.mode, need: need@ })
            },
    {
        if self.mode == want {
            Ok(())
        } else {
            Err(SmcError::WrongMode { mode: self.mode, need })
        }
    }

    fn legacy_gate(&self) -> (r: Result<LegacyGate, SmcError>)
        ensures
            error::fault_of(r) == if self@.mode == ChargeControlMode::Legacy {
                Ok(run::gate_of(self@))
            } else {
                Err(run::not_legacy(self@))
            },
    {
        match self.require_mode(ChargeControlMode::Legacy, "legacy charge control") {
            Ok(_) => {},
            Err(e) => return Err(e),
        }
        if self.has_key(KEY_CH0B) && self.has_key(KEY_CH0C) {
            Ok(LegacyGate::Ch0)
        } else {
            Ok(LegacyGate::Chte)
        }
    }

    /// Returns true when the legacy gate allows charging.
    pub fn is_charging_allowed(&mut self) -> (r: Result<bool, SmcError>)
        ensures
            final(self)@ == old(self)@,
            driver::reached(old(self).device(), final(self).device()),
            run::performed(
                old(self).log(),
                final(self).log(),
                run::allowed_run(old(self)@, final(self).log(), old(self).log().len() as int),
                error::fault_of(r),
            ),
    {
        proof {
            reveal(run::allowed_run);
        }
        match self.legacy_gate() {
            Err(e) => Err(e),
            Ok(LegacyGate::Ch0) => match self.read_u8(KEY_CH0B) {
                Ok(byte) => Ok(byte == CHARGE_ALLOW),
                Err(e) => Err(e),
            },
            Ok(LegacyGate::Chte) => match self.read(KEY_CHTE) {
                Ok(bytes) => Ok(are_zero(&bytes)),
                Err(e) => Err(e),
            },
        }
    }

    fn set_legacy_gate(&mut self, allow: bool) -> (r: Result<(), SmcError>)
        ensures
            final(self)@ == old(self)@,
            driver::reached(old(self).device(), final(self).device()),
            run::performed(
                old(self).log(),
                final(self).log(),
                run::set_gate_run(old(self)@, allow, final(self).log(), old(self).log().len() as int),
                error::fault_of(r),
            ),
    {
        proof {
            reveal(run::set_gate_run);
        }
        match self.legacy_gate() {
            Err(e) => Err(e),
            Ok(LegacyGate::Ch0) => {
                let value: u8 = if allow {
                    CHARGE_ALLOW
                } else {
                    CHARGE_INHIBIT
                };
                match self.write_byte(KEY_CH0B, value) {
                    Ok(_) => self.write_byte(KEY_CH0C, value),
                    Err(e) => Err(e),
                }
            },
            Ok(LegacyGate::Chte) => {
                let value: u8 = if allow {
                    0
                } else {
                    1
                };
                self.write_number(KEY_CHTE, value)
            },
        }
    }

    /// Opens the legacy gate.
    pub fn allow_charging(&mut self) -> (r: Result<(), SmcError>)
        ensures
            final(self)@ == old(self)@,
            driver::reached(old(self).device(), final(self).device()),
            run::performed(
                old(self).log(),
                final(self).log(),
                run::set_gate_run(old(self)@, true, final(self).log(), old(self).log().len() as int),
                error::fault_of(r),
            ),
    {
        self.set_legacy_gate(true)
    }

    /// Closes the legacy gate.
    pub fn inhibit_charging(&mut self) -> (r: Result<(), SmcError>)
        ensures
            final(self)@ == old(self)@,
            driver::reached(old(self).device(), final(self).device()),
            run::performed(
                old(self).log(),
                final(self).log(),
                run::set_gate_run(old(self)@, false, final(self).log(), old(self).log().len() as int),
                error::fault_of(r),
            ),
    {
        self.set_legacy_gate(false)
    }

    /// Reads the firmware limit state.
    pub fn firmware_limit(&mut self) -> (r: Result<FirmwareLimit, SmcError>)
        ensures
            final(self)@ == old(self)@,
            driver::reached(old(self).device(), final(self).device()),
            run::performed(
                old(self).log(),
                final(self).log(),
                run::firmware_limit_run(old(self)@, final(self).log(), old(self).log().len() as int),
                error::fault_of(r),
            ),
    {
        proof {
            reveal(run::firmware_limit_run);
        }
        match self.require_mode(ChargeControlMode::Firmware, "firmware charge control") {
            Ok(_) => {},
            Err(e) => return Err(e),
        }
        let active = match self.read_u8(KEY_BFF0) {
            Ok(byte) => byte == FIRMWARE_ACTIVE,
            Err(e) => return Err(e),
        };
        let upper = match self.read_u32_le(KEY_BFD0) {
            Ok(upper) => upper,
            Err(e) => return Err(e),
        };
        let lower = match self.read_u32_le(KEY_BFE0) {
            Ok(lower) => lower,
            Err(e) => return Err(e),
        };
        Ok(FirmwareLimit { active, lower: cap(lower), upper: cap(upper) })
    }

    /// Sets and activates the firmware limit.
    ///
    /// The firmware needs this write order: `bfD0` (upper), `bfE0` (lower),
    /// then `bfF0`.
    pub fn set_firmware_limit(&mut self, lower: u8, upper: u8) -> (r: Result<(), SmcError>)
        ensures
            final(self)@ == old(self)@,
            driver::reached(old(self).device(), final(self).device()),
            run::performed(
                old(self).log(),
                final(self).log(),
                run::set_firmware_limit_run(old(self)@, lower, upper, final(self).log(), old(self).log().len() as int),
                error::fault_of(r),
            ),
    {
        proof {
            reveal(run::set_firmware_limit_run);
        }
        if lower >= upper || upper > 100 {
            let message = text::text4(
                "need lower < upper <= 100, got lower ",
                text::decimal_text(lower as u64).as_str(),
                ", upper ",
                text::decimal_text(upper as u64).as_str(),
            );
            return Err(SmcError::InvalidLimit(message));
        }
        match self.require_mode(ChargeControlMode::Firmware, "firmware charge control") {
            Ok(_) => {},
            Err(e) => return Err(e),
        }
        match self.write_number(KEY_BFD0, upper) {
            Ok(_) => {},
            Err(e) => return Err(e),
        }
        match self.write_number(KEY_BFE0, lower) {
            Ok(_) => {},
            Err(e) => return Err(e),
        }
        self.write_byte(KEY_BFF0, FIRMWARE_ACTIVE)
    }

    /// Deactivates the firmware limit.
    pub fn clear_firmware_limit(&mut self) -> (r: Result<(), SmcError>)
        ensures
            final(self)@ == old(self)@,
            driver::reached(old(self).device(), final(self).device()),
            run::performed(
                old(self).log(),
                final(self).log(),
                run::clear_firmware_limit_run(old(self)@, final(self).log(), old(self).log().len() as int),
                error::fault_of(r),
            ),
    {
        proof {
            reveal(run::clear_firmware_limit_run);
        }
        match self.require_mode(ChargeControlMode::Firmware, "firmware charge control") {
            Ok(_) => self.write_byte(KEY_BFF0, FIRMWARE_OFF),
            Err(e) => Err(e),
        }
    }

    /// Returns the machine to unrestricted charging.
    pub fn reset_charge_control(&mut self) -> (r: Result<(), SmcError>)
        ensures
            final(self)@ == old(self)@,
            driver::reached(old(self).device(), final(self).device()),
            run::performed(
                old(self).log(),
                final(self).log(),
                run::reset_run(old(self)@, final(self).log(), old(self).log().len() as int),
                error::fault_of(r),
            ),
    {
        proof {
            reveal(run::reset_run);
        }
        match self.mode {
            ChargeControlMode::Legacy => self.allow_charging(),
            ChargeControlMode::Firmware => self.clear_firmware_limit(),
            ChargeControlMode::Unsupported => Err(
                SmcError::WrongMode {
                    mode: self.mode,
                    need: "legacy or firmware charge control",
                },
            ),
        }
    }

    // -- battery and adapter -----------------------------------------------
    /// Reads the battery charge percent.
    pub fn battery_percent(&mut self) -> (r: Result<u8, SmcError>)
        ensures
            final(self)@ == old(self)@,
            driver::reached(old(self).device(), final(self).device()),
            run::performed(
                old(self).log(),
                final(self).log(),
                run::battery_run(old(self)@, final(self).log(), old(self).log().len() as int),
                error::fault_of(r),
            ),
    {
        proof {
            reveal(run::battery_run);
        }
        self.read_u8(KEY_BUIC)
    }

    /// Returns true when a power adapter is attached.
    pub fn is_plugged_in(&mut self) -> (r: Result<bool, SmcError>)
        ensures
            final(self)@ == old(self)@,
            driver::reached(old(self).device(), final(self).device()),
            run::performed(
                old(self).log(),
                final(self).log(),
                run::plugged_in_run(old(self)@, final(self).log(), old(self).log().len() as int),
                error::fault_of(r),
            ),
    {
        proof {
            reveal(run::plugged_in_run);
        }
        match self.read_u8(KEY_ACW) {
            Ok(byte) => Ok(0 < byte && byte < 0x80),
            Err(e) => Err(e),
        }
    }

    /// Returns the adapter gate this Mac uses, preferring `CH0I`, then
    /// `CH0J`, then the Tahoe `CHIE`.
    fn adapter_key(&self) -> (r: Option<&'static str>)
        ensures
            match r {
                Some(key) => run::adapter_key(self@) == Some(key@),
                None => run::adapter_key(self@) is None,
            },
    {
        if self.has_key(KEY_CH0I) {
            Some(KEY_CH0I)
        } else if self.has_key(KEY_CH0J) {
            Some(KEY_CH0J)
        } else if self.has_key(KEY_CHIE) {
            Some(KEY_CHIE)
        } else {
            None
        }
    }

    /// Returns true when this Mac can gate the power adapter.
    pub fn has_adapter_control(&self) -> (r: bool)
        ensures
            r == run::adapter_key(self@) is Some,
    {
        self.adapter_key().is_some()
    }

    /// Returns true when the power adapter is enabled.
    pub fn is_adapter_enabled(&mut self) -> (r: Result<bool, SmcError>)
        ensures
            final(self)@ == old(self)@,
            driver::reached(old(self).device(), final(self).device()),
            run::performed(
                old(self).log(),
                final(self).log(),
                run::adapter_run(old(self)@, final(self).log(), old(self).log().len() as int),
                error::fault_of(r),
            ),
    {
        proof {
            reveal(run::adapter_run);
        }
        let key = match self.adapter_key() {
            Some(key) => key,
            None => return Err(SmcError::Unsupported("adapter control")),
        };
        match self.read_u8(key) {
            Ok(byte) => Ok(byte == ADAPTER_ON),
            Err(e) => Err(e),
        }
    }

    /// Enables or disables the power adapter. Needs root.
    pub fn set_adapter_enabled(&mut self, on: bool) -> (r: Result<(), SmcError>)
        ensures
            final(self)@ == old(self)@,
            driver::reached(old(self).device(), final(self).device()),
            run::performed(
                old(self).log(),
                final(self).log(),
                run::set_adapter_run(old(self)@, on, final(self).log(), old(self).log().len() as int),
                error::fault_of(r),
            ),
    {
        proof {
            reveal(run::set_adapter_run);
        }
        let key = match self.adapter_key() {
            Some(key) => key,
            None => return Err(SmcError::Unsupported("adapter control")),
        };
        let off: u8 = if text::same_text(key, KEY_CHIE) {
            ADAPTER_OFF_CHIE
        } else {
            ADAPTER_OFF
        };
        let value: u8 = if on {
            ADAPTER_ON
        } else {
            off
        };
        self.write_byte(key, value)
    }

    // -- MagSafe LED --------------------------------------------------------
    /// Returns true when this Mac has a controllable MagSafe LED.
    pub fn has_magsafe_led(&self) -> (r: bool)
        ensures
            r == run::found(self@, KEY_ACLC@),
    {
        self.has_key(KEY_ACLC)
    }

    /// Reads the MagSafe LED colour.
    pub fn magsafe_led(&mut self) -> (r: Result<MagsafeLed, SmcError>)
        ensures
            final(self)@ == old(self)@,
            driver::reached(old(self).device(), final(self).device()),
            run::performed(
                old(self).log(),
                final(self).log(),
                run::led_run(old(self)@, final(self).log(), old(self).log().len() as int),
                error::fault_of(r),
            ),
    {
        proof {
            reveal(run::led_run);
        }
        if !self.has_magsafe_led() {
            return Err(SmcError::Unsupported("MagSafe LED"));
        }
        match self.read_u8(KEY_ACLC) {
            Ok(byte) => Ok(MagsafeLed::from_byte(byte)),
            Err(e) => Err(e),
        }
    }

    /// Sets the MagSafe LED colour. Needs root.
    pub fn set_magsafe_led(&mut self, state: MagsafeLed) -> (r: Result<(), SmcError>)
        ensures
            final(self)@ == old(self)@,
            driver::reached(old(self).device(), final(self).device()),
            run::performed(
                old(self).log(),
                final(self).log(),
                run::set_led_run(old(self)@, state, final(self).log(), old(self).log().len() as int),
                error::fault_of(r),
            ),
    {
        proof {
            reveal(run::set_led_run);
        }
        if !self.has_magsafe_led() {
            return Err(SmcError::Unsupported("MagSafe LED"));
        }
        self.write_byte(KEY_ACLC, state.to_byte())
    }
}

fn cap(n: u32) -> (r: u8)
    ensures
        r == run::capped(n),
{
    if n < 255 {
        n as u8
    } else {
        255
    }
}

fn are_zero(bytes: &Vec<u8>) -> (r: bool)
    ensures
        r == run::all_zero(bytes@),
{
    let mut i: usize = 0;
    while i < bytes.len()
        invariant
            i <= bytes@.len(),
            forall|k: int| 0 <= k < i ==> bytes@[k] == 0,
        decreases bytes@.len() - i,
    {
        if bytes[i] != 0 {
            return false;
        }
        i = i + 1;
    }
    true
}

/// The first `len` bytes of a payload.
pub(crate) fn leading_bytes(bytes: &[u8; MAX_DATA_LEN], len: usize) -> (r: Vec<u8>)
    requires
        len <= MAX_DATA_LEN,
    ensures
        r@ == bytes@.take(len as int),
{
    let mut out: Vec<u8> = Vec::new();
    let mut i: usize = 0;
    while i < len
        invariant
            i <= len <= MAX_DATA_LEN,
            out@ == bytes@.take(i as int),
        decreases len - i,
    {
        out.push(bytes[i]);
        i = i + 1;
        assert(out@ =~= bytes@.take(i as int));
    }
    out
}

/// From `before` to `after` the SMC did what `run` says, and returned `value`:
/// what the probe found stays, the log grew by the packets of `run`, and the
/// driver was taken along by nothing but these round trips.
pub open spec fn did<D: Driver, T>(
    before: Smc<D>,
    after: Smc<D>,
    run: Run<T>,
    value: Result<T, Fault>,
) -> bool {
    &&& after@ == before@
    &&& driver::reached(before.device(), after.device())
    &&& run::performed(before.log(), after.log(), run, value)
}

/// The bytes of a read, or its error by its view.
pub open spec fn bytes_of(r: Result<Vec<u8>, SmcError>) -> Result<Seq<u8>, Fault> {
    match r {
        Ok(bytes) => Ok(bytes@),
        Err(e) => Err(e@),
    }
}

} // verus!
