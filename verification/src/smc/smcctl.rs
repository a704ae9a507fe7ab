//! `smcctl`, a small development tool for the SMC keys: its commands, what they
//! print, and raw bytes as hex.
//!
//! ```text
//! smcctl probe              list every known key, present or absent
//! smcctl read <KEY>         print the raw bytes as hex
//! smcctl write <KEY> <HEX>  write raw bytes (needs sudo)
//! smcctl status             print mode, battery, adapter and gate state
//! ```

use crate::proto::ChargeControlMode;
use crate::smc::driver::{self, fourcc_str, Driver, Exchange, KeyInfo, Packet};
use crate::smc::error::{self, mode_text, Fault, SmcError};
use crate::smc::run::{self, Probe, Run};
use crate::smc::{FirmwareLimit, MagsafeLed, Smc, ALL_KEYS};
use crate::text;
use vstd::prelude::*;

verus! {

broadcast use {run::group_runs, run::group_typed_runs, driver::group_reached};

pub const USAGE: &'static str = "usage: smcctl <probe|read <KEY>|write <KEY> <HEX>|status>";

/// What the command line asks for.
#[derive(Debug, PartialEq, Eq)]
pub enum Command {
    Probe,
    Read(String),
    Write(String, String),
    Status,
    /// None of these.
    Usage,
}

/// A [`Command`] with its texts taken as characters.
pub enum CommandView {
    Probe,
    Read(Seq<char>),
    Write(Seq<char>, Seq<char>),
    Status,
    Usage,
}

impl View for Command {
    type V = CommandView;

    open spec fn view(&self) -> CommandView {
        match *self {
            Command::Probe => CommandView::Probe,
            Command::Read(key) => CommandView::Read(key@),
            Command::Write(key, value) => CommandView::Write(key@, value@),
            Command::Status => CommandView::Status,
            Command::Usage => CommandView::Usage,
        }
    }
}

/// What a command line asks for.
pub open spec fn command_of(args: Seq<Seq<char>>) -> CommandView {
    if args.len() == 1 && args[0] == "probe"@ {
        CommandView::Probe
    } else if args.len() == 2 && args[0] == "read"@ {
        CommandView::Read(args[1])
    } else if args.len() == 3 && args[0] == "write"@ {
        CommandView::Write(args[1], args[2])
    } else if args.len() == 1 && args[0] == "status"@ {
        CommandView::Status
    } else {
        CommandView::Usage
    }
}

/// Reads the command line, without the name of the program.
pub fn parse_args(args: &Vec<String>) -> (r: Command)
    ensures
        r@ == command_of(text::texts(args@)),
{
    if args.len() == 1 && text::same_text(args[0].as_str(), "probe") {
        Command::Probe
    } else if args.len() == 2 && text::same_text(args[0].as_str(), "read") {
        Command::Read(args[1].clone())
    } else if args.len() == 3 && text::same_text(args[0].as_str(), "write") {
        Command::Write(args[1].clone(), args[2].clone())
    } else if args.len() == 1 && text::same_text(args[0].as_str(), "status") {
        Command::Status
    } else {
        Command::Usage
    }
}

/// What a failed command prints.
pub open spec fn failure_text(fault: Fault) -> Seq<char> {
    if fault is NotPrivileged {
        "error: SMC writes need root. Run smcctl again with sudo."@
    } else {
        "error: "@ + error::fault_text(fault)
    }
}

/// Returns what a failed command prints.
pub fn error_line(error: &SmcError) -> (r: String)
    ensures
        r@ == failure_text(error@),
{
    match error {
        SmcError::NotPrivileged => {
            "error: SMC writes need root. Run smcctl again with sudo.".to_string()
        },
        _ => text::text2("error: ", error.message().as_str()),
    }
}

// ---------------------------------------------------------------------------
// Hex
// ---------------------------------------------------------------------------

/// Bytes in hex, two digits each, with a space between them.
pub open spec fn hex_of(bytes: Seq<u8>) -> Seq<char> {
    text::separated(
        Seq::new(bytes.len(), |i: int| text::hex_padded(bytes[i] as nat, 2)),
        ' ',
    )
}

/// Writes bytes in hex.
pub fn hex(bytes: &[u8]) -> (r: String)
    ensures
        r@ == hex_of(bytes@),
{
    let mut parts: Vec<String> = Vec::new();
    let ghost all = Seq::new(bytes@.len(), |i: int| text::hex_padded(bytes@[i] as nat, 2));
    let mut i: usize = 0;
    while i < bytes.len()
        invariant
            i <= bytes@.len(),
            all == Seq::new(bytes@.len(), |i: int| text::hex_padded(bytes@[i] as nat, 2)),
            text::texts(parts@) == all.take(i as int),
        decreases bytes@.len() - i,
    {
        let ghost before = parts@;
        let part = text::hex_padded_text(bytes[i] as u64, 2);
        parts.push(part);
        assert(text::texts(parts@) =~= text::texts(before).push(part@));
        i = i + 1;
        assert(text::texts(parts@) =~= all.take(i as int));
    }
    assert(text::texts(parts@) =~= all);
    text::join(&parts, ' ')
}

/// The bytes that a character takes in UTF-8.
pub open spec fn width(c: char) -> int {
    let n = c as u32;
    if n < 0x80 {
        1
    } else if n < 0x800 {
        2
    } else if n < 0x1_0000 {
        3
    } else {
        4
    }
}

/// The bytes that a text takes in UTF-8.
pub open spec fn byte_length(s: Seq<char>) -> int
    decreases s.len(),
{
    if s.len() == 0 {
        0
    } else {
        byte_length(s.drop_last()) + width(s.last())
    }
}

/// A text without its white space.
pub open spec fn cleaned(s: Seq<char>) -> Seq<char>
    decreases s.len(),
{
    if s.len() == 0 {
        s
    } else if text::white_space(s.last()) {
        cleaned(s.drop_last())
    } else {
        cleaned(s.drop_last()).push(s.last())
    }
}

/// The byte that two characters write in hex.
pub open spec fn hex_byte(s: Seq<char>) -> Option<u8> {
    match text::parsed(s, 16, 255) {
        Some(n) => Some(n as u8),
        None => None,
    }
}

/// The byte that the two characters from `i` on write in hex. A character that
/// takes two bytes stands for both.
pub open spec fn byte_at(s: Seq<char>, i: int) -> Option<u8> {
    if width(s[i]) == 1 && i + 1 < s.len() && width(s[i + 1]) == 1 {
        hex_byte(s.subrange(i, i + 2))
    } else {
        None
    }
}

/// The bytes that `s` writes in hex from `i` on.
pub open spec fn bytes_from(s: Seq<char>, i: int) -> Option<Seq<u8>>
    decreases s.len() + 1 - i,
{
    if i < 0 || i >= s.len() {
        Some(Seq::empty())
    } else {
        match (byte_at(s, i), bytes_from(s, i + 2)) {
            (Some(byte), Some(rest)) => Some(seq![byte] + rest),
            _ => None,
        }
    }
}

/// Cut into pairs of bytes from `i` on, `s` is not cut inside a character
/// before a pair that is not hex.
pub open spec fn cuts_cleanly(s: Seq<char>, i: int) -> bool
    decreases s.len() + 1 - i,
{
    if i < 0 || i >= s.len() {
        true
    } else if byte_at(s, i) is Some {
        cuts_cleanly(s, i + 2)
    } else {
        width(s[i]) == 2 || (width(s[i]) == 1 && i + 1 < s.len() && width(s[i + 1]) == 1)
    }
}

/// The bytes of a hex text, or why it is none.
pub open spec fn hex_value(s: Seq<char>) -> Result<Seq<u8>, Fault> {
    let c = cleaned(s);
    if c.len() == 0 || byte_length(c) % 2 != 0 {
        Err(Fault::InvalidLimit(text::debug_text(s) + " is not an even-length hex string"@))
    } else {
        match bytes_from(c, 0) {
            Some(bytes) => Ok(bytes),
            None => Err(Fault::InvalidLimit(text::debug_text(s) + " is not hex"@)),
        }
    }
}

fn clean(s: &str) -> (r: Vec<char>)
    ensures
        r@ == cleaned(s@),
{
    let chars = text::chars_of(s);
    let mut out: Vec<char> = Vec::new();
    let mut i: usize = 0;
    assert(chars@.take(0) =~= Seq::empty());
    while i < chars.len()
        invariant
            i <= chars@.len(),
            out@ == cleaned(chars@.take(i as int)),
        decreases chars@.len() - i,
    {
        assert(chars@.take(i + 1).drop_last() =~= chars@.take(i as int));
        if !text::is_white_space(chars[i]) {
            out.push(chars[i]);
        }
        i = i + 1;
    }
    assert(chars@.take(i as int) =~= s@);
    out
}

fn width_of(c: char) -> (r: u8)
    ensures
        r == width(c),
        1 <= r <= 4,
{
    let n: u32 = c as u32;
    if n < 0x80 {
        1
    } else if n < 0x800 {
        2
    } else if n < 0x1_0000 {
        3
    } else {
        4
    }
}

fn has_even_length(s: &Vec<char>) -> (r: bool)
    ensures
        r == (byte_length(s@) % 2 == 0),
{
    let mut even = true;
    let mut i: usize = 0;
    assert(s@.take(0) =~= Seq::empty());
    while i < s.len()
        invariant
            i <= s@.len(),
            even == (byte_length(s@.take(i as int)) % 2 == 0),
        decreases s@.len() - i,
    {
        assert(s@.take(i + 1).drop_last() =~= s@.take(i as int));
        let w = width_of(s[i]);
        if w == 1 || w == 3 {
            even = !even;
        }
        i = i + 1;
    }
    assert(s@.take(i as int) =~= s@);
    even
}

fn pair_at(s: &Vec<char>, i: usize) -> (r: Option<u8>)
    requires
        i < s@.len(),
    ensures
        r == byte_at(s@, i as int),
{
    if width_of(s[i]) == 1 && s.len() - i > 1 && width_of(s[i + 1]) == 1 {
        match text::parse_number(s, i, i + 2, 16, 255) {
            Some(n) => Some(n as u8),
            None => None,
        }
    } else {
        None
    }
}

/// Text that can be read as pairs of bytes: it is refused for its length, or
/// not cut inside a character.
pub open spec fn in_pairs(s: Seq<char>) -> bool {
    byte_length(cleaned(s)) % 2 == 0 ==> cuts_cleanly(cleaned(s), 0)
}

/// Returns true when `text` can be read as pairs of bytes.
pub fn splits_into_pairs(text: &str) -> (r: bool)
    ensures
        r == in_pairs(text@),
{
    let s = clean(text);
    if !has_even_length(&s) {
        return true;
    }
    let mut i: usize = 0;
    while i < s.len()
        invariant
            i <= s@.len() + 1,
            s@ == cleaned(text@),
            byte_length(s@) % 2 == 0,
            cuts_cleanly(s@, 0) == cuts_cleanly(s@, i as int),
        decreases s@.len() + 1 - i,
    {
        if pair_at(&s, i).is_none() {
            let w = width_of(s[i]);
            return w == 2 || (w == 1 && s.len() - i > 1 && width_of(s[i + 1]) == 1);
        }
        i = i + 2;
    }
    true
}

/// Reads hex digits, with white space anywhere between them.
pub fn parse_hex(text: &str) -> (r: Result<Vec<u8>, SmcError>)
    requires
        in_pairs(text@),
    ensures
        crate::smc::bytes_of(r) == hex_value(text@),
{
    let s = clean(text);
    if s.len() == 0 || !has_even_length(&s) {
        return Err(
            SmcError::InvalidLimit(
                text::text2(text::quoted(text).as_str(), " is not an even-length hex string"),
            ),
        );
    }
    let mut bytes: Vec<u8> = Vec::new();
    let mut i: usize = 0;
    proof {
        if bytes_from(s@, 0) is Some {
            assert(bytes@ + bytes_from(s@, 0)->0 =~= bytes_from(s@, 0)->0);
        }
    }
    while i < s.len()
        invariant
            i <= s@.len() + 1,
            s@ == cleaned(text@),
            s@.len() > 0,
            byte_length(s@) % 2 == 0,
            bytes_from(s@, 0) is Some <==> bytes_from(s@, i as int) is Some,
            bytes_from(s@, 0) is Some ==> bytes_from(s@, 0)->0 == bytes@ + bytes_from(
                s@,
                i as int,
            )->0,
        decreases s@.len() + 1 - i,
    {
        let byte = match pair_at(&s, i) {
            Some(byte) => byte,
            None => return Err(
                SmcError::InvalidLimit(
                    text::text2(text::quoted(text).as_str(), " is not hex"),
                ),
            ),
        };
        let ghost before = bytes@;
        bytes.push(byte);
        proof {
            if bytes_from(s@, 0) is Some {
                let rest = bytes_from(s@, i + 2)->0;
                assert(before + (seq![byte] + rest) =~= bytes@ + rest);
            }
        }
        i = i + 2;
    }
    assert(bytes@ + Seq::<u8>::empty() =~= bytes@);
    Ok(bytes)
}

// ---------------------------------------------------------------------------
// Hex there and back
// ---------------------------------------------------------------------------

/// The two digits of each byte, without anything between them.
spec fn digits_of(bytes: Seq<u8>) -> Seq<char>
    decreases bytes.len(),
{
    if bytes.len() == 0 {
        Seq::empty()
    } else {
        digits_of(bytes.drop_last()) + text::hex_padded(bytes.last() as nat, 2)
    }
}

/// A byte in hex is two digits, and reads back as that byte.
proof fn lemma_hex_byte(byte: u8)
    ensures
        ({
            let s = text::hex_padded(byte as nat, 2);
            &&& s.len() == 2
            &&& width(s[0]) == 1 && width(s[1]) == 1
            &&& cleaned(s) == s
            &&& hex_byte(s) == Some(byte)
        }),
{
    let n = byte as nat;
    let s = text::hex_padded(n, 2);
    let high = text::digit_char((n / 16) as int);
    let low = text::digit_char((n % 16) as int);
    reveal_with_fuel(text::numeral, 2);
    assert(s =~= seq![high, low]);
    assert(s.drop_last() =~= seq![high]);
    assert(s.drop_last().drop_last() =~= Seq::<char>::empty());
    reveal_with_fuel(cleaned, 3);
    assert(cleaned(s) =~= s);
    reveal_with_fuel(text::digits_value, 3);
    assert(text::digit_value(high, 16) == Some(n / 16));
    assert(text::digit_value(low, 16) == Some(n % 16));
}

/// Two texts, one after the other, clean one after the other.
proof fn lemma_cleaned_both(a: Seq<char>, b: Seq<char>)
    ensures
        cleaned(a + b) == cleaned(a) + cleaned(b),
    decreases b.len(),
{
    if b.len() == 0 {
        assert(a + b =~= a);
        assert(cleaned(a) + b =~= cleaned(a));
    } else {
        assert((a + b).drop_last() =~= a + b.drop_last());
        lemma_cleaned_both(a, b.drop_last());
        assert(cleaned(a) + cleaned(b.drop_last()).push(b.last()) =~= (cleaned(a) + cleaned(
            b.drop_last(),
        )).push(b.last()));
    }
}

/// Hex without its white space is the digits of the bytes.
proof fn lemma_hex_cleaned(bytes: Seq<u8>)
    ensures
        cleaned(hex_of(bytes)) == digits_of(bytes),
    decreases bytes.len(),
{
    let parts = Seq::new(bytes.len(), |i: int| text::hex_padded(bytes[i] as nat, 2));
    if bytes.len() > 0 {
        let rest = bytes.drop_last();
        let last = text::hex_padded(bytes.last() as nat, 2);
        assert(parts.drop_last() =~= Seq::new(
            rest.len(),
            |i: int| text::hex_padded(rest[i] as nat, 2),
        ));
        lemma_hex_cleaned(rest);
        lemma_hex_byte(bytes.last());
        if bytes.len() == 1 {
            assert(digits_of(rest) + last =~= last);
        } else {
            let head = hex_of(rest).push(' ');
            assert(head.drop_last() =~= hex_of(rest));
            lemma_cleaned_both(head, last);
        }
    }
}

/// The digits of a byte string stand two by two where their bytes do.
proof fn lemma_digits_of(bytes: Seq<u8>)
    ensures
        digits_of(bytes).len() == 2 * bytes.len(),
        byte_length(digits_of(bytes)) == 2 * bytes.len(),
        forall|k: int|
            0 <= k < bytes.len() ==> byte_at(digits_of(bytes), 2 * k) == Some(#[trigger] bytes[k]),
    decreases bytes.len(),
{
    if bytes.len() > 0 {
        let rest = bytes.drop_last();
        let last = text::hex_padded(bytes.last() as nat, 2);
        let all = digits_of(bytes);
        lemma_digits_of(rest);
        lemma_hex_byte(bytes.last());
        assert(all.drop_last().drop_last() =~= digits_of(rest));
        reveal_with_fuel(byte_length, 3);
        assert forall|k: int| 0 <= k < bytes.len() implies byte_at(all, 2 * k) == Some(
            #[trigger] bytes[k],
        ) by {
            if k < rest.len() {
                assert(rest[k] == bytes[k]);
                assert(all.subrange(2 * k, 2 * k + 2) =~= digits_of(rest).subrange(
                    2 * k,
                    2 * k + 2,
                ));
            } else {
                assert(all.subrange(2 * k, 2 * k + 2) =~= last);
            }
        }
    }
}

/// Digits that hold a byte at every other place read as those bytes.
proof fn lemma_bytes_from(s: Seq<char>, bytes: Seq<u8>, k: int)
    requires
        0 <= k <= bytes.len(),
        s.len() == 2 * bytes.len(),
        forall|k: int| 0 <= k < bytes.len() ==> byte_at(s, 2 * k) == Some(#[trigger] bytes[k]),
    ensures
        bytes_from(s, 2 * k) == Some(bytes.skip(k)),
        cuts_cleanly(s, 2 * k),
    decreases bytes.len() - k,
{
    if k < bytes.len() {
        lemma_bytes_from(s, bytes, k + 1);
        assert(byte_at(s, 2 * k) == Some(bytes[k]));
        assert(2 * k + 2 == 2 * (k + 1));
        assert(seq![bytes[k]] + bytes.skip(k + 1) =~= bytes.skip(k));
    } else {
        assert(bytes.skip(k) =~= Seq::empty());
    }
}

/// Bytes that were written in hex read back as those bytes.
pub proof fn hex_reads_back(bytes: Seq<u8>)
    requires
        bytes.len() > 0,
    ensures
        hex_value(hex_of(bytes)) == Ok::<Seq<u8>, Fault>(bytes),
        in_pairs(hex_of(bytes)),
{
    lemma_hex_cleaned(bytes);
    lemma_digits_of(bytes);
    lemma_bytes_from(digits_of(bytes), bytes, 0);
    assert(bytes.skip(0) =~= bytes);
}

// ---------------------------------------------------------------------------
// Reports
// ---------------------------------------------------------------------------

/// What a command sends, and the lines that it prints.
pub struct Report {
    pub sent: Seq<Packet>,
    pub lines: Seq<Seq<char>>,
}

/// `report`, and then one operation and the line for it.
pub open spec fn and_line<T>(report: Report, run: Run<T>, line: Seq<char>) -> Report {
    Report { sent: run::joined(report.sent, run.sent), lines: report.lines.push(line) }
}

/// `report`, and then a line.
pub open spec fn and_text(report: Report, line: Seq<char>) -> Report {
    Report { lines: report.lines.push(line), ..report }
}

/// The position in the log after `report`, which started at `at`.
pub open spec fn after_report(at: int, report: Report) -> int {
    at + report.sent.len()
}

/// `s` filled up on the left with spaces to two characters.
pub open spec fn right_aligned(s: Seq<char>) -> Seq<char> {
    if s.len() < 2 {
        " "@ + s
    } else {
        s
    }
}

/// What the probe says of one key.
pub open spec fn probe_text(key: Seq<char>, info: Result<KeyInfo, Fault>) -> Seq<char> {
    match info {
        Ok(info) => key + "  present  size "@ + right_aligned(text::decimal(info.data_size as nat))
            + "  type "@ + driver::key_text(info.data_type),
        Err(Fault::KeyNotFound(_)) => key + "  absent"@,
        Err(fault) => key + "  error    "@ + error::fault_text(fault),
    }
}

/// What `smcctl probe` sends and prints: the mode, and the first `n` keys.
pub open spec fn probe_report(p: Probe, n: int, log: Seq<Exchange>, at: int) -> Report
    decreases n,
{
    if n <= 0 {
        Report { sent: Seq::empty(), lines: seq!["mode: "@ + error::mode_name(p.mode)] }
    } else {
        let rest = probe_report(p, n - 1, log, at);
        let key = ALL_KEYS[n - 1]@;
        let info = run::key_info_run(p, key, log, after_report(at, rest));
        and_line(rest, info, probe_text(key, info.value))
    }
}

/// What comes after a probe does not change it.
proof fn lemma_probe_report_kept(
    p: Probe,
    n: int,
    log: Seq<Exchange>,
    longer: Seq<Exchange>,
    at: int,
)
    requires
        run::extends(longer, log),
        0 <= at,
        after_report(at, probe_report(p, n, log, at)) <= log.len(),
    ensures
        probe_report(p, n, longer, at) == probe_report(p, n, log, at),
    decreases n,
{
    if n > 0 {
        lemma_probe_report_kept(p, n - 1, log, longer, at);
    }
}

fn probe_line(key: &str, info: &Result<KeyInfo, SmcError>) -> (r: String)
    ensures
        r@ == probe_text(
            key@,
            match *info {
                Ok(info) => Ok(info),
                Err(e) => Err(e@),
            },
        ),
{
    match info {
        Ok(info) => {
            let size = text::decimal_text(info.data_size as u64);
            let size = if size.as_str().unicode_len() < 2 {
                text::text2(" ", size.as_str())
            } else {
                size
            };
            text::text5(
                key,
                "  present  size ",
                size.as_str(),
                "  type ",
                fourcc_str(info.data_type).as_str(),
            )
        },
        Err(SmcError::KeyNotFound(_)) => text::text2(key, "  absent"),
        Err(e) => text::text3(key, "  error    ", e.message().as_str()),
    }
}

fn put(lines: &mut Vec<String>, line: String)
    ensures
        text::texts(final(lines)@) == text::texts(old(lines)@).push(line@),
{
    lines.push(line);
    assert(text::texts(lines@) =~= text::texts(old(lines)@).push(line@));
}

/// Looks for every known key and returns the lines to print.
pub fn probe<D: Driver>(smc: &mut Smc<D>) -> (r: Vec<String>)
    ensures
        final(smc)@ == old(smc)@,
        driver::reached(old(smc).device(), final(smc).device()),
        ({
            let report = probe_report(
                old(smc)@,
                12,
                final(smc).log(),
                old(smc).log().len() as int,
            );
            &&& run::followed(old(smc).log(), final(smc).log(), report.sent)
            &&& text::texts(r@) == report.lines
        }),
{
    let mut lines: Vec<String> = Vec::new();
    put(&mut lines, text::text2("mode: ", mode_text(smc.charge_control_mode())));
    assert(text::texts(lines@) =~= seq!["mode: "@ + error::mode_name(smc@.mode)]);
    let ghost start = smc.log();
    let ghost p = smc@;
    let mut i: usize = 0;
    while i < 12
        invariant
            i <= 12,
            smc@ == p,
            driver::reached(old(smc).device(), smc.device()),
            run::followed(
                start,
                smc.log(),
                probe_report(p, i as int, smc.log(), start.len() as int).sent,
            ),
            text::texts(lines@) == probe_report(p, i as int, smc.log(), start.len() as int).lines,
        decreases 12 - i,
    {
        let ghost before = smc.log();
        let key: &'static str = ALL_KEYS[i];
        let info = smc.key_info(key);
        proof {
            lemma_probe_report_kept(p, i as int, before, smc.log(), start.len() as int);
        }
        put(&mut lines, probe_line(key, &info));
        i = i + 1;
    }
    lines
}

/// Reads `key` and returns the line to print.
pub fn read<D: Driver>(smc: &mut Smc<D>, key: &str) -> (r: Result<String, SmcError>)
    ensures
        final(smc)@ == old(smc)@,
        driver::reached(old(smc).device(), final(smc).device()),
        ({
            let read = run::read_run(
                old(smc)@,
                key@,
                final(smc).log(),
                old(smc).log().len() as int,
            );
            &&& run::followed(old(smc).log(), final(smc).log(), read.sent)
            &&& line_of(r) == match read.value {
                Ok(bytes) => Ok(hex_of(bytes)),
                Err(fault) => Err(fault),
            }
        }),
{
    match smc.read(key) {
        Ok(bytes) => Ok(hex(bytes.as_slice())),
        Err(e) => Err(e),
    }
}

/// Writes `bytes` to `key` and returns the line to print.
pub fn write<D: Driver>(smc: &mut Smc<D>, key: &str, bytes: &[u8]) -> (r: Result<String, SmcError>)
    ensures
        final(smc)@ == old(smc)@,
        driver::reached(old(smc).device(), final(smc).device()),
        ({
            let written = run::write_run(
                old(smc)@,
                key@,
                bytes@,
                final(smc).log(),
                old(smc).log().len() as int,
            );
            &&& run::followed(old(smc).log(), final(smc).log(), written.sent)
            &&& line_of(r) == match written.value {
                Ok(_) => Ok(key@ + " = "@ + hex_of(bytes@)),
                Err(fault) => Err(fault),
            }
        }),
{
    match smc.write(key, bytes) {
        Ok(_) => Ok(text::text3(key, " = ", hex(bytes).as_str())),
        Err(e) => Err(e),
    }
}

/// A line, or an error, taken by its view.
pub open spec fn line_of(r: Result<String, SmcError>) -> Result<Seq<char>, Fault> {
    match r {
        Ok(line) => Ok(line@),
        Err(e) => Err(e@),
    }
}

/// What a reading shows: its text, or why there is none.
pub open spec fn shown(value: Result<Seq<char>, Fault>) -> Seq<char> {
    match value {
        Ok(text) => text,
        Err(fault) => "n/a ("@ + error::fault_text(fault) + ")"@,
    }
}

/// A truth value that was read, as text.
pub open spec fn truth_read(value: Result<bool, Fault>) -> Result<Seq<char>, Fault> {
    match value {
        Ok(b) => Ok(text::truth(b)),
        Err(fault) => Err(fault),
    }
}

/// A number that was read, as text.
pub open spec fn number_read(value: Result<u8, Fault>) -> Result<Seq<char>, Fault> {
    match value {
        Ok(n) => Ok(text::decimal(n as nat)),
        Err(fault) => Err(fault),
    }
}

/// The name of a LED colour.
pub open spec fn led_name(led: MagsafeLed) -> Seq<char> {
    match led {
        MagsafeLed::System => "System"@,
        MagsafeLed::Off => "Off"@,
        MagsafeLed::Green => "Green"@,
        MagsafeLed::Orange => "Orange"@,
    }
}

/// A LED colour that was read, as text.
pub open spec fn led_read(value: Result<MagsafeLed, Fault>) -> Result<Seq<char>, Fault> {
    match value {
        Ok(led) => Ok(led_name(led)),
        Err(fault) => Err(fault),
    }
}

/// What the status says of the firmware limit.
pub open spec fn limit_text(value: Result<FirmwareLimit, Fault>) -> Seq<char> {
    "firmware limit:   "@ + (match value {
        Ok(limit) => "active "@ + text::truth(limit.active) + " lower "@ + text::decimal(
            limit.lower as nat,
        ) + " upper "@ + text::decimal(limit.upper as nat),
        Err(fault) => "n/a ("@ + error::fault_text(fault) + ")"@,
    })
}

/// The first four lines of `smcctl status`: mode, battery, adapter and gate.
#[verifier::opaque]
pub open spec fn power_report(p: Probe, log: Seq<Exchange>, at: int) -> Report {
    let r0 = Report {
        sent: Seq::empty(),
        lines: seq!["mode:             "@ + error::mode_name(p.mode)],
    };
    let battery = run::battery_run(p, log, after_report(at, r0));
    let r1 = and_line(
        r0,
        battery,
        "battery percent:  "@ + shown(number_read(battery.value)),
    );
    let plugged = run::plugged_in_run(p, log, after_report(at, r1));
    let r2 = and_line(r1, plugged, "plugged in:       "@ + shown(truth_read(plugged.value)));
    let allowed = run::allowed_run(p, log, after_report(at, r2));
    and_line(r2, allowed, "charging allowed: "@ + shown(truth_read(allowed.value)))
}

/// What comes after these lines does not change them.
broadcast proof fn lemma_power_report_kept(
    p: Probe,
    log: Seq<Exchange>,
    longer: Seq<Exchange>,
    at: int,
)
    requires
        #[trigger] run::extends(longer, log),
        0 <= at,
        after_report(at, power_report(p, log, at)) <= log.len(),
    ensures
        #[trigger] power_report(p, longer, at) == power_report(p, log, at),
{
    reveal(power_report);
}

/// The line for the firmware limit, on a Mac that has one.
pub open spec fn limit_report(r: Report, p: Probe, log: Seq<Exchange>, at: int) -> Report {
    if p.mode == ChargeControlMode::Firmware {
        let limit = run::firmware_limit_run(p, log, after_report(at, r));
        and_line(r, limit, limit_text(limit.value))
    } else {
        r
    }
}

/// The lines for the adapter, the second on a Mac that can gate it.
pub open spec fn adapter_report(r: Report, p: Probe, log: Seq<Exchange>, at: int) -> Report {
    let there = run::adapter_key(p) is Some;
    let r1 = and_text(r, "adapter control:  "@ + text::truth(there));
    if there {
        let adapter = run::adapter_run(p, log, after_report(at, r1));
        and_line(r1, adapter, "adapter enabled:  "@ + shown(truth_read(adapter.value)))
    } else {
        r1
    }
}

/// The line for the MagSafe LED.
pub open spec fn led_report(r: Report, p: Probe, log: Seq<Exchange>, at: int) -> Report {
    let led = run::led_run(p, log, after_report(at, r));
    and_line(r, led, "magsafe led:      "@ + shown(led_read(led.value)))
}

/// What `smcctl status` sends and prints.
pub open spec fn status_report(p: Probe, log: Seq<Exchange>, at: int) -> Report {
    led_report(
        adapter_report(limit_report(power_report(p, log, at), p, log, at), p, log, at),
        p,
        log,
        at,
    )
}

fn show_fault(e: &SmcError) -> (r: String)
    ensures
        r@ == "n/a ("@ + error::fault_text(e@) + ")"@,
{
    text::text3("n/a (", e.message().as_str(), ")")
}

/// Renders a reading without failing the whole command.
fn show_truth(value: Result<bool, SmcError>) -> (r: String)
    ensures
        r@ == shown(truth_read(error::fault_of(value))),
{
    match value {
        Ok(b) => text::truth_text(b).to_string(),
        Err(e) => show_fault(&e),
    }
}

fn show_number(value: Result<u8, SmcError>) -> (r: String)
    ensures
        r@ == shown(number_read(error::fault_of(value))),
{
    match value {
        Ok(n) => text::decimal_text(n as u64),
        Err(e) => show_fault(&e),
    }
}

fn show_led(value: Result<MagsafeLed, SmcError>) -> (r: String)
    ensures
        r@ == shown(led_read(error::fault_of(value))),
{
    match value {
        Ok(MagsafeLed::System) => "System".to_string(),
        Ok(MagsafeLed::Off) => "Off".to_string(),
        Ok(MagsafeLed::Green) => "Green".to_string(),
        Ok(MagsafeLed::Orange) => "Orange".to_string(),
        Err(e) => show_fault(&e),
    }
}

fn show_limit(value: Result<FirmwareLimit, SmcError>) -> (r: String)
    ensures
        r@ == limit_text(error::fault_of(value)),
{
    let shown = match value {
        Ok(limit) => text::text3(
            text::text4(
                "active ",
                text::truth_text(limit.active),
                " lower ",
                text::decimal_text(limit.lower as u64).as_str(),
            ).as_str(),
            " upper ",
            text::decimal_text(limit.upper as u64).as_str(),
        ),
        Err(e) => show_fault(&e),
    };
    text::text2("firmware limit:   ", shown.as_str())
}

/// Reads mode, battery, adapter and gate and returns their lines.
fn power_lines<D: Driver>(smc: &mut Smc<D>) -> (r: Vec<String>)
    ensures
        final(smc)@ == old(smc)@,
        driver::reached(old(smc).device(), final(smc).device()),
        ({
            let report = power_report(old(smc)@, final(smc).log(), old(smc).log().len() as int);
            &&& run::followed(old(smc).log(), final(smc).log(), report.sent)
            &&& text::texts(r@) == report.lines
        }),
{
    proof {
        reveal(power_report);
    }
    let mut lines: Vec<String> = Vec::new();
    put(&mut lines, text::text2("mode:             ", mode_text(smc.charge_control_mode())));
    assert(text::texts(lines@) =~= seq!["mode:             "@ + error::mode_name(smc@.mode)]);
    put(
        &mut lines,
        text::text2("battery percent:  ", show_number(smc.battery_percent()).as_str()),
    );
    put(
        &mut lines,
        text::text2("plugged in:       ", show_truth(smc.is_plugged_in()).as_str()),
    );
    put(
        &mut lines,
        text::text2("charging allowed: ", show_truth(smc.is_charging_allowed()).as_str()),
    );
    lines
}

/// Reads mode, battery, adapter and gate state and returns the lines to print.
pub fn status<D: Driver>(smc: &mut Smc<D>) -> (r: Vec<String>)
    ensures
        final(smc)@ == old(smc)@,
        driver::reached(old(smc).device(), final(smc).device()),
        ({
            let report = status_report(old(smc)@, final(smc).log(), old(smc).log().len() as int);
            &&& run::followed(old(smc).log(), final(smc).log(), report.sent)
            &&& text::texts(r@) == report.lines
        }),
{
    broadcast use lemma_power_report_kept;

    let mut lines = power_lines(smc);
    if smc.charge_control_mode() == ChargeControlMode::Firmware {
        put(&mut lines, show_limit(smc.firmware_limit()));
    }
    let there = smc.has_adapter_control();
    put(&mut lines, text::text2("adapter control:  ", text::truth_text(there)));
    if there {
        put(
            &mut lines,
            text::text2("adapter enabled:  ", show_truth(smc.is_adapter_enabled()).as_str()),
        );
    }
    put(
        &mut lines,
        text::text2("magsafe led:      ", show_led(smc.magsafe_led()).as_str()),
    );
    lines
}

// ---------------------------------------------------------------------------
// Laws
// ---------------------------------------------------------------------------

/// A command is known by its words, and by how many there are; anything else is
/// answered with the usage.
pub proof fn a_command_is_known_by_its_words(args: Seq<Seq<char>>)
    ensures
        command_of(args) is Probe <==> args.len() == 1 && args[0] == "probe"@,
        command_of(args) is Status <==> args.len() == 1 && args[0] == "status"@,
        command_of(args) is Read <==> args.len() == 2 && args[0] == "read"@,
        command_of(args) is Write <==> args.len() == 3 && args[0] == "write"@,
        command_of(args) matches CommandView::Read(key) ==> key == args[1],
        command_of(args) matches CommandView::Write(key, value) ==> key == args[1] && value
            == args[2],
{
    reveal_strlit("probe");
    reveal_strlit("status");
    assert("probe"@.len() != "status"@.len());
}

/// A probe prints the mode and one line for each key, in order: that it is
/// present, that it is absent, or what went wrong.
pub proof fn a_probe_has_a_line_for_each_key(
    p: Probe,
    n: int,
    i: int,
    log: Seq<Exchange>,
    at: int,
)
    requires
        0 <= i < n <= 12,
    ensures
        ({
            let report = probe_report(p, n, log, at);
            let before = probe_report(p, i, log, at);
            let key = ALL_KEYS[i]@;
            let line = report.lines[i + 1];
            &&& report.lines.len() == n + 1
            &&& report.lines[0] == "mode: "@ + error::mode_name(p.mode)
            &&& match run::key_info_run(p, key, log, after_report(at, before)).value {
                Ok(info) => (key + "  present  size "@).is_prefix_of(line),
                Err(Fault::KeyNotFound(_)) => line == key + "  absent"@,
                Err(_) => (key + "  error    "@).is_prefix_of(line),
            }
        }),
    decreases n,
{
    lemma_probe_lines(p, n, log, at);
    lemma_probe_lines(p, i, log, at);
    if i == n - 1 {
        let before = probe_report(p, i, log, at);
        let key = ALL_KEYS[i]@;
        let info = run::key_info_run(p, key, log, after_report(at, before));
        assert(probe_report(p, n, log, at).lines == before.lines.push(
            probe_text(key, info.value),
        ));
    } else {
        a_probe_has_a_line_for_each_key(p, n - 1, i, log, at);
        lemma_probe_lines(p, n - 1, log, at);
    }
}

proof fn lemma_probe_lines(p: Probe, n: int, log: Seq<Exchange>, at: int)
    requires
        0 <= n <= 12,
    ensures
        probe_report(p, n, log, at).lines.len() == n + 1,
        probe_report(p, n, log, at).lines[0] == "mode: "@ + error::mode_name(p.mode),
    decreases n,
{
    if n > 0 {
        lemma_probe_lines(p, n - 1, log, at);
    }
}

/// A status prints the mode, the battery, the adapter and whether charging is
/// allowed, each reading as it came or as missing with the reason; then the
/// limit in firmware mode only, whether the adapter can be gated, the adapter
/// where it can, and the LED last.
pub proof fn a_status_prints_what_was_read(p: Probe, log: Seq<Exchange>, at: int)
    ensures
        ({
            let lines = status_report(p, log, at).lines;
            let firmware = p.mode == ChargeControlMode::Firmware;
            let gated = run::adapter_key(p) is Some;
            let battery = run::battery_run(p, log, at);
            let plugged = run::plugged_in_run(p, log, run::past(at, battery));
            let extra = (if firmware {
                1int
            } else {
                0int
            }) + (if gated {
                1int
            } else {
                0int
            });
            &&& lines.len() == 6 + extra
            &&& lines[0] == "mode:             "@ + error::mode_name(p.mode)
            &&& battery.value matches Ok(percent) ==> lines[1] == "battery percent:  "@
                + text::decimal(percent as nat)
            &&& battery.value matches Err(fault) ==> lines[1] == "battery percent:  "@ + (
            "n/a ("@ + error::fault_text(fault) + ")"@)
            &&& plugged.value matches Ok(there) ==> lines[2] == "plugged in:       "@
                + text::truth(there)
            &&& "charging allowed: "@.is_prefix_of(lines[3])
            &&& firmware ==> "firmware limit:   "@.is_prefix_of(lines[4])
            &&& lines[if firmware {
                5int
            } else {
                4int
            }] == "adapter control:  "@ + text::truth(gated)
            &&& "magsafe led:      "@.is_prefix_of(lines.last())
        }),
{
    reveal(power_report);
    let battery = run::battery_run(p, log, at);
    assert(run::joined(Seq::<Packet>::empty(), battery.sent) =~= battery.sent);
}

/// White space anywhere in hex does not count: it changes neither whether the
/// text is taken nor the bytes that it stands for.
pub proof fn white_space_in_hex_does_not_count(a: Seq<char>, b: Seq<char>, c: char)
    requires
        text::white_space(c),
    ensures
        ({
            let (with, without) = (hex_value(a.push(c) + b), hex_value(a + b));
            &&& with is Ok <==> without is Ok
            &&& with is Ok ==> with == without
        }),
{
    lemma_cleaned_both(a.push(c), b);
    lemma_cleaned_both(a, b);
    assert(a.push(c).drop_last() =~= a);
}

proof fn lemma_ascii(s: Seq<char>)
    requires
        forall|i: int| 0 <= i < s.len() ==> !text::white_space(#[trigger] s[i]) && width(s[i]) == 1,
    ensures
        cleaned(s) == s,
        byte_length(s) == s.len(),
    decreases s.len(),
{
    if s.len() > 0 {
        lemma_ascii(s.drop_last());
        assert(s.drop_last().push(s.last()) =~= s);
    }
}

proof fn lemma_no_byte(s: Seq<char>, i: int, k: int)
    requires
        0 <= i <= k < s.len(),
        i % 2 == 0,
        s[k] != '+',
        text::digit_value(s[k], 16) is None,
    ensures
        bytes_from(s, i) is None,
    decreases s.len() - i,
{
    if i + 2 <= k {
        lemma_no_byte(s, i + 2, k);
    } else if i + 1 < s.len() {
        let pair = s.subrange(i, i + 2);
        reveal_with_fuel(text::digits_value, 3);
        assert(pair[0] == s[i] && pair[1] == s[i + 1]);
        assert(pair.drop_last() =~= seq![s[i]]);
        assert(seq![s[i]].drop_last() =~= Seq::<char>::empty());
        assert(pair.skip(1) =~= seq![s[i + 1]]);
        assert(seq![s[i + 1]].drop_last() =~= Seq::<char>::empty());
    }
}

/// Hex has two digits for every byte, and nothing but digits.
pub proof fn hex_is_digits_two_by_two(s: Seq<char>, k: int)
    requires
        forall|i: int| 0 <= i < s.len() ==> !text::white_space(#[trigger] s[i]) && width(s[i]) == 1,
    ensures
        s.len() == 0 || s.len() % 2 != 0 ==> hex_value(s) is Err,
        0 <= k < s.len() && s[k] != '+' && text::digit_value(s[k], 16) is None ==> hex_value(
            s,
        ) is Err,
{
    lemma_ascii(s);
    if 0 <= k < s.len() && s[k] != '+' && text::digit_value(s[k], 16) is None {
        lemma_no_byte(s, 0, k);
    }
}

/// A size stands at the right of its column of two.
pub proof fn a_size_stands_at_the_right(n: nat)
    ensures
        ({
            let (bare, column) = (text::decimal(n), right_aligned(text::decimal(n)));
            &&& n < 10 ==> column == seq![' '] + bare && column.len() == 2
            &&& n >= 10 ==> column == bare
        }),
{
    reveal_strlit(" ");
    text::lemma_decimal(n);
    if n >= 10 {
        text::lemma_decimal(n / 10);
    }
}

/// A command that failed says why, and one that needs root says how to get it.
pub proof fn a_failure_says_what_to_do(fault: Fault)
    ensures
        fault is NotPrivileged ==> failure_text(fault)
            == "error: SMC writes need root. Run smcctl again with sudo."@,
        !(fault is NotPrivileged) ==> failure_text(fault) == "error: "@ + error::fault_text(fault),
{
}

/// The line for the firmware limit has whether it is active, then the lower
/// percent, then the upper one, or why it could not be read. The LED is told by
/// its colour.
pub proof fn the_limit_and_the_led_are_told(limit: FirmwareLimit, fault: Fault)
    ensures
        limit_text(Ok(limit)) == "firmware limit:   "@ + ("active "@ + (if limit.active {
            "true"@
        } else {
            "false"@
        }) + " lower "@ + text::decimal(limit.lower as nat) + " upper "@ + text::decimal(
            limit.upper as nat,
        )),
        limit_text(Err(fault)) == "firmware limit:   "@ + ("n/a ("@ + error::fault_text(fault)
            + ")"@),
        led_name(MagsafeLed::System) == "System"@,
        led_name(MagsafeLed::Off) == "Off"@,
        led_name(MagsafeLed::Green) == "Green"@,
        led_name(MagsafeLed::Orange) == "Orange"@,
{
}

} // verus!
