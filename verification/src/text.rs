//! Text as sequences of characters: decimal and hexadecimal numbers, white
//! space, prefixes, fields and number parsing.
//!
//! The other modules state what they print and what they read over the spec
//! functions of this module.

use vstd::prelude::*;

verus! {

/// `String::push`: appends one character to the end of the string.
pub assume_specification[ String::push ](s: &mut String, c: char)
    ensures
        final(s)@ == old(s)@.push(c),
;

/// A result with its error message taken as characters.
pub open spec fn told<T>(r: Result<T, String>) -> Result<T, Seq<char>> {
    match r {
        Ok(v) => Ok(v),
        Err(e) => Err(e@),
    }
}

/// An optional string, taken as characters.
pub open spec fn chars(s: Option<String>) -> Option<Seq<char>> {
    match s {
        Some(t) => Some(t@),
        None => None,
    }
}

/// Strings, each taken as characters.
pub open spec fn texts(strings: Seq<String>) -> Seq<Seq<char>> {
    Seq::new(strings.len(), |i: int| strings[i]@)
}

// ---------------------------------------------------------------------------
// Numbers
// ---------------------------------------------------------------------------

/// The character of one digit, in base 16 with lower-case letters.
pub open spec fn digit_char(d: int) -> char {
    if d == 0 {
        '0'
    } else if d == 1 {
        '1'
    } else if d == 2 {
        '2'
    } else if d == 3 {
        '3'
    } else if d == 4 {
        '4'
    } else if d == 5 {
        '5'
    } else if d == 6 {
        '6'
    } else if d == 7 {
        '7'
    } else if d == 8 {
        '8'
    } else if d == 9 {
        '9'
    } else if d == 10 {
        'a'
    } else if d == 11 {
        'b'
    } else if d == 12 {
        'c'
    } else if d == 13 {
        'd'
    } else if d == 14 {
        'e'
    } else {
        'f'
    }
}

/// `n` written in `base`, without leading zeros; zero is one digit.
pub open spec fn numeral(n: nat, base: nat) -> Seq<char>
    decreases n,
{
    if base < 2 || n < base {
        seq![digit_char(n as int)]
    } else {
        proof {
            assert(n / base < n) by (nonlinear_arith)
                requires
                    2 <= base <= n,
            ;
        }
        numeral(n / base, base).push(digit_char((n % base) as int))
    }
}

/// `n` in base 10.
pub open spec fn decimal(n: nat) -> Seq<char> {
    numeral(n, 10)
}

/// `s` filled up on the left with zeros to at least `width` characters.
pub open spec fn zero_filled(s: Seq<char>, width: nat) -> Seq<char> {
    if s.len() >= width {
        s
    } else {
        Seq::new((width - s.len()) as nat, |i: int| '0') + s
    }
}

/// `n` in base 10 with at least `width` digits.
pub open spec fn decimal_padded(n: nat, width: nat) -> Seq<char> {
    zero_filled(decimal(n), width)
}

/// `n` in base 16 with at least `width` digits.
pub open spec fn hex_padded(n: nat, width: nat) -> Seq<char> {
    zero_filled(numeral(n, 16), width)
}

fn digit(d: u64) -> (r: char)
    requires
        d < 16,
    ensures
        r == digit_char(d as int),
{
    if d == 0 {
        '0'
    } else if d == 1 {
        '1'
    } else if d == 2 {
        '2'
    } else if d == 3 {
        '3'
    } else if d == 4 {
        '4'
    } else if d == 5 {
        '5'
    } else if d == 6 {
        '6'
    } else if d == 7 {
        '7'
    } else if d == 8 {
        '8'
    } else if d == 9 {
        '9'
    } else if d == 10 {
        'a'
    } else if d == 11 {
        'b'
    } else if d == 12 {
        'c'
    } else if d == 13 {
        'd'
    } else if d == 14 {
        'e'
    } else {
        'f'
    }
}

fn numeral_text(n: u64, base: u64) -> (r: String)
    requires
        2 <= base <= 16,
    ensures
        r@ == numeral(n as nat, base as nat),
    decreases n,
{
    if n < base {
        let mut s = String::new();
        s.push(digit(n));
        s
    } else {
        assert(n / base < n) by (nonlinear_arith)
            requires
                2 <= base,
                n >= base,
        ;
        let mut s = numeral_text(n / base, base);
        s.push(digit(n % base));
        s
    }
}

fn zero_fill(s: &String, width: usize) -> (r: String)
    ensures
        r@ == zero_filled(s@, width as nat),
{
    let len = s.as_str().unicode_len();
    if len >= width {
        return s.clone();
    }
    let mut out = String::new();
    let mut i: usize = 0;
    while i < width - len
        invariant
            len == s@.len(),
            len < width,
            i <= width - len,
            out@ == Seq::new(i as nat, |k: int| '0'),
        decreases width - len - i,
    {
        out.push('0');
        i = i + 1;
        assert(out@ =~= Seq::new(i as nat, |k: int| '0'));
    }
    out.append(s.as_str());
    out
}

/// Writes `n` in base 10.
pub fn decimal_text(n: u64) -> (r: String)
    ensures
        r@ == decimal(n as nat),
{
    numeral_text(n, 10)
}

/// Writes `n` in base 10 with at least `width` digits.
pub fn decimal_padded_text(n: u64, width: usize) -> (r: String)
    ensures
        r@ == decimal_padded(n as nat, width as nat),
{
    zero_fill(&numeral_text(n, 10), width)
}

/// Writes `n` in base 16 with at least `width` digits.
pub fn hex_padded_text(n: u64, width: usize) -> (r: String)
    ensures
        r@ == hex_padded(n as nat, width as nat),
{
    zero_fill(&numeral_text(n, 16), width)
}

/// `true` or `false`.
pub open spec fn truth(b: bool) -> Seq<char> {
    if b {
        "true"@
    } else {
        "false"@
    }
}

/// Returns `true` or `false` as text.
pub fn truth_text(b: bool) -> (r: &'static str)
    ensures
        r@ == truth(b),
{
    if b {
        "true"
    } else {
        "false"
    }
}

// ---------------------------------------------------------------------------
// Characters
// ---------------------------------------------------------------------------

/// The characters with the Unicode property White_Space.
pub open spec fn white_space(c: char) -> bool {
    let n = c as u32;
    ||| 0x9 <= n <= 0xd
    ||| n == 0x20
    ||| n == 0x85
    ||| n == 0xa0
    ||| n == 0x1680
    ||| 0x2000 <= n <= 0x200a
    ||| n == 0x2028
    ||| n == 0x2029
    ||| n == 0x202f
    ||| n == 0x205f
    ||| n == 0x3000
}

/// Tells whether `c` has the Unicode property White_Space.
pub fn is_white_space(c: char) -> (r: bool)
    ensures
        r == white_space(c),
{
    let n: u32 = c as u32;
    (0x9 <= n && n <= 0xd) || n == 0x20 || n == 0x85 || n == 0xa0 || n == 0x1680 || (0x2000 <= n
        && n <= 0x200a) || n == 0x2028 || n == 0x2029 || n == 0x202f || n == 0x205f || n == 0x3000
}

/// The characters of `text`, in order.
pub fn chars_of(text: &str) -> (r: Vec<char>)
    ensures
        r@ == text@,
{
    let mut out: Vec<char> = Vec::new();
    for c in it: text.chars()
        invariant
            it.seq() == text@,
            out@ == text@.take(it.index()),
    {
        out.push(c);
        assert(out@ =~= text@.take(it.index() + 1));
    }
    assert(text@.take(text@.len() as int) =~= text@);
    out
}

/// The characters of `chars` from `from` up to `to`, as a string.
pub fn string_of(chars: &Vec<char>, from: usize, to: usize) -> (r: String)
    requires
        from <= to <= chars@.len(),
    ensures
        r@ == chars@.subrange(from as int, to as int),
{
    let mut out = String::new();
    let mut i: usize = from;
    while i < to
        invariant
            from <= i <= to <= chars@.len(),
            out@ == chars@.subrange(from as int, i as int),
        decreases to - i,
    {
        out.push(chars[i]);
        i = i + 1;
        assert(out@ =~= chars@.subrange(from as int, i as int));
    }
    out
}

/// Tells whether two texts hold the same characters.
pub fn same_text(a: &str, b: &str) -> (r: bool)
    ensures
        r == (a@ == b@),
{
    a.to_owned() == b.to_owned()
}

/// `a` and then `b`.
pub fn text2(a: &str, b: &str) -> (r: String)
    ensures
        r@ == a@ + b@,
{
    let mut s = a.to_string();
    s.append(b);
    s
}

/// `a`, `b` and `c`, one after the other.
pub fn text3(a: &str, b: &str, c: &str) -> (r: String)
    ensures
        r@ == a@ + b@ + c@,
{
    let mut s = text2(a, b);
    s.append(c);
    s
}

/// `a`, `b`, `c` and `d`, one after the other.
pub fn text4(a: &str, b: &str, c: &str, d: &str) -> (r: String)
    ensures
        r@ == a@ + b@ + c@ + d@,
{
    let mut s = text3(a, b, c);
    s.append(d);
    s
}

/// `a`, `b`, `c`, `d` and `e`, one after the other.
pub fn text5(a: &str, b: &str, c: &str, d: &str, e: &str) -> (r: String)
    ensures
        r@ == a@ + b@ + c@ + d@ + e@,
{
    let mut s = text4(a, b, c, d);
    s.append(e);
    s
}

/// What `{:?}` prints for a text: the text in double quotes, with escapes.
pub uninterp spec fn debug_text(text: Seq<char>) -> Seq<char>;

/// `format!` with `{:?}` on a `str`. The result is named and not spelled out:
/// which characters are escaped is a table of the standard library.
#[verifier::external_body]
pub(crate) fn quoted(text: &str) -> (r: String)
    ensures
        r@ == debug_text(text@),
{
    format!("{text:?}")
}

/// What lossy decoding makes of bytes that need not be UTF-8.
pub uninterp spec fn lossy_text(bytes: Seq<u8>) -> Seq<char>;

/// `String::from_utf8_lossy`: the text that valid UTF-8 encodes, and for other
/// bytes a text that depends on the bytes alone.
#[verifier::external_body]
pub(crate) fn lossy(bytes: &Vec<u8>) -> (r: String)
    ensures
        r@ == lossy_text(bytes@),
        vstd::utf8::valid_utf8(bytes@) ==> r@ == vstd::utf8::decode_utf8(bytes@),
{
    String::from_utf8_lossy(bytes).into_owned()
}

// ---------------------------------------------------------------------------
// Trimming and fields
// ---------------------------------------------------------------------------

/// `s` without the white space at its start.
pub open spec fn trim_start(s: Seq<char>) -> Seq<char>
    decreases s.len(),
{
    if s.len() > 0 && white_space(s[0]) {
        trim_start(s.skip(1))
    } else {
        s
    }
}

/// `s` without the white space at its end.
pub open spec fn trim_end(s: Seq<char>) -> Seq<char>
    decreases s.len(),
{
    if s.len() > 0 && white_space(s.last()) {
        trim_end(s.drop_last())
    } else {
        s
    }
}

/// `s` without the white space at both ends.
pub open spec fn trimmed(s: Seq<char>) -> Seq<char> {
    trim_end(trim_start(s))
}

/// `s` without the characters `c` at its start.
pub open spec fn without_leading(s: Seq<char>, c: char) -> Seq<char>
    decreases s.len(),
{
    if s.len() > 0 && s[0] == c {
        without_leading(s.skip(1), c)
    } else {
        s
    }
}

/// `s` without the characters `c` at its end.
pub open spec fn without_trailing(s: Seq<char>, c: char) -> Seq<char>
    decreases s.len(),
{
    if s.len() > 0 && s.last() == c {
        without_trailing(s.drop_last(), c)
    } else {
        s
    }
}

/// The position of the first `c` in `s`, or the length of `s`.
pub open spec fn first_index(s: Seq<char>, c: char) -> int
    decreases s.len(),
{
    if s.len() == 0 || s[0] == c {
        0
    } else {
        1 + first_index(s.skip(1), c)
    }
}

/// What stands before the first `c` of `s`; all of `s` where it has none.
pub open spec fn before_first(s: Seq<char>, c: char) -> Seq<char> {
    s.take(first_index(s, c))
}

/// The fields of `s` between the characters `c`; there is always one.
pub open spec fn fields(s: Seq<char>, c: char) -> Seq<Seq<char>>
    decreases s.len(),
{
    let i = first_index(s, c);
    if 0 <= i < s.len() {
        seq![s.take(i)] + fields(s.skip(i + 1), c)
    } else {
        seq![s]
    }
}

/// `first_index` is a position of `s` or its length, and the first `c`.
pub proof fn lemma_first_index(s: Seq<char>, c: char)
    ensures
        0 <= first_index(s, c) <= s.len(),
        first_index(s, c) < s.len() ==> s[first_index(s, c)] == c,
        forall|i: int| 0 <= i < first_index(s, c) ==> s[i] != c,
    decreases s.len(),
{
    if s.len() == 0 || s[0] == c {
    } else {
        lemma_first_index(s.skip(1), c);
        assert forall|i: int| 0 <= i < first_index(s, c) implies s[i] != c by {
            if i > 0 {
                assert(s[i] == s.skip(1)[i - 1]);
            }
        }
    }
}

/// A position that holds the first `c` is the first index.
pub proof fn lemma_first_index_is(s: Seq<char>, c: char, k: int)
    requires
        0 <= k <= s.len(),
        k < s.len() ==> s[k] == c,
        forall|i: int| 0 <= i < k ==> s[i] != c,
    ensures
        first_index(s, c) == k,
{
    lemma_first_index(s, c);
}

/// Where the white space at the start and at the end of `chars[from..to]`
/// leaves off.
pub fn trim_range(chars: &Vec<char>, from: usize, to: usize) -> (r: (usize, usize))
    requires
        from <= to <= chars@.len(),
    ensures
        from <= r.0 <= r.1 <= to,
        chars@.subrange(r.0 as int, r.1 as int) == trimmed(
            chars@.subrange(from as int, to as int),
        ),
{
    let mut a: usize = from;
    while a < to && is_white_space(chars[a])
        invariant
            from <= a <= to <= chars@.len(),
            trim_start(chars@.subrange(from as int, to as int)) == trim_start(
                chars@.subrange(a as int, to as int),
            ),
        decreases to - a,
    {
        assert(chars@.subrange(a as int, to as int).skip(1) =~= chars@.subrange(
            a + 1,
            to as int,
        ));
        a = a + 1;
    }
    let b = trim_end_at(chars, a, to);
    (a, b)
}

/// Where the white space at the end of `chars[from..to]` starts.
pub fn trim_end_at(chars: &Vec<char>, from: usize, to: usize) -> (r: usize)
    requires
        from <= to <= chars@.len(),
    ensures
        from <= r <= to,
        chars@.subrange(from as int, r as int) == trim_end(chars@.subrange(from as int, to as int)),
{
    let mut b: usize = to;
    while from < b && is_white_space(chars[b - 1])
        invariant
            from <= b <= to <= chars@.len(),
            trim_end(chars@.subrange(from as int, to as int)) == trim_end(
                chars@.subrange(from as int, b as int),
            ),
        decreases b,
    {
        assert(chars@.subrange(from as int, b as int).drop_last() =~= chars@.subrange(
            from as int,
            b - 1,
        ));
        b = b - 1;
    }
    b
}

/// Where the first `c` of `chars[from..to]` stands; `to` where there is none.
pub fn find_char(chars: &Vec<char>, from: usize, to: usize, c: char) -> (r: usize)
    requires
        from <= to <= chars@.len(),
    ensures
        from <= r <= to,
        r - from == first_index(chars@.subrange(from as int, to as int), c),
{
    let mut i: usize = from;
    let ghost s = chars@.subrange(from as int, to as int);
    while i < to && chars[i] != c
        invariant
            from <= i <= to <= chars@.len(),
            s == chars@.subrange(from as int, to as int),
            forall|k: int| 0 <= k < i - from ==> s[k] != c,
        decreases to - i,
    {
        assert(s[i - from] == chars@[i as int]);
        i = i + 1;
    }
    proof {
        lemma_first_index_is(s, c, i - from);
    }
    i
}

/// Where the characters `c` at the start of `chars[from..to]` leave off.
pub fn skip_leading(chars: &Vec<char>, from: usize, to: usize, c: char) -> (r: usize)
    requires
        from <= to <= chars@.len(),
    ensures
        from <= r <= to,
        chars@.subrange(r as int, to as int) == without_leading(
            chars@.subrange(from as int, to as int),
            c,
        ),
{
    let mut a: usize = from;
    while a < to && chars[a] == c
        invariant
            from <= a <= to <= chars@.len(),
            without_leading(chars@.subrange(from as int, to as int), c) == without_leading(
                chars@.subrange(a as int, to as int),
                c,
            ),
        decreases to - a,
    {
        assert(chars@.subrange(a as int, to as int).skip(1) =~= chars@.subrange(
            a + 1,
            to as int,
        ));
        a = a + 1;
    }
    a
}

/// Where the characters `c` at the end of `chars[from..to]` start.
pub fn skip_trailing(chars: &Vec<char>, from: usize, to: usize, c: char) -> (r: usize)
    requires
        from <= to <= chars@.len(),
    ensures
        from <= r <= to,
        chars@.subrange(from as int, r as int) == without_trailing(
            chars@.subrange(from as int, to as int),
            c,
        ),
{
    let mut b: usize = to;
    while from < b && chars[b - 1] == c
        invariant
            from <= b <= to <= chars@.len(),
            without_trailing(chars@.subrange(from as int, to as int), c) == without_trailing(
                chars@.subrange(from as int, b as int),
                c,
            ),
        decreases b,
    {
        assert(chars@.subrange(from as int, b as int).drop_last() =~= chars@.subrange(
            from as int,
            b - 1,
        ));
        b = b - 1;
    }
    b
}

/// Returns `text` without the white space at both ends.
pub fn trim(text: &str) -> (r: String)
    ensures
        r@ == trimmed(text@),
{
    let chars = chars_of(text);
    let (a, b) = trim_range(&chars, 0, chars.len());
    assert(chars@.subrange(0, chars@.len() as int) =~= text@);
    string_of(&chars, a, b)
}

/// Returns `text` without the white space at its end.
pub fn trim_tail(text: &str) -> (r: String)
    ensures
        r@ == trim_end(text@),
{
    let chars = chars_of(text);
    let b = trim_end_at(&chars, 0, chars.len());
    assert(chars@.subrange(0, chars@.len() as int) =~= text@);
    string_of(&chars, 0, b)
}

/// `s` starts with `prefix`.
pub open spec fn has_prefix(s: Seq<char>, prefix: Seq<char>) -> bool {
    prefix.len() <= s.len() && s.take(prefix.len() as int) == prefix
}

/// `s` ends with `suffix`.
pub open spec fn has_suffix(s: Seq<char>, suffix: Seq<char>) -> bool {
    suffix.len() <= s.len() && s.skip(s.len() - suffix.len()) == suffix
}

/// Returns what follows `prefix` in `text`, where `text` starts with it.
pub fn strip_prefix(text: &str, prefix: &str) -> (r: Option<String>)
    ensures
        match r {
            Some(rest) => has_prefix(text@, prefix@) && rest@ == text@.skip(
                prefix@.len() as int,
            ),
            None => !has_prefix(text@, prefix@),
        },
{
    let t = chars_of(text);
    let p = chars_of(prefix);
    if p.len() > t.len() {
        return None;
    }
    let head = string_of(&t, 0, p.len());
    assert(t@.subrange(0, p@.len() as int) =~= t@.take(p@.len() as int));
    if same_text(head.as_str(), prefix) {
        let rest = string_of(&t, p.len(), t.len());
        assert(rest@ =~= t@.skip(p@.len() as int));
        Some(rest)
    } else {
        None
    }
}

/// Tells whether `text` ends with `suffix`.
pub fn ends_with(text: &str, suffix: &str) -> (r: bool)
    ensures
        r == has_suffix(text@, suffix@),
{
    let t = chars_of(text);
    let p = chars_of(suffix);
    if p.len() > t.len() {
        return false;
    }
    let tail = string_of(&t, t.len() - p.len(), t.len());
    assert(tail@ =~= t@.skip(t@.len() - p@.len()));
    same_text(tail.as_str(), suffix)
}

/// The fields of `chars[from..to]` between the characters `c`.
pub fn split_fields(chars: &Vec<char>, from: usize, to: usize, c: char) -> (r: Vec<String>)
    requires
        from <= to <= chars@.len(),
    ensures
        texts(r@) == fields(chars@.subrange(from as int, to as int), c),
{
    let mut out: Vec<String> = Vec::new();
    let mut pos: usize = from;
    let ghost all = fields(chars@.subrange(from as int, to as int), c);
    assert(texts(out@) + all =~= all);
    loop
        invariant_except_break
            from <= pos <= to <= chars@.len(),
            texts(out@) + fields(chars@.subrange(pos as int, to as int), c) == all,
        ensures
            texts(out@) == all,
        decreases to - pos,
    {
        let ghost rest = chars@.subrange(pos as int, to as int);
        let ghost before = out@;
        let i = find_char(chars, pos, to, c);
        let field = string_of(chars, pos, i);
        assert(field@ =~= rest.take(i - pos));
        out.push(field);
        assert(texts(out@) =~= texts(before).push(field@));
        if i == to {
            assert(rest.take(i - pos) =~= rest);
            assert(texts(out@) =~= texts(before) + seq![rest]);
            break ;
        }
        proof {
            assert(rest.skip(i - pos + 1) =~= chars@.subrange(i + 1, to as int));
            assert(texts(before) + (seq![field@] + fields(rest.skip(i - pos + 1), c)) =~= texts(
                out@,
            ) + fields(rest.skip(i - pos + 1), c));
        }
        pos = i + 1;
    }
    out
}

/// The parts, one after the other, with `c` between them.
pub open spec fn separated(parts: Seq<Seq<char>>, c: char) -> Seq<char>
    decreases parts.len(),
{
    if parts.len() == 0 {
        Seq::empty()
    } else if parts.len() == 1 {
        parts[0]
    } else {
        separated(parts.drop_last(), c).push(c) + parts.last()
    }
}

/// Writes the parts one after the other, with `c` between them.
pub fn join(parts: &Vec<String>, c: char) -> (r: String)
    ensures
        r@ == separated(texts(parts@), c),
{
    let mut out = String::new();
    let mut i: usize = 0;
    while i < parts.len()
        invariant
            i <= parts@.len(),
            out@ == separated(texts(parts@).take(i as int), c),
        decreases parts@.len() - i,
    {
        if i > 0 {
            out.push(c);
        }
        out.append(parts[i].as_str());
        i = i + 1;
        proof {
            let done = texts(parts@).take(i as int);
            assert(done.drop_last() =~= texts(parts@).take(i - 1));
            assert(done.last() == parts@[i - 1]@);
            assert(Seq::<char>::empty() + parts@[i - 1]@ =~= parts@[i - 1]@);
        }
    }
    assert(texts(parts@).take(i as int) =~= texts(parts@));
    out
}

/// What stands after the last `c` of `s`; all of `s` where it has none.
pub open spec fn after_last(s: Seq<char>, c: char) -> Seq<char> {
    fields(s, c).last()
}

/// `s` with every `c` replaced.
pub open spec fn replaced(s: Seq<char>, c: char, by: Seq<char>) -> Seq<char>
    decreases s.len(),
{
    if s.len() == 0 {
        s
    } else {
        replaced(s.drop_last(), c, by) + (if s.last() == c {
            by
        } else {
            seq![s.last()]
        })
    }
}

/// Returns `text` with every `c` replaced.
pub fn replace_char(text: &str, c: char, by: &str) -> (r: String)
    ensures
        r@ == replaced(text@, c, by@),
{
    let chars = chars_of(text);
    let mut out = String::new();
    let mut i: usize = 0;
    while i < chars.len()
        invariant
            i <= chars@.len(),
            out@ == replaced(chars@.take(i as int), c, by@),
        decreases chars@.len() - i,
    {
        proof {
            assert(chars@.take(i + 1).drop_last() =~= chars@.take(i as int));
        }
        if chars[i] == c {
            out.append(by);
        } else {
            let ghost before = out@;
            out.push(chars[i]);
            assert(out@ =~= before + seq![chars@[i as int]]);
        }
        i = i + 1;
    }
    assert(chars@.take(i as int) =~= text@);
    out
}

/// The fields of two texts with `c` between them are the fields of both.
pub proof fn lemma_fields_push(a: Seq<char>, b: Seq<char>, c: char)
    ensures
        fields(a.push(c) + b, c) == fields(a, c) + fields(b, c),
    decreases a.len(),
{
    let s = a.push(c) + b;
    lemma_first_index(a, c);
    let i = first_index(a, c);
    assert(s.len() == a.len() + 1 + b.len());
    assert(forall|k: int| 0 <= k < a.len() ==> #[trigger] s[k] == a[k]);
    assert(s[a.len() as int] == c);
    lemma_first_index_is(s, c, i);
    assert(s.take(i) =~= a.take(i));
    if i < a.len() {
        assert(s.skip(i + 1) =~= a.skip(i + 1).push(c) + b);
        lemma_fields_push(a.skip(i + 1), b, c);
        assert(fields(s, c) =~= fields(a, c) + fields(b, c));
    } else {
        assert(a.take(i) =~= a);
        assert(s.skip(i + 1) =~= b);
        assert(fields(s, c) =~= fields(a, c) + fields(b, c));
    }
}

/// Parts without `c` that were joined with `c` come apart again.
pub proof fn lemma_fields_separated(parts: Seq<Seq<char>>, c: char)
    requires
        parts.len() > 0,
        forall|i: int| 0 <= i < parts.len() ==> !(#[trigger] parts[i]).contains(c),
    ensures
        fields(separated(parts, c), c) == parts,
    decreases parts.len(),
{
    let last = parts.last();
    assert(fields(last, c) =~= seq![last]) by {
        lemma_first_index(last, c);
        let i = first_index(last, c);
        if i < last.len() {
            assert(last.contains(last[i]));
        }
    }
    if parts.len() == 1 {
        assert(parts =~= seq![last]);
    } else {
        let rest = parts.drop_last();
        assert forall|i: int| 0 <= i < rest.len() implies !(#[trigger] rest[i]).contains(c) by {
            assert(rest[i] == parts[i]);
        }
        lemma_fields_separated(rest, c);
        lemma_fields_push(separated(rest, c), last, c);
        assert(rest + seq![last] =~= parts);
    }
}

// ---------------------------------------------------------------------------
// Parsing numbers
// ---------------------------------------------------------------------------

/// The value of one digit of base `base`, which is 10 or 16.
pub open spec fn digit_value(c: char, base: nat) -> Option<nat> {
    let n = c as u32;
    if 0x30 <= n <= 0x39 {
        Some((n - 0x30) as nat)
    } else if base == 16 && 0x61 <= n <= 0x66 {
        Some((n - 0x61 + 10) as nat)
    } else if base == 16 && 0x41 <= n <= 0x46 {
        Some((n - 0x41 + 10) as nat)
    } else {
        None
    }
}

/// The number that the digits `s` write in base `base`.
pub open spec fn digits_value(s: Seq<char>, base: nat) -> Option<nat>
    decreases s.len(),
{
    if s.len() == 0 {
        Some(0)
    } else {
        match (digits_value(s.drop_last(), base), digit_value(s.last(), base)) {
            (Some(high), Some(low)) => Some(high * base + low),
            _ => None,
        }
    }
}

/// The number that `s` writes in base `base`, up to `max`: one digit or more,
/// with one plus sign before them or none.
pub open spec fn parsed(s: Seq<char>, base: nat, max: nat) -> Option<nat> {
    let digits = if s.len() > 0 && s[0] == '+' {
        s.skip(1)
    } else {
        s
    };
    if digits.len() == 0 {
        None
    } else {
        match digits_value(digits, base) {
            Some(n) => if n <= max {
                Some(n)
            } else {
                None
            },
            None => None,
        }
    }
}

fn value_of_digit(c: char, base: u64) -> (r: Option<u64>)
    requires
        base == 10 || base == 16,
    ensures
        match r {
            Some(v) => digit_value(c, base as nat) == Some(v as nat) && v < base,
            None => digit_value(c, base as nat) is None,
        },
{
    let n: u32 = c as u32;
    if 0x30 <= n && n <= 0x39 {
        Some((n - 0x30) as u64)
    } else if base == 16 && 0x61 <= n && n <= 0x66 {
        Some((n - 0x61 + 10) as u64)
    } else if base == 16 && 0x41 <= n && n <= 0x46 {
        Some((n - 0x41 + 10) as u64)
    } else {
        None
    }
}

/// A longer run of digits writes no smaller number, and none where a part of
/// it is no number.
proof fn lemma_digits_prefix(s: Seq<char>, k: int, base: nat)
    requires
        0 <= k <= s.len(),
        base >= 1,
    ensures
        digits_value(s.take(k), base) is None ==> digits_value(s, base) is None,
        digits_value(s, base) is Some ==> digits_value(s, base)->0 >= digits_value(
            s.take(k),
            base,
        )->0,
    decreases s.len(),
{
    if k == s.len() {
        assert(s.take(k) =~= s);
    } else {
        lemma_digits_prefix(s.drop_last(), k, base);
        assert(s.drop_last().take(k) =~= s.take(k));
        if digits_value(s, base) is Some {
            let high = digits_value(s.drop_last(), base)->0;
            assert(high * base >= high) by (nonlinear_arith)
                requires
                    base >= 1,
            ;
        }
    }
}

/// A number in base 10 is made of digits, and reads back as itself.
pub proof fn lemma_decimal(n: nat)
    ensures
        decimal(n).len() > 0,
        forall|i: int| 0 <= i < decimal(n).len() ==> '0' <= #[trigger] decimal(n)[i] <= '9',
        digits_value(decimal(n), 10) == Some(n),
        forall|max: nat| n <= max ==> #[trigger] parsed(decimal(n), 10, max) == Some(n),
    decreases n,
{
    reveal_with_fuel(digits_value, 2);
    if n < 10 {
        assert(decimal(n) =~= seq![digit_char(n as int)]);
        assert(decimal(n).drop_last() =~= Seq::empty());
    } else {
        lemma_decimal(n / 10);
        let high = decimal(n / 10);
        let low = digit_char((n % 10) as int);
        assert(decimal(n) == high.push(low));
        assert(decimal(n).drop_last() =~= high);
        assert forall|i: int| 0 <= i < decimal(n).len() implies '0' <= #[trigger] decimal(n)[i]
            <= '9' by {
            if i < high.len() {
                assert(decimal(n)[i] == high[i]);
            }
        }
    }
    assert('0' <= decimal(n)[0] <= '9');
}

/// Reads `chars[from..to]` as a number of base 10 or 16, up to `max`.
pub fn parse_number(chars: &Vec<char>, from: usize, to: usize, base: u64, max: u64) -> (r: Option<
    u64,
>)
    requires
        from <= to <= chars@.len(),
        base == 10 || base == 16,
    ensures
        match r {
            Some(n) => parsed(chars@.subrange(from as int, to as int), base as nat, max as nat)
                == Some(n as nat),
            None => parsed(
                chars@.subrange(from as int, to as int),
                base as nat,
                max as nat,
            ) is None,
        },
{
    let ghost s = chars@.subrange(from as int, to as int);
    let start: usize = if from < to && chars[from] == '+' {
        from + 1
    } else {
        from
    };
    let ghost digits = chars@.subrange(start as int, to as int);
    proof {
        if from < to && chars@[from as int] == '+' {
            assert(digits =~= s.skip(1));
        }
    }
    if start == to {
        return None;
    }
    let mut value: u64 = 0;
    let mut i: usize = start;
    while i < to
        invariant
            from <= start <= i <= to <= chars@.len(),
            base == 10 || base == 16,
            s == chars@.subrange(from as int, to as int),
            digits == chars@.subrange(start as int, to as int),
            digits_value(digits.take(i - start), base as nat) == Some(value as nat),
            value <= max,
            start < to,
            parsed(s, base as nat, max as nat) == match digits_value(digits, base as nat) {
                Some(n) => if n <= max {
                    Some(n)
                } else {
                    None
                },
                None => None,
            },
        decreases to - i,
    {
        proof {
            assert(digits.take(i + 1 - start).drop_last() =~= digits.take(i - start));
            assert(digits.take(i + 1 - start).last() == chars@[i as int]);
            lemma_digits_prefix(digits, i + 1 - start, base as nat);
        }
        match value_of_digit(chars[i], base) {
            Some(d) => {
                let next: u128 = (value as u128) * (base as u128) + (d as u128);
                if next > max as u128 {
                    return None;
                }
                value = next as u64;
            },
            None => {
                return None;
            },
        }
        i = i + 1;
    }
    assert(digits.take(to - start) =~= digits);
    Some(value)
}

/// Reads all of `text` as a number of base 10, up to `max`.
pub fn parse_decimal(text: &str, max: u64) -> (r: Option<u64>)
    ensures
        match r {
            Some(n) => parsed(text@, 10, max as nat) == Some(n as nat),
            None => parsed(text@, 10, max as nat) is None,
        },
{
    let chars = chars_of(text);
    assert(chars@.subrange(0, chars@.len() as int) =~= text@);
    parse_number(&chars, 0, chars.len(), 10, max)
}

// ---------------------------------------------------------------------------
// Laws
// ---------------------------------------------------------------------------

proof fn lemma_trim_start(s: Seq<char>)
    ensures
        trim_start(s).len() <= s.len(),
        s.skip(s.len() - trim_start(s).len()) == trim_start(s),
        trim_start(s).len() > 0 ==> !white_space(trim_start(s)[0]),
        forall|i: int| 0 <= i < s.len() - trim_start(s).len() ==> white_space(#[trigger] s[i]),
    decreases s.len(),
{
    if s.len() > 0 && white_space(s[0]) {
        let rest = s.skip(1);
        lemma_trim_start(rest);
        assert(s.skip(s.len() - trim_start(s).len()) =~= rest.skip(
            rest.len() - trim_start(rest).len(),
        ));
        assert forall|i: int| 0 <= i < s.len() - trim_start(s).len() implies white_space(
            #[trigger] s[i],
        ) by {
            if i > 0 {
                assert(s[i] == rest[i - 1]);
            }
        }
    } else {
        assert(s.skip(0) =~= s);
    }
}

proof fn lemma_trim_end(s: Seq<char>)
    ensures
        trim_end(s).len() <= s.len(),
        s.take(trim_end(s).len() as int) == trim_end(s),
        trim_end(s).len() > 0 ==> !white_space(trim_end(s).last()),
        forall|i: int| trim_end(s).len() <= i < s.len() ==> white_space(#[trigger] s[i]),
    decreases s.len(),
{
    if s.len() > 0 && white_space(s.last()) {
        let head = s.drop_last();
        lemma_trim_end(head);
        assert(s.take(trim_end(s).len() as int) =~= head.take(trim_end(head).len() as int));
        assert forall|i: int| trim_end(s).len() <= i < s.len() implies white_space(
            #[trigger] s[i],
        ) by {
            if i < s.len() - 1 {
                assert(s[i] == head[i]);
            }
        }
    } else {
        assert(s.take(s.len() as int) =~= s);
    }
}

/// Trimming takes white space from both ends and nothing else: what is left is a
/// part of the text with white space before it and behind it, and it neither
/// starts nor ends with any.
pub proof fn trimming_takes_only_white_space(s: Seq<char>)
    ensures
        ({
            let t = trimmed(s);
            let from = s.len() - trim_start(s).len();
            let to = from + t.len();
            &&& 0 <= from <= to <= s.len()
            &&& s.subrange(from, to) == t
            &&& t.len() > 0 ==> !white_space(t[0]) && !white_space(t.last())
            &&& forall|i: int|
                0 <= i < s.len() && !(from <= i < to) ==> white_space(#[trigger] s[i])
        }),
{
    let u = trim_start(s);
    lemma_trim_start(s);
    lemma_trim_end(u);
    let from = s.len() - u.len();
    let t = trimmed(s);
    assert(s.subrange(from, from + t.len()) =~= u.take(t.len() as int));
    assert forall|i: int|
        0 <= i < s.len() && !(from <= i < from + t.len()) implies white_space(#[trigger] s[i]) by {
        if i >= from {
            assert(s[i] == u[i - from]);
        }
    }
}

/// Different numbers have different numerals, and they read back.
pub proof fn numerals_read_back(m: nat, n: nat)
    ensures
        parsed(decimal(m), 10, m) == Some(m),
        decimal(m) == decimal(n) ==> m == n,
{
    lemma_decimal(m);
    lemma_decimal(n);
}

/// Padding puts zeros before a number and keeps its digits, and it makes it at
/// least as wide as asked.
pub proof fn padding_puts_zeros_first(n: nat, width: nat)
    ensures
        ({
            let (bare, padded) = (decimal(n), decimal_padded(n, width));
            &&& padded.len() >= width
            &&& padded.len() >= bare.len()
            &&& padded.skip(padded.len() - bare.len()) == bare
            &&& bare.len() >= width ==> padded == bare
            &&& forall|i: int|
                0 <= i < padded.len() - bare.len() ==> #[trigger] padded[i] == '0'
        }),
{
    let (bare, padded) = (decimal(n), decimal_padded(n, width));
    assert(padded.skip(padded.len() - bare.len()) =~= bare);
}

/// White space put before a text or behind it is trimmed again.
pub proof fn white_space_around_is_trimmed(s: Seq<char>, c: char)
    requires
        white_space(c),
    ensures
        trimmed(seq![c] + s) == trimmed(s),
        trimmed(s.push(c)) == trimmed(s),
{
    assert((seq![c] + s).skip(1) =~= s);
    lemma_trim_start_push(s, c);
    let u = trim_start(s);
    assert(u.push(c).drop_last() =~= u);
}

proof fn lemma_trim_start_push(s: Seq<char>, c: char)
    requires
        white_space(c),
    ensures
        trim_start(s.push(c)) == trim_start(s).push(c) || (trim_start(s).len() == 0 && trim_start(
            s.push(c),
        ).len() == 0),
    decreases s.len(),
{
    if s.len() == 0 {
        assert(s.push(c).skip(1) =~= s);
        reveal_with_fuel(trim_start, 2);
    } else if white_space(s[0]) {
        assert(s.push(c).skip(1) =~= s.skip(1).push(c));
        lemma_trim_start_push(s.skip(1), c);
    }
}

/// White space is what Unicode calls so: the tab and the four controls behind
/// it, the space, and the spaces and line ends beyond ASCII.
pub proof fn white_space_is_as_unicode_has_it(c: char)
    ensures
        (c as u32) < 0x80 ==> (white_space(c) <==> seq![
            '\t',
            '\n',
            '\u{b}',
            '\u{c}',
            '\r',
            ' ',
        ].contains(c)),
        (c as u32) >= 0x80 ==> (white_space(c) <==> (0x2000 <= c as u32 <= 0x200a || seq![
            '\u{85}',
            '\u{a0}',
            '\u{1680}',
            '\u{2028}',
            '\u{2029}',
            '\u{202f}',
            '\u{205f}',
            '\u{3000}',
        ].contains(c))),
{
    let low = seq!['\t', '\n', '\u{b}', '\u{c}', '\r', ' '];
    let high = seq![
        '\u{85}',
        '\u{a0}',
        '\u{1680}',
        '\u{2028}',
        '\u{2029}',
        '\u{202f}',
        '\u{205f}',
        '\u{3000}',
    ];
    if white_space(c) {
        assert(low[0] == c || low[1] == c || low[2] == c || low[3] == c || low[4] == c || low[5]
            == c || high[0] == c || high[1] == c || high[2] == c || high[3] == c || high[4] == c
            || high[5] == c || high[6] == c || high[7] == c || 0x2000 <= c as u32 <= 0x200a);
    }
}

/// One plus sign before a number says nothing. A second one, a minus sign, or a
/// sign alone makes it no number.
pub proof fn a_plus_sign_says_nothing(s: Seq<char>, base: nat, max: nat)
    requires
        s.len() > 0,
        s[0] != '+',
    ensures
        parsed(seq!['+'] + s, base, max) == parsed(s, base, max),
        parsed(seq!['+', '+'] + s, base, max) is None,
        parsed(seq!['-'] + s, base, max) is None,
        parsed(seq!['+'], base, max) is None,
        parsed(seq!['-'], base, max) is None,
        parsed(Seq::empty(), base, max) is None,
{
    let none = Seq::<char>::empty();
    assert((seq!['+'] + s).skip(1) =~= s);
    assert((seq!['+', '+'] + s).skip(1) =~= seq!['+'] + s);
    lemma_no_digit(seq!['+'], s, base);
    lemma_no_digit(seq!['-'], s, base);
    lemma_no_digit(seq!['-'], none, base);
    assert(seq!['-'] + none =~= seq!['-']);
    assert(seq!['+'].skip(1) =~= none);
}

proof fn lemma_no_digit(sign: Seq<char>, s: Seq<char>, base: nat)
    requires
        sign.len() == 1,
        sign[0] == '+' || sign[0] == '-',
    ensures
        digits_value(sign + s, base) is None,
    decreases s.len(),
{
    if s.len() == 0 {
        assert(sign + s =~= sign);
        assert(digit_value(sign.last(), base) is None);
    } else {
        assert((sign + s).drop_last() =~= sign + s.drop_last());
        lemma_no_digit(sign, s.drop_last(), base);
    }
}

/// A digit of a hex number above nine is a letter, in upper or lower case, and a
/// decimal number has none.
pub proof fn hex_letters_have_two_cases(c: char)
    ensures
        ({
            let n = c as u32;
            let digit = digit_value(c, 16);
            &&& 0x30 <= n <= 0x39 <==> digit is Some && digit->0 < 10
            &&& 0x30 <= n <= 0x39 ==> digit->0 == n - 0x30
            &&& 0x61 <= n <= 0x66 ==> digit == Some((n - 0x57) as nat)
            &&& 0x41 <= n <= 0x46 ==> digit == Some((n - 0x37) as nat)
            &&& digit is Some ==> digit->0 < 16
            &&& digit_value(c, 10) == if digit is Some && digit->0 < 10 {
                digit
            } else {
                None
            }
        }),
{
}

/// A truth is told as `true` or `false`.
pub proof fn truths_are_told()
    ensures
        truth(true) == "true"@,
        truth(false) == "false"@,
{
}

} // verus!
