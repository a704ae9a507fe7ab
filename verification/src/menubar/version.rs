//! Semantic versions: parsing, text and precedence.

use crate::text;
use std::cmp::Ordering;
use vstd::prelude::*;

verus! {

/// A semantic version: `MAJOR.MINOR.PATCH` with an optional pre-release tag.
///
/// Only what release tags need: numeric triple and dotted pre-release
/// identifiers, compared as SemVer compares them. Build metadata is ignored.
#[derive(Debug, PartialEq, Eq)]
pub struct Version {
    pub major: u64,
    pub minor: u64,
    pub patch: u64,
    pub pre: Vec<String>,
}

/// A [`Version`] with its texts taken as characters.
pub struct VersionView {
    pub major: u64,
    pub minor: u64,
    pub patch: u64,
    pub pre: Seq<Seq<char>>,
}

impl View for Version {
    type V = VersionView;

    open spec fn view(&self) -> VersionView {
        VersionView {
            major: self.major,
            minor: self.minor,
            patch: self.patch,
            pre: text::texts(self.pre@),
        }
    }
}

impl Clone for Version {
    fn clone(&self) -> (r: Self)
        ensures
            r@ == self@,
    {
        let mut pre: Vec<String> = Vec::new();
        let mut i: usize = 0;
        while i < self.pre.len()
            invariant
                i <= self.pre@.len(),
                text::texts(pre@) == text::texts(self.pre@).take(i as int),
            decreases self.pre@.len() - i,
        {
            let ghost before = pre@;
            pre.push(self.pre[i].clone());
            assert(text::texts(pre@) =~= text::texts(before).push(self.pre@[i as int]@));
            i = i + 1;
            assert(text::texts(pre@) =~= text::texts(self.pre@).take(i as int));
        }
        assert(text::texts(pre@) =~= text::texts(self.pre@));
        Version { major: self.major, minor: self.minor, patch: self.patch, pre }
    }
}

// ---------------------------------------------------------------------------
// Parsing
// ---------------------------------------------------------------------------

/// A number of a version.
pub open spec fn number(s: Seq<char>) -> Option<nat> {
    text::parsed(s, 10, u64::MAX as nat)
}

/// The three numbers of `MAJOR.MINOR.PATCH`.
pub open spec fn core_of(s: Seq<char>) -> Option<(u64, u64, u64)> {
    let parts = text::fields(s, '.');
    if parts.len() == 3 && number(parts[0]) is Some && number(parts[1]) is Some && number(
        parts[2],
    ) is Some {
        Some((number(parts[0])->0 as u64, number(parts[1])->0 as u64, number(parts[2])->0 as u64))
    } else {
        None
    }
}

/// What counts of a version text: white space around it, a leading `v` and
/// build metadata do not.
pub open spec fn bare(s: Seq<char>) -> Seq<char> {
    text::before_first(text::without_leading(text::trimmed(s), 'v'), '+')
}

/// The version that a text stands for: a core, and pre-release identifiers
/// where a `-` follows it. A `-` with nothing behind it is no version.
pub open spec fn version_of(s: Seq<char>) -> Option<VersionView> {
    let t = bare(s);
    let dash = text::first_index(t, '-');
    match core_of(t.take(dash)) {
        None => None,
        Some((major, minor, patch)) => if dash == t.len() {
            Some(VersionView { major, minor, patch, pre: Seq::empty() })
        } else if dash + 1 == t.len() {
            None
        } else {
            Some(
                VersionView { major, minor, patch, pre: text::fields(t.skip(dash + 1), '.') },
            )
        },
    }
}

/// The text of a version.
pub open spec fn version_text(v: VersionView) -> Seq<char> {
    let core = text::decimal(v.major as nat) + "."@ + text::decimal(v.minor as nat) + "."@
        + text::decimal(v.patch as nat);
    if v.pre.len() == 0 {
        core
    } else {
        core + "-"@ + text::separated(v.pre, '.')
    }
}

fn parse_core(chars: &Vec<char>, from: usize, to: usize) -> (r: Option<(u64, u64, u64)>)
    requires
        from <= to <= chars@.len(),
    ensures
        r == core_of(chars@.subrange(from as int, to as int)),
{
    let parts = text::split_fields(chars, from, to, '.');
    let ghost all = text::fields(chars@.subrange(from as int, to as int), '.');
    assert(all == text::texts(parts@));
    if parts.len() != 3 {
        return None;
    }
    assert(all[0] == parts@[0]@ && all[1] == parts@[1]@ && all[2] == parts@[2]@);
    let major = match text::parse_decimal(parts[0].as_str(), u64::MAX) {
        Some(n) => n,
        None => return None,
    };
    let minor = match text::parse_decimal(parts[1].as_str(), u64::MAX) {
        Some(n) => n,
        None => return None,
    };
    let patch = match text::parse_decimal(parts[2].as_str(), u64::MAX) {
        Some(n) => n,
        None => return None,
    };
    Some((major, minor, patch))
}

impl Version {
    /// Parses `1.2.3`, `v1.2.3`, `1.2.3-beta.1` or `v1.2.3-rc.2+build`.
    pub fn parse(text: &str) -> (r: Option<Self>)
        ensures
            match r {
                Some(v) => version_of(text@) == Some(v@),
                None => version_of(text@) is None,
            },
    {
        let chars = text::chars_of(text);
        assert(chars@.subrange(0, chars@.len() as int) =~= text@);
        let (start, end) = text::trim_range(&chars, 0, chars.len());
        let from = text::skip_leading(&chars, start, end, 'v');
        let to = text::find_char(&chars, from, end, '+');
        let ghost t = bare(text@);
        assert(t =~= chars@.subrange(from as int, to as int));
        let dash = text::find_char(&chars, from, to, '-');
        assert(t.take(dash - from) =~= chars@.subrange(from as int, dash as int));
        let (major, minor, patch) = match parse_core(&chars, from, dash) {
            Some(core) => core,
            None => return None,
        };
        if dash == to {
            let pre: Vec<String> = Vec::new();
            assert(text::texts(pre@) =~= Seq::empty());
            return Some(Version { major, minor, patch, pre });
        }
        if dash + 1 == to {
            return None;
        }
        assert(t.skip(dash - from + 1) =~= chars@.subrange(dash + 1, to as int));
        let pre = text::split_fields(&chars, dash + 1, to, '.');
        Some(Version { major, minor, patch, pre })
    }

    /// True for `1.2.3-beta.1`, false for `1.2.3`.
    pub fn is_prerelease(&self) -> (r: bool)
        ensures
            r == (self@.pre.len() > 0),
    {
        self.pre.len() > 0
    }

    /// The version as text, without a leading `v`.
    pub fn text(&self) -> (r: String)
        ensures
            r@ == version_text(self@),
    {
        let core = text::text5(
            text::decimal_text(self.major).as_str(),
            ".",
            text::decimal_text(self.minor).as_str(),
            ".",
            text::decimal_text(self.patch).as_str(),
        );
        if self.pre.len() == 0 {
            core
        } else {
            text::text3(core.as_str(), "-", text::join(&self.pre, '.').as_str())
        }
    }
}

// ---------------------------------------------------------------------------
// Precedence
// ---------------------------------------------------------------------------

/// -1, 0 or 1, as `a` is below, at or above `b`.
pub open spec fn compared(a: int, b: int) -> int {
    if a < b {
        -1
    } else if a > b {
        1
    } else {
        0
    }
}

/// The order of two texts: the first character that differs decides, and a
/// text comes before what continues it.
pub open spec fn text_order(a: Seq<char>, b: Seq<char>) -> int
    decreases a.len(),
{
    if a.len() == 0 || b.len() == 0 {
        compared(a.len() as int, b.len() as int)
    } else if a[0] != b[0] {
        compared(a[0] as int, b[0] as int)
    } else {
        text_order(a.skip(1), b.skip(1))
    }
}

/// The order of two pre-release identifiers: numbers by value, and before
/// everything else.
pub open spec fn identifier_order(a: Seq<char>, b: Seq<char>) -> int {
    match (number(a), number(b)) {
        (Some(m), Some(n)) => compared(m as int, n as int),
        (Some(_), None) => -1,
        (None, Some(_)) => 1,
        (None, None) => text_order(a, b),
    }
}

/// The order of two lists of pre-release identifiers: the first that differ
/// decide, and a list comes before what continues it.
pub open spec fn tag_order(a: Seq<Seq<char>>, b: Seq<Seq<char>>) -> int
    decreases a.len(),
{
    if a.len() == 0 || b.len() == 0 {
        compared(a.len() as int, b.len() as int)
    } else if identifier_order(a[0], b[0]) != 0 {
        identifier_order(a[0], b[0])
    } else {
        tag_order(a.skip(1), b.skip(1))
    }
}

/// The order of two versions: the three numbers decide, and then the
/// pre-release identifiers. A release comes after its pre-releases.
pub open spec fn version_order(a: VersionView, b: VersionView) -> int {
    if a.major != b.major {
        compared(a.major as int, b.major as int)
    } else if a.minor != b.minor {
        compared(a.minor as int, b.minor as int)
    } else if a.patch != b.patch {
        compared(a.patch as int, b.patch as int)
    } else if a.pre.len() == 0 && b.pre.len() == 0 {
        0
    } else if a.pre.len() == 0 {
        1
    } else if b.pre.len() == 0 {
        -1
    } else {
        tag_order(a.pre, b.pre)
    }
}

fn order_of(a: u64, b: u64) -> (r: i8)
    ensures
        r == compared(a as int, b as int),
{
    if a < b {
        -1
    } else if a > b {
        1
    } else {
        0
    }
}

fn order_texts(a: &str, b: &str) -> (r: i8)
    ensures
        r == text_order(a@, b@),
{
    let x = text::chars_of(a);
    let y = text::chars_of(b);
    let mut i: usize = 0;
    assert(x@.skip(0) =~= a@ && y@.skip(0) =~= b@);
    while i < x.len() && i < y.len()
        invariant
            i <= x@.len(),
            i <= y@.len(),
            text_order(a@, b@) == text_order(x@.skip(i as int), y@.skip(i as int)),
        decreases x@.len() - i,
    {
        let (c, d) = (x[i], y[i]);
        if c < d {
            return -1;
        }
        if c > d {
            return 1;
        }
        assert(x@.skip(i as int).skip(1) =~= x@.skip(i + 1));
        assert(y@.skip(i as int).skip(1) =~= y@.skip(i + 1));
        i = i + 1;
    }
    order_of((x.len() - i) as u64, (y.len() - i) as u64)
}

fn order_identifiers(a: &str, b: &str) -> (r: i8)
    ensures
        r == identifier_order(a@, b@),
{
    match (text::parse_decimal(a, u64::MAX), text::parse_decimal(b, u64::MAX)) {
        (Some(m), Some(n)) => order_of(m, n),
        (Some(_), None) => -1,
        (None, Some(_)) => 1,
        (None, None) => order_texts(a, b),
    }
}

fn order_tags(a: &Vec<String>, b: &Vec<String>) -> (r: i8)
    ensures
        r == tag_order(text::texts(a@), text::texts(b@)),
{
    let ghost x = text::texts(a@);
    let ghost y = text::texts(b@);
    let mut i: usize = 0;
    assert(x.skip(0) =~= x && y.skip(0) =~= y);
    while i < a.len() && i < b.len()
        invariant
            x == text::texts(a@),
            y == text::texts(b@),
            i <= a@.len(),
            i <= b@.len(),
            tag_order(x, y) == tag_order(x.skip(i as int), y.skip(i as int)),
        decreases a@.len() - i,
    {
        let order = order_identifiers(a[i].as_str(), b[i].as_str());
        assert(x.skip(i as int)[0] == a@[i as int]@ && y.skip(i as int)[0] == b@[i as int]@);
        if order != 0 {
            return order;
        }
        assert(x.skip(i as int).skip(1) =~= x.skip(i + 1));
        assert(y.skip(i as int).skip(1) =~= y.skip(i + 1));
        i = i + 1;
    }
    order_of((a.len() - i) as u64, (b.len() - i) as u64)
}

impl Version {
    /// -1, 0 or 1, as this version comes before, with or after `other`.
    pub fn order(&self, other: &Version) -> (r: i8)
        ensures
            r == version_order(self@, other@),
    {
        if self.major != other.major {
            order_of(self.major, other.major)
        } else if self.minor != other.minor {
            order_of(self.minor, other.minor)
        } else if self.patch != other.patch {
            order_of(self.patch, other.patch)
        } else if self.pre.len() == 0 {
            // A release is newer than any of its pre-releases.
            if other.pre.len() == 0 {
                0
            } else {
                1
            }
        } else if other.pre.len() == 0 {
            -1
        } else {
            order_tags(&self.pre, &other.pre)
        }
    }
}

/// An order as `Ordering` tells it.
pub open spec fn ordering(order: int) -> Ordering {
    if order < 0 {
        Ordering::Less
    } else if order > 0 {
        Ordering::Greater
    } else {
        Ordering::Equal
    }
}

impl PartialOrd for Version {
    fn partial_cmp(&self, other: &Self) -> (r: Option<Ordering>) {
        let order = self.order(other);
        if order < 0 {
            Some(Ordering::Less)
        } else if order > 0 {
            Some(Ordering::Greater)
        } else {
            Some(Ordering::Equal)
        }
    }
}

impl vstd::std_specs::cmp::PartialOrdSpecImpl for Version {
    open spec fn obeys_partial_cmp_spec() -> bool {
        true
    }

    open spec fn partial_cmp_spec(&self, other: &Self) -> Option<Ordering> {
        Some(ordering(version_order(self@, other@)))
    }
}

// ---------------------------------------------------------------------------
// Laws
// ---------------------------------------------------------------------------

proof fn lemma_text_order(a: Seq<char>, b: Seq<char>, c: Seq<char>)
    ensures
        text_order(a, a) == 0,
        text_order(a, b) == -text_order(b, a),
        text_order(a, b) <= 0 && text_order(b, c) <= 0 ==> text_order(a, c) <= 0,
        text_order(a, b) < 0 && text_order(b, c) <= 0 ==> text_order(a, c) < 0,
        text_order(a, b) <= 0 && text_order(b, c) < 0 ==> text_order(a, c) < 0,
    decreases a.len() + b.len() + c.len(),
{
    if a.len() > 0 {
        lemma_text_order(
            a.skip(1),
            if b.len() > 0 {
                b.skip(1)
            } else {
                b
            },
            if c.len() > 0 {
                c.skip(1)
            } else {
                c
            },
        );
    } else if b.len() > 0 {
        lemma_text_order(
            a,
            b.skip(1),
            if c.len() > 0 {
                c.skip(1)
            } else {
                c
            },
        );
    }
}

proof fn lemma_identifier_order(a: Seq<char>, b: Seq<char>, c: Seq<char>)
    ensures
        identifier_order(a, a) == 0,
        identifier_order(a, b) == -identifier_order(b, a),
        identifier_order(a, b) <= 0 && identifier_order(b, c) <= 0 ==> identifier_order(a, c) <= 0,
        identifier_order(a, b) < 0 && identifier_order(b, c) <= 0 ==> identifier_order(a, c) < 0,
        identifier_order(a, b) <= 0 && identifier_order(b, c) < 0 ==> identifier_order(a, c) < 0,
{
    lemma_text_order(a, b, c);
}

proof fn lemma_tag_order(a: Seq<Seq<char>>, b: Seq<Seq<char>>, c: Seq<Seq<char>>)
    ensures
        tag_order(a, a) == 0,
        tag_order(a, b) == -tag_order(b, a),
        tag_order(a, b) <= 0 && tag_order(b, c) <= 0 ==> tag_order(a, c) <= 0,
        tag_order(a, b) < 0 && tag_order(b, c) <= 0 ==> tag_order(a, c) < 0,
        tag_order(a, b) <= 0 && tag_order(b, c) < 0 ==> tag_order(a, c) < 0,
    decreases a.len() + b.len() + c.len(),
{
    if a.len() > 0 {
        lemma_tag_order(
            a.skip(1),
            if b.len() > 0 {
                b.skip(1)
            } else {
                b
            },
            if c.len() > 0 {
                c.skip(1)
            } else {
                c
            },
        );
        lemma_identifier_order(a[0], b[0], c[0]);
        lemma_identifier_order(a[0], c[0], b[0]);
        lemma_identifier_order(b[0], a[0], c[0]);
        lemma_identifier_order(b[0], c[0], a[0]);
        lemma_identifier_order(c[0], b[0], a[0]);
    } else if b.len() > 0 {
        lemma_tag_order(
            a,
            b.skip(1),
            if c.len() > 0 {
                c.skip(1)
            } else {
                c
            },
        );
        lemma_identifier_order(b[0], c[0], b[0]);
    }
}

/// Precedence is an order: every version is with itself, two versions compare
/// the same from both sides, and what comes before what comes before a version
/// comes before it.
pub proof fn precedence_is_an_order(a: VersionView, b: VersionView, c: VersionView)
    ensures
        version_order(a, a) == 0,
        version_order(a, b) == -version_order(b, a),
        version_order(a, b) <= 0 && version_order(b, c) <= 0 ==> version_order(a, c) <= 0,
        version_order(a, b) < 0 && version_order(b, c) <= 0 ==> version_order(a, c) < 0,
        version_order(a, b) <= 0 && version_order(b, c) < 0 ==> version_order(a, c) < 0,
{
    lemma_tag_order(a.pre, b.pre, c.pre);
}

/// The three numbers decide by their value, the first that differ before the
/// others: 0.10.0 comes after 0.9.0. Pre-release identifiers cannot change
/// that.
pub proof fn the_numbers_decide(a: VersionView, b: VersionView)
    ensures
        a.major < b.major ==> version_order(a, b) < 0 && version_order(b, a) > 0,
        a.major == b.major && a.minor < b.minor ==> version_order(a, b) < 0 && version_order(b, a)
            > 0,
        a.major == b.major && a.minor == b.minor && a.patch < b.patch ==> version_order(a, b) < 0
            && version_order(b, a) > 0,
{
}

/// Two releases come together only where their three numbers are the same.
pub proof fn releases_are_told_apart_by_their_numbers(a: VersionView, b: VersionView)
    requires
        a.pre.len() == 0,
        b.pre.len() == 0,
    ensures
        version_order(a, b) == 0 <==> a.major == b.major && a.minor == b.minor && a.patch
            == b.patch,
{
}

/// Versions that differ in their identifiers alone.
pub open spec fn same_core(a: VersionView, b: VersionView) -> bool {
    a.major == b.major && a.minor == b.minor && a.patch == b.patch
}

proof fn lemma_tags_at(a: Seq<Seq<char>>, b: Seq<Seq<char>>, i: int)
    requires
        0 <= i <= a.len(),
        i <= b.len(),
        a.take(i) == b.take(i),
    ensures
        tag_order(a, b) == tag_order(a.skip(i), b.skip(i)),
    decreases i,
{
    if i == 0 {
        assert(a.skip(0) =~= a && b.skip(0) =~= b);
    } else {
        assert(a.take(i)[0] == a[0] && b.take(i)[0] == b[0]);
        lemma_identifier_order(a[0], a[0], a[0]);
        assert(a.skip(1).take(i - 1) =~= a.take(i).skip(1));
        assert(b.skip(1).take(i - 1) =~= b.take(i).skip(1));
        lemma_tags_at(a.skip(1), b.skip(1), i - 1);
        assert(a.skip(1).skip(i - 1) =~= a.skip(i));
        assert(b.skip(1).skip(i - 1) =~= b.skip(i));
    }
}

proof fn lemma_texts_at(a: Seq<char>, b: Seq<char>, i: int)
    requires
        0 <= i <= a.len(),
        i <= b.len(),
        a.take(i) == b.take(i),
    ensures
        text_order(a, b) == text_order(a.skip(i), b.skip(i)),
    decreases i,
{
    if i == 0 {
        assert(a.skip(0) =~= a && b.skip(0) =~= b);
    } else {
        assert(a.take(i)[0] == a[0] && b.take(i)[0] == b[0]);
        assert(a.skip(1).take(i - 1) =~= a.take(i).skip(1));
        assert(b.skip(1).take(i - 1) =~= b.take(i).skip(1));
        lemma_texts_at(a.skip(1), b.skip(1), i - 1);
        assert(a.skip(1).skip(i - 1) =~= a.skip(i));
        assert(b.skip(1).skip(i - 1) =~= b.skip(i));
    }
}

proof fn lemma_no_number(s: Seq<char>, k: int)
    requires
        0 <= k < s.len(),
        !('0' <= s[k] <= '9'),
        k == 0 ==> s[0] != '+',
    ensures
        number(s) is None,
{
    let digits = if s[0] == '+' {
        s.skip(1)
    } else {
        s
    };
    let at = if s[0] == '+' {
        k - 1
    } else {
        k
    };
    lemma_no_digits(digits, at);
}

proof fn lemma_no_digits(s: Seq<char>, k: int)
    requires
        0 <= k < s.len(),
        !('0' <= s[k] <= '9'),
    ensures
        text::digits_value(s, 10) is None,
    decreases s.len(),
{
    if k < s.len() - 1 {
        lemma_no_digits(s.drop_last(), k);
    } else {
        lemma_no_digit(s.last());
    }
}

proof fn lemma_no_digit(c: char)
    requires
        !('0' <= c <= '9'),
    ensures
        text::digit_value(c, 10) is None,
{
}

/// Numbers among the pre-release identifiers go by their value: `beta.2` comes
/// before `beta.11`.
pub proof fn numbered_prereleases_go_by_number(
    a: VersionView,
    b: VersionView,
    i: int,
    m: u64,
    n: u64,
)
    requires
        same_core(a, b),
        0 <= i < a.pre.len(),
        i < b.pre.len(),
        a.pre.take(i) == b.pre.take(i),
        a.pre[i] == text::decimal(m as nat),
        b.pre[i] == text::decimal(n as nat),
        m < n,
    ensures
        version_order(a, b) < 0,
        version_order(b, a) > 0,
{
    text::lemma_decimal(m as nat);
    text::lemma_decimal(n as nat);
    lemma_tags_at(a.pre, b.pre, i);
    precedence_is_an_order(a, b, a);
}

/// A number comes before an identifier that is none.
pub proof fn numbers_come_before_names(a: VersionView, b: VersionView, i: int, m: u64, k: int)
    requires
        same_core(a, b),
        0 <= i < a.pre.len(),
        i < b.pre.len(),
        a.pre.take(i) == b.pre.take(i),
        a.pre[i] == text::decimal(m as nat),
        0 <= k < b.pre[i].len(),
        !('0' <= b.pre[i][k] <= '9'),
        b.pre[i][0] != '+',
    ensures
        version_order(a, b) < 0,
        version_order(b, a) > 0,
{
    text::lemma_decimal(m as nat);
    lemma_no_number(b.pre[i], k);
    lemma_tags_at(a.pre, b.pre, i);
    precedence_is_an_order(a, b, a);
}

/// Identifiers that are no numbers go by the first character that differs:
/// `alpha` comes before `beta`.
pub proof fn named_prereleases_go_by_name(a: VersionView, b: VersionView, i: int, k: int)
    requires
        same_core(a, b),
        0 <= i < a.pre.len(),
        i < b.pre.len(),
        a.pre.take(i) == b.pre.take(i),
        0 <= k < a.pre[i].len(),
        k < b.pre[i].len(),
        a.pre[i].take(k) == b.pre[i].take(k),
        a.pre[i][k] < b.pre[i][k],
        number(a.pre[i]) is None,
        number(b.pre[i]) is None,
    ensures
        version_order(a, b) < 0,
        version_order(b, a) > 0,
{
    lemma_texts_at(a.pre[i], b.pre[i], k);
    lemma_tags_at(a.pre, b.pre, i);
    precedence_is_an_order(a, b, a);
}

/// Identifiers that go on where others end come later: `beta` comes before
/// `beta.1`.
pub proof fn longer_prereleases_come_later(a: VersionView, b: VersionView)
    requires
        same_core(a, b),
        0 < a.pre.len() < b.pre.len(),
        b.pre.take(a.pre.len() as int) == a.pre,
    ensures
        version_order(a, b) < 0,
        version_order(b, a) > 0,
{
    let n = a.pre.len() as int;
    assert(a.pre.take(n) =~= a.pre);
    lemma_tags_at(a.pre, b.pre, n);
    precedence_is_an_order(a, b, a);
}

/// The numbers as texts.
spec fn numerals(numbers: Seq<u64>) -> Seq<Seq<char>> {
    Seq::new(numbers.len(), |i: int| text::decimal(numbers[i] as nat))
}

proof fn lemma_dotted(numbers: Seq<u64>)
    requires
        numbers.len() > 0,
    ensures
        ({
            let s = text::separated(numerals(numbers), '.');
            &&& s.len() > 0
            &&& s[0] != '.'
            &&& s.last() != '.'
            &&& forall|i: int|
                0 <= i < s.len() ==> '0' <= #[trigger] s[i] <= '9' || s[i] == '.'
        }),
    decreases numbers.len(),
{
    let parts = numerals(numbers);
    text::lemma_decimal(numbers.last() as nat);
    if numbers.len() > 1 {
        lemma_dotted(numbers.drop_last());
        assert(parts.drop_last() =~= numerals(numbers.drop_last()));
        let head = text::separated(parts.drop_last(), '.');
        let s = text::separated(parts, '.');
        assert(s =~= head.push('.') + parts.last());
        assert(forall|i: int| 0 <= i < head.len() ==> #[trigger] s[i] == head[i]);
        assert(s.last() == parts.last().last());
    }
}

/// A version has three numbers, no fewer and no more.
pub proof fn a_version_has_three_numbers(numbers: Seq<u64>)
    requires
        numbers.len() > 0,
    ensures
        ({
            let s = text::separated(
                Seq::new(numbers.len(), |i: int| text::decimal(numbers[i] as nat)),
                '.',
            );
            &&& numbers.len() != 3 ==> version_of(s) is None
            &&& numbers.len() == 3 ==> version_of(s) == Some(
                VersionView {
                    major: numbers[0],
                    minor: numbers[1],
                    patch: numbers[2],
                    pre: Seq::empty(),
                },
            )
        }),
{
    let parts = numerals(numbers);
    let s = text::separated(parts, '.');
    lemma_dotted(numbers);
    assert(text::trimmed(s) == s);
    assert(text::without_leading(s, 'v') == s);
    text::lemma_first_index(s, '+');
    text::lemma_first_index(s, '-');
    text::lemma_first_index_is(s, '+', s.len() as int);
    text::lemma_first_index_is(s, '-', s.len() as int);
    assert(s.take(s.len() as int) =~= s);
    assert(bare(s) == s);
    assert forall|i: int| 0 <= i < parts.len() implies !(#[trigger] parts[i]).contains('.') by {
        text::lemma_decimal(numbers[i] as nat);
    }
    text::lemma_fields_separated(parts, '.');
    if numbers.len() == 3 {
        text::lemma_decimal(numbers[0] as nat);
        text::lemma_decimal(numbers[1] as nat);
        text::lemma_decimal(numbers[2] as nat);
    }
}

/// A release is newer than any of its pre-releases.
pub proof fn a_release_follows_its_prereleases(release: VersionView, pre: VersionView)
    requires
        release.pre.len() == 0,
        pre.pre.len() > 0,
        release.major == pre.major,
        release.minor == pre.minor,
        release.patch == pre.patch,
    ensures
        version_order(pre, release) < 0,
{
}

/// A leading `v` does not count.
pub proof fn a_leading_v_does_not_count(s: Seq<char>)
    requires
        s.len() > 0,
        !text::white_space(s[0]),
        !text::white_space(s.last()),
    ensures
        version_of(seq!['v'] + s) == version_of(s),
{
    let t = seq!['v'] + s;
    assert(t.skip(1) =~= s);
    assert(!text::white_space('v'));
    assert(text::trimmed(t) == t) by {
        assert(t.last() == s.last());
    }
    assert(text::trimmed(s) == s);
}

proof fn lemma_without_leading(s: Seq<char>, rest: Seq<char>, c: char)
    requires
        rest.len() > 0,
        rest[0] != c,
    ensures
        text::without_leading(s + rest, c) == text::without_leading(s, c) + rest,
    decreases s.len(),
{
    if s.len() > 0 && s[0] == c {
        assert((s + rest).skip(1) =~= s.skip(1) + rest);
        lemma_without_leading(s.skip(1), rest, c);
    } else if s.len() == 0 {
        assert(s + rest =~= rest);
    }
}

/// Build metadata does not count.
pub proof fn build_metadata_does_not_count(s: Seq<char>, metadata: Seq<char>)
    requires
        s.len() > 0,
        !text::white_space(s[0]),
        !text::white_space(s.last()),
        metadata.len() > 0 ==> !text::white_space(metadata.last()),
    ensures
        version_of(s.push('+') + metadata) == version_of(s),
{
    let rest = seq!['+'] + metadata;
    let t = s.push('+') + metadata;
    assert(t =~= s + rest);
    assert(!text::white_space('+'));
    assert(text::trimmed(t) == t) by {
        if metadata.len() > 0 {
            assert(t.last() == metadata.last());
        } else {
            assert(t.last() == '+');
        }
    }
    assert(text::trimmed(s) == s);
    lemma_without_leading(s, rest, 'v');
    let w = text::without_leading(s, 'v');
    text::lemma_first_index(w, '+');
    let i = text::first_index(w, '+');
    assert(forall|n: int| 0 <= n < w.len() ==> #[trigger] (w + rest)[n] == w[n]);
    assert((w + rest)[w.len() as int] == '+');
    text::lemma_first_index_is(w + rest, '+', i);
    assert((w + rest).take(i) =~= w.take(i));
}

/// The pre-release identifiers can be told apart in a version text.
pub open spec fn legible(v: VersionView) -> bool {
    let tag = text::separated(v.pre, '.');
    v.pre.len() > 0 ==> {
        &&& tag.len() > 0
        &&& !text::white_space(tag.last())
        &&& !tag.contains('+')
        &&& forall|i: int| 0 <= i < v.pre.len() ==> !(#[trigger] v.pre[i]).contains('.')
    }
}

/// A version reads back from its text.
pub proof fn versions_read_back(v: VersionView)
    requires
        legible(v),
    ensures
        version_of(version_text(v)) == Some(v),
{
    reveal_strlit(".");
    reveal_strlit("-");
    let (a, b, c) = (
        text::decimal(v.major as nat),
        text::decimal(v.minor as nat),
        text::decimal(v.patch as nat),
    );
    text::lemma_decimal(v.major as nat);
    text::lemma_decimal(v.minor as nat);
    text::lemma_decimal(v.patch as nat);
    let core = a + "."@ + b + "."@ + c;
    let tag = text::separated(v.pre, '.');
    let t = version_text(v);
    assert(core =~= text::separated(seq![a, b, c], '.')) by {
        reveal_with_fuel(text::separated, 3);
        assert(seq![a, b, c].drop_last() =~= seq![a, b]);
        assert(seq![a, b].drop_last() =~= seq![a]);
    }
    text::lemma_fields_separated(seq![a, b, c], '.');
    assert(core_of(core) == Some((v.major, v.minor, v.patch)));
    assert(forall|i: int|
        0 <= i < core.len() ==> #[trigger] core[i] != '-' && core[i] != '+' && core[i] != 'v'
            && !text::white_space(core[i]));
    assert(forall|i: int| core.len() < i < t.len() ==> #[trigger] t[i] == tag[i - core.len() - 1]);
    assert(forall|i: int| 0 <= i < core.len() ==> #[trigger] t[i] == core[i]);
    assert(text::trimmed(t) == t) by {
        if v.pre.len() > 0 {
            assert(t.last() == tag.last());
        } else {
            assert(t.last() == core.last());
        }
    }
    assert(text::without_leading(t, 'v') == t);
    assert(text::first_index(t, '+') == t.len()) by {
        text::lemma_first_index(t, '+');
        let i = text::first_index(t, '+');
        if i < t.len() && i > core.len() {
            assert(t[i] == tag[i - core.len() - 1]);
        }
    }
    assert(bare(t) =~= t);
    assert(text::first_index(t, '-') == core.len()) by {
        text::lemma_first_index(t, '-');
        if v.pre.len() > 0 {
            assert(t[core.len() as int] == '-');
        }
    }
    assert(t.take(core.len() as int) =~= core);
    if v.pre.len() > 0 {
        assert(t.skip(core.len() as int + 1) =~= tag);
        text::lemma_fields_separated(v.pre, '.');
    } else {
        assert(v.pre =~= Seq::empty());
    }
}

/// White space around a version does not count.
pub proof fn white_space_does_not_count(s: Seq<char>, c: char)
    requires
        text::white_space(c),
    ensures
        version_of(seq![c] + s) == version_of(s),
        version_of(s.push(c)) == version_of(s),
{
    text::white_space_around_is_trimmed(s, c);
}

/// A dash with nothing behind it is no version.
pub proof fn a_dash_needs_a_tag(v: VersionView)
    requires
        v.pre.len() == 0,
    ensures
        version_of(version_text(v).push('-')) is None,
{
    let core = version_text(v);
    let t = core.push('-');
    reveal_strlit(".");
    let (a, b, c) = (
        text::decimal(v.major as nat),
        text::decimal(v.minor as nat),
        text::decimal(v.patch as nat),
    );
    text::lemma_decimal(v.major as nat);
    text::lemma_decimal(v.minor as nat);
    text::lemma_decimal(v.patch as nat);
    assert(core == a + "."@ + b + "."@ + c);
    assert(forall|i: int|
        0 <= i < core.len() ==> #[trigger] core[i] != '-' && core[i] != '+' && core[i] != 'v'
            && !text::white_space(core[i]));
    assert(t[0] == core[0]);
    assert(!text::white_space('-'));
    assert(text::trimmed(t) == t);
    assert(text::without_leading(t, 'v') == t);
    text::lemma_first_index_is(t, '+', t.len() as int);
    assert(t.take(t.len() as int) =~= t);
    text::lemma_first_index_is(t, '-', core.len() as int);
}

} // verus!
