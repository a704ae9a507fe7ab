//! What holds of the releases that are offered, and of how they are installed.

use crate::menubar::update::{self, ApiAsset, ApiRelease};
use crate::menubar::version::{self, VersionView};
use crate::text;
use vstd::prelude::*;

verus! {

/// The three numbers of `a` come after those of `b`.
pub open spec fn higher(a: VersionView, b: VersionView) -> bool {
    ||| a.major > b.major
    ||| a.major == b.major && a.minor > b.minor
    ||| a.major == b.major && a.minor == b.minor && a.patch > b.patch
}

/// Every release with higher numbers is offered, unless it is a draft; a
/// pre-release only to those who run one.
pub proof fn a_newer_release_is_offered(listed: ApiRelease, current: VersionView, v: VersionView)
    requires
        version::version_of(listed.tag_name@) == Some(v),
        higher(v, current),
    ensures
        update::eligible(listed, current) <==> !listed.draft && (!listed.prerelease
            || current.pre.len() > 0),
{
    version::the_numbers_decide(current, v);
}

/// What is no newer is not offered: neither lower numbers, nor the release that
/// runs, nor a tag that is no version.
pub proof fn an_older_release_is_not_offered(
    listed: ApiRelease,
    current: VersionView,
    v: VersionView,
)
    ensures
        version::version_of(listed.tag_name@) is None ==> !update::eligible(listed, current),
        version::version_of(listed.tag_name@) == Some(v) && higher(current, v)
            ==> !update::eligible(listed, current),
        version::version_of(listed.tag_name@) == Some(current) ==> !update::eligible(
            listed,
            current,
        ),
        listed.draft ==> !update::eligible(listed, current),
{
    version::the_numbers_decide(v, current);
    version::precedence_is_an_order(v, current, v);
    version::precedence_is_an_order(current, current, current);
}

/// Those who run a pre-release are offered the release that it led to.
pub proof fn a_prerelease_leads_to_its_release(
    listed: ApiRelease,
    current: VersionView,
    v: VersionView,
)
    requires
        version::version_of(listed.tag_name@) == Some(v),
        !listed.draft,
        v.pre.len() == 0,
        current.pre.len() > 0,
        v.major == current.major,
        v.minor == current.minor,
        v.patch == current.patch,
    ensures
        update::eligible(listed, current),
{
    version::a_release_follows_its_prereleases(v, current);
    version::precedence_is_an_order(v, current, v);
}

/// The release that is picked may be offered, and no other one that may be comes
/// after it; of those that are as new it is the first of the list.
pub proof fn the_newest_release_is_picked(
    releases: Seq<ApiRelease>,
    current: VersionView,
    i: int,
    j: int,
)
    requires
        update::newest_at(releases, releases.len() as int, current, i),
        0 <= j < releases.len(),
        update::eligible(releases[j], current),
    ensures
        0 <= i < releases.len(),
        update::eligible(releases[i], current),
        ({
            let picked = version::version_of(releases[i].tag_name@)->0;
            let other = version::version_of(releases[j].tag_name@)->0;
            &&& !higher(other, picked)
            &&& version::version_order(other, picked) <= 0
            &&& j < i ==> version::version_order(other, picked) < 0
        }),
{
    let picked = version::version_of(releases[i].tag_name@)->0;
    let other = version::version_of(releases[j].tag_name@)->0;
    assert(releases[j] == releases[j]);
    version::the_numbers_decide(picked, other);
    version::precedence_is_an_order(picked, other, picked);
}

/// A file name ends in `.dmg`.
pub open spec fn is_image(name: Seq<char>) -> bool {
    let n = name.len() as int;
    n >= 4 && name[n - 4] == '.' && name[n - 3] == 'd' && name[n - 2] == 'm' && name[n - 1] == 'g'
}

proof fn lemma_image(name: Seq<char>)
    ensures
        text::has_suffix(name, ".dmg"@) <==> is_image(name),
{
    reveal_strlit(".dmg");
    if name.len() >= 4 {
        let tail = name.skip(name.len() - 4);
        assert(tail[0] == name[name.len() - 4] && tail[1] == name[name.len() - 3] && tail[2]
            == name[name.len() - 2] && tail[3] == name[name.len() - 1]);
        if is_image(name) {
            assert(tail =~= ".dmg"@);
        }
    }
}

proof fn lemma_first_dmg(assets: Seq<ApiAsset>)
    ensures
        0 <= update::first_dmg(assets) <= assets.len(),
        update::first_dmg(assets) < assets.len() ==> is_image(
            assets[update::first_dmg(assets)].name@,
        ),
        forall|j: int|
            0 <= j < update::first_dmg(assets) ==> !is_image((#[trigger] assets[j]).name@),
    decreases assets.len(),
{
    if assets.len() > 0 {
        lemma_image(assets[0].name@);
        if !text::has_suffix(assets[0].name@, ".dmg"@) {
            lemma_first_dmg(assets.skip(1));
            assert forall|j: int| 0 <= j < update::first_dmg(assets) implies !is_image(
                (#[trigger] assets[j]).name@,
            ) by {
                if j > 0 {
                    assert(assets[j] == assets.skip(1)[j - 1]);
                }
            }
        }
    }
}

/// What is downloaded is the first disk image of the release, and a release
/// without one is not downloaded. Version, tag and page are those of the
/// listing.
pub proof fn the_first_disk_image_is_downloaded(listed: ApiRelease)
    ensures
        ({
            let assets = listed.assets@;
            let release = update::release_of(listed);
            &&& Some(release.version) == version::version_of(listed.tag_name@)
                || version::version_of(listed.tag_name@) is None
            &&& release.tag == listed.tag_name@
            &&& release.page_url == listed.html_url@
            &&& match release.dmg_url {
                None => forall|j: int|
                    0 <= j < assets.len() ==> !is_image((#[trigger] assets[j]).name@),
                Some(url) => exists|i: int|
                    {
                        &&& 0 <= i < assets.len()
                        &&& is_image((#[trigger] assets[i]).name@)
                        &&& url == assets[i].browser_download_url@
                        &&& forall|j: int|
                            0 <= j < i ==> !is_image((#[trigger] assets[j]).name@)
                    },
            }
        }),
{
    let assets = listed.assets@;
    lemma_first_dmg(assets);
    let i = update::first_dmg(assets);
    if i < assets.len() {
        assert(is_image(assets[i].name@));
    }
}

// ---------------------------------------------------------------------------
// Paths
// ---------------------------------------------------------------------------

/// The names can stand along a path: none is empty, none is a dot, and none has
/// a slash in it.
pub open spec fn plain_names(names: Seq<Seq<char>>) -> bool {
    forall|i: int|
        0 <= i < names.len() ==> (#[trigger] names[i]).len() > 0 && names[i] != seq!['.']
            && !names[i].contains('/')
}

proof fn lemma_named(names: Seq<Seq<char>>, n: int)
    requires
        plain_names(names),
        1 <= n <= names.len() + 1,
    ensures
        update::named(seq![Seq::<char>::empty()] + names, n) == names.take(n - 1),
    decreases n,
{
    let parts = seq![Seq::<char>::empty()] + names;
    if n > 1 {
        lemma_named(names, n - 1);
        assert(parts[n - 1] == names[n - 2]);
        assert(names.take(n - 1) =~= names.take(n - 2).push(names[n - 2]));
    } else {
        reveal_with_fuel(update::named, 2);
        assert(names.take(0) =~= Seq::empty());
    }
}

/// An app runs from the bundle three names up from its binary, if and only if
/// that name ends in `.app`, in upper or lower case, with something before it.
/// Then the bundle is the path up to that name.
pub proof fn a_bundle_is_three_names_up(names: Seq<Seq<char>>)
    requires
        plain_names(names),
        names.len() > 0,
    ensures
        ({
            let exe = seq!['/'] + text::separated(names, '/');
            let bundle = update::bundle_around(exe);
            if names.len() >= 4 {
                let name = names[names.len() - 4];
                let n = name.len() as int;
                let ends = n > 4 && name[n - 4] == '.' && (name[n - 3] == 'a' || name[n - 3]
                    == 'A') && (name[n - 2] == 'p' || name[n - 2] == 'P') && (name[n - 1] == 'p'
                    || name[n - 1] == 'P');
                &&& bundle is Some <==> ends
                &&& ends ==> bundle == Some(
                    seq!['/'] + text::separated(names.take(names.len() - 3), '/'),
                )
            } else {
                bundle is None
            }
        }),
{
    let tail = text::separated(names, '/');
    let exe = seq!['/'] + tail;
    let none = Seq::<char>::empty();
    text::lemma_fields_push(none, tail, '/');
    assert(none.push('/') + tail =~= exe);
    text::lemma_fields_separated(names, '/');
    assert(text::fields(none, '/') =~= seq![none]);
    let parts = text::fields(exe, '/');
    assert(parts == seq![none] + names);
    lemma_named(names, names.len() as int + 1);
    assert(names.take(names.len() as int) =~= names);
    assert(update::path_names(exe) == names);
}

proof fn lemma_last_field(s: Seq<char>, c: char)
    ensures
        ({
            let last = text::fields(s, c).last();
            &&& text::fields(s, c).len() > 0
            &&& !last.contains(c)
            &&& last.len() <= s.len()
            &&& s.skip(s.len() - last.len()) == last
            &&& last.len() < s.len() ==> s[s.len() - last.len() - 1] == c
        }),
    decreases s.len(),
{
    text::lemma_first_index(s, c);
    let i = text::first_index(s, c);
    if i < s.len() {
        let rest = s.skip(i + 1);
        lemma_last_field(rest, c);
        let last = text::fields(rest, c).last();
        assert(text::fields(s, c).last() == last);
        assert(s.skip(s.len() - last.len()) =~= rest.skip(rest.len() - last.len()));
        if last.len() < rest.len() {
            assert(s[s.len() - last.len() - 1] == rest[rest.len() - last.len() - 1]);
        }
    } else {
        assert(s.skip(0) =~= s);
    }
}

/// A download is named by what follows the last slash of its address.
pub proof fn a_download_is_named_by_its_last_part(url: Seq<char>)
    ensures
        ({
            let name = text::after_last(url, '/');
            &&& !name.contains('/')
            &&& name.len() <= url.len()
            &&& url.skip(url.len() - name.len()) == name
            &&& name.len() < url.len() ==> url[url.len() - name.len() - 1] == '/'
        }),
{
    lemma_last_field(url, '/');
}

proof fn lemma_nothing_replaced(s: Seq<char>, c: char, by: Seq<char>)
    requires
        !s.contains(c),
    ensures
        text::replaced(s, c, by) == s,
    decreases s.len(),
{
    if s.len() > 0 {
        let head = s.drop_last();
        assert(s.contains(s.last()));
        assert(!head.contains(c)) by {
            if head.contains(c) {
                let i = choose|i: int| 0 <= i < head.len() && head[i] == c;
                assert(s[i] == c);
            }
        }
        lemma_nothing_replaced(head, c, by);
        assert(head + seq![s.last()] =~= s);
    }
}

/// A path without quotes and backslashes is put between single quotes as it is.
/// A single quote ends the quoted part, stands escaped, and starts it again; a
/// double quote and a backslash are escaped for the script around it.
pub proof fn a_path_is_quoted(path: Seq<char>)
    ensures
        !path.contains('\\') && !path.contains('"') && !path.contains('\'')
            ==> update::quoted_path(path) == seq!['\''] + path + seq!['\''],
        text::replaced(seq!['\''], '\'', "'\\''"@) == seq!['\'', '\\', '\'', '\''],
        update::quoted_path(seq!['"']) == seq!['\'', '\\', '"', '\''],
        update::quoted_path(seq!['\\']) == seq!['\'', '\\', '\\', '\''],
        update::quoted_path(seq!['\'']) == seq!['\'', '\'', '\\', '\'', '\'', '\''],
{
    reveal_strlit("'");
    reveal_strlit("\\\\");
    reveal_strlit("\\\"");
    reveal_strlit("'\\''");
    assert("'"@ =~= seq!['\'']);
    if !path.contains('\\') && !path.contains('"') && !path.contains('\'') {
        lemma_nothing_replaced(path, '\\', "\\\\"@);
        lemma_nothing_replaced(path, '"', "\\\""@);
        lemma_nothing_replaced(path, '\'', "'\\''"@);
    }
    lemma_one_replaced('\'', '\'', "'\\''"@);
    lemma_one_replaced('"', '\\', "\\\\"@);
    lemma_one_replaced('"', '"', "\\\""@);
    lemma_one_replaced('\\', '\\', "\\\\"@);
    lemma_one_replaced('\'', '\\', "\\\\"@);
    lemma_one_replaced('\'', '"', "\\\""@);
    let quote = seq!['\\', '"'];
    assert("\\\""@ =~= quote);
    lemma_nothing_replaced(quote, '\'', "'\\''"@);
    let slashes = seq!['\\', '\\'];
    assert("\\\\"@ =~= slashes);
    lemma_nothing_replaced(slashes, '"', "\\\""@);
    lemma_nothing_replaced(slashes, '\'', "'\\''"@);
    assert(update::quoted_path(seq!['"']) =~= seq!['\'', '\\', '"', '\'']);
    assert(update::quoted_path(seq!['\\']) =~= seq!['\'', '\\', '\\', '\'']);
    assert(update::quoted_path(seq!['\'']) =~= seq!['\'', '\'', '\\', '\'', '\'', '\'']);
}

proof fn lemma_one_replaced(a: char, c: char, by: Seq<char>)
    ensures
        text::replaced(seq![a], c, by) == if a == c {
            by
        } else {
            seq![a]
        },
{
    assert(seq![a].drop_last() =~= Seq::empty());
    reveal_with_fuel(text::replaced, 2);
    assert(Seq::<char>::empty() + by =~= by);
    assert(Seq::<char>::empty() + seq![a] =~= seq![a]);
}

proof fn lemma_replaced_parts(a: Seq<char>, b: Seq<char>, c: char, by: Seq<char>)
    ensures
        text::replaced(a + b, c, by) == text::replaced(a, c, by) + text::replaced(b, c, by),
    decreases b.len(),
{
    if b.len() == 0 {
        assert(a + b =~= a);
        assert(text::replaced(a, c, by) + b =~= text::replaced(a, c, by));
    } else {
        lemma_replaced_parts(a, b.drop_last(), c, by);
        assert((a + b).drop_last() =~= a + b.drop_last());
        let last = if b.last() == c {
            by
        } else {
            seq![b.last()]
        };
        assert(text::replaced(a, c, by) + text::replaced(b.drop_last(), c, by) + last
            =~= text::replaced(a, c, by) + (text::replaced(b.drop_last(), c, by) + last));
    }
}

/// Quoting goes character by character: what two paths are quoted to, one behind
/// the other, is what the whole is quoted to, without the quotes in between.
pub proof fn quoting_goes_character_by_character(a: Seq<char>, b: Seq<char>)
    ensures
        ({
            let (x, y) = (update::quoted_path(a), update::quoted_path(b));
            update::quoted_path(a + b) == x.drop_last() + y.skip(1)
        }),
{
    reveal_strlit("'");
    let (slash, quote, single) = ("\\\\"@, "\\\""@, "'\\''"@);
    let (a1, b1) = (text::replaced(a, '\\', slash), text::replaced(b, '\\', slash));
    let (a2, b2) = (text::replaced(a1, '"', quote), text::replaced(b1, '"', quote));
    lemma_replaced_parts(a, b, '\\', slash);
    lemma_replaced_parts(a1, b1, '"', quote);
    lemma_replaced_parts(a2, b2, '\'', single);
    let (x, y) = (update::quoted_path(a), update::quoted_path(b));
    assert(x.drop_last() =~= "'"@ + text::replaced(a2, '\'', single));
    assert(y.skip(1) =~= text::replaced(b2, '\'', single) + "'"@);
    assert(update::quoted_path(a + b) =~= x.drop_last() + y.skip(1));
}

/// What a command said on failure is told behind what it was for, without white
/// space around it; one that said nothing is told by what it was for.
pub proof fn a_failure_is_told(what: Seq<char>, stderr: Seq<char>)
    ensures
        text::trimmed(stderr).len() == 0 ==> update::failure_text(what, stderr) == what,
        text::trimmed(stderr).len() > 0 ==> update::failure_text(what, stderr) == what + ": "@
            + text::trimmed(stderr),
{
}

proof fn lemma_skipped(before: Seq<Seq<char>>, part: Seq<char>, behind: Seq<Seq<char>>, k: int)
    requires
        before.len() > 0,
        part.len() == 0 || part == seq!['.'],
        0 <= k <= behind.len(),
    ensures
        update::named(before + seq![part] + behind, before.len() + 1 + k) == update::named(
            before + behind,
            before.len() + k,
        ),
    decreases k,
{
    let n = before.len() as int;
    let (long, short) = (before + seq![part] + behind, before + behind);
    if k == 0 {
        assert(long[n] == part);
        lemma_named_alike(long, short, n);
    } else {
        lemma_skipped(before, part, behind, k - 1);
        assert(long[n + k] == behind[k - 1] && short[n + k - 1] == behind[k - 1]);
    }
}

proof fn lemma_named_alike(a: Seq<Seq<char>>, b: Seq<Seq<char>>, n: int)
    requires
        forall|i: int| 0 <= i < n ==> #[trigger] a[i] == b[i],
    ensures
        update::named(a, n) == update::named(b, n),
    decreases n,
{
    if n > 0 {
        lemma_named_alike(a, b, n - 1);
        assert(a[n - 1] == b[n - 1]);
    }
}

/// A second slash in a path says nothing, nor does a `.` between two slashes:
/// the bundle around a binary is the same with them and without.
pub proof fn slashes_and_dots_inside_a_path_say_nothing(a: Seq<char>, b: Seq<char>)
    ensures
        update::bundle_around(a.push('/').push('/') + b) == update::bundle_around(a.push('/') + b),
        update::bundle_around(a.push('/').push('.').push('/') + b) == update::bundle_around(
            a.push('/') + b,
        ),
{
    let (dot, none) = (seq!['.'], Seq::<char>::empty());
    let (before, behind) = (text::fields(a, '/'), text::fields(b, '/'));
    let n = behind.len() as int;
    lemma_last_field(a, '/');
    text::lemma_fields_push(a, b, '/');
    text::lemma_fields_push(a, none, '/');
    text::lemma_fields_push(a, dot, '/');
    text::lemma_fields_push(a.push('/'), b, '/');
    text::lemma_fields_push(a.push('/').push('.'), b, '/');
    assert(text::fields(none, '/') =~= seq![none]);
    assert(dot.skip(1) =~= none);
    text::lemma_first_index_is(dot, '/', 1);
    assert(text::fields(dot, '/') =~= seq![dot]);
    assert(a.push('/') + none =~= a.push('/'));
    assert(a.push('/') + dot =~= a.push('/').push('.'));
    lemma_skipped(before, none, behind, n);
    lemma_skipped(before, dot, behind, n);
    assert((a.push('/') + b)[0] == a.push('/')[0]);
    assert((a.push('/').push('/') + b)[0] == a.push('/')[0]);
    assert((a.push('/').push('.').push('/') + b)[0] == a.push('/')[0]);
}

proof fn lemma_named_all(names: Seq<Seq<char>>, n: int)
    requires
        0 <= n <= names.len(),
        forall|i: int| 0 <= i < names.len() ==> update::names_something(names, i),
    ensures
        update::named(names, n) == names.take(n),
    decreases n,
{
    if n > 0 {
        lemma_named_all(names, n - 1);
        assert(update::names_something(names, n - 1));
        assert(names.take(n) =~= names.take(n - 1).push(names[n - 1]));
    } else {
        assert(names.take(0) =~= Seq::empty());
    }
}

/// A path that does not start with a slash has a bundle like any other, and a
/// `.` at its start stays there.
pub proof fn a_relative_bundle_stays_relative(names: Seq<Seq<char>>)
    requires
        names.len() >= 4,
        plain_names(names.skip(1)),
        names[0].len() > 0,
        !names[0].contains('/'),
        update::bundle_name(names[names.len() - 4]),
    ensures
        update::bundle_around(text::separated(names, '/')) == Some(
            text::separated(names.take(names.len() - 3), '/'),
        ),
{
    assert forall|i: int| 0 <= i < names.len() implies !(#[trigger] names[i]).contains('/')
        && update::names_something(names, i) by {
        if i > 0 {
            assert(names[i] == names.skip(1)[i - 1]);
        }
    }
    let exe = text::separated(names, '/');
    text::lemma_fields_separated(names, '/');
    lemma_named_all(names, names.len() as int);
    assert(names.take(names.len() as int) =~= names);
    lemma_first_char(names);
    if names[0][0] == '/' {
        assert(names[0].contains(names[0][0]));
    }
}

proof fn lemma_first_char(names: Seq<Seq<char>>)
    requires
        names.len() > 0,
        names[0].len() > 0,
    ensures
        text::separated(names, '/').len() > 0,
        text::separated(names, '/')[0] == names[0][0],
    decreases names.len(),
{
    if names.len() > 1 {
        lemma_first_char(names.drop_last());
    }
}

} // verus!
