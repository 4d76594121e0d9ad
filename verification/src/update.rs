//! Release update check.
//!
//! Deliberately *only* a check: the client tells the user a newer version exists
//! and links to the release. Silent self-replacement would need code signing and
//! elevated writes on Windows, which is more risk than this project warrants.

use vstd::prelude::*;

use crate::text::{
    chars_of, copy_range, decimal, decimals_read_back, find, is_digit, is_space, nothing_to_split,
    number, one_more_piece, parse_number, pieces, split, split_on, text_of, trim, trim_left,
    trimmed,
};

verus! {

/// What the releases API gives us, narrowed to the fields we use.
#[derive(Debug)]
pub struct Release {
    pub tag_name: String,
    pub html_url: String,
    pub body: String,
    pub prerelease: bool,
    pub draft: bool,
}

#[derive(Debug, PartialEq, Eq)]
pub struct UpdateInfo {
    pub version: String,
    pub url: String,
    pub notes: String,
}

/// Why there is no answer.
#[derive(Debug)]
pub enum UpdateError {
    /// The text does not start like a version number.
    Version(String),
    /// The repository is not of the form `owner/repo`.
    Repo(String),
}

impl UpdateError {
    pub fn message(&self) -> (r: String)
        ensures
            r@ == match *self {
                UpdateError::Version(text) => "无法解析版本号: "@ + text@,
                UpdateError::Repo(repo) => "仓库格式应为 owner/repo: "@ + repo@,
            },
    {
        match self {
            UpdateError::Version(text) => "无法解析版本号: ".to_string().concat(text.as_str()),
            UpdateError::Repo(repo) => "仓库格式应为 owner/repo: ".to_string().concat(
                repo.as_str(),
            ),
        }
    }
}

/// A semantic version, compared field by field.
///
/// Only `major.minor.patch` is understood; a pre-release suffix is ignored for
/// ordering, which is fine because pre-releases are filtered out earlier.
#[derive(Debug, Clone, Copy, PartialEq, Eq, Structural)]
pub struct Version(pub u32, pub u32, pub u32);

/// `s` without the letters `v` and `V` at its start.
pub open spec fn without_v(s: Seq<char>) -> Seq<char>
    decreases s.len(),
{
    if s.len() > 0 && (s[0] == 'v' || s[0] == 'V') {
        without_v(s.drop_first())
    } else {
        s
    }
}

/// `s` up to the first `-` or `+`.
pub open spec fn before_suffix(s: Seq<char>) -> Seq<char>
    decreases s.len(),
{
    if s.len() == 0 || s[0] == '-' || s[0] == '+' {
        Seq::empty()
    } else {
        seq![s[0]] + before_suffix(s.drop_first())
    }
}

/// One of the numbers between the dots. A part that is missing counts as zero.
pub open spec fn version_part(parts: Seq<Seq<char>>, i: int) -> Option<int> {
    if i < parts.len() {
        number(parts[i], u32::MAX as int)
    } else {
        Some(0)
    }
}

pub open spec fn or_zero(n: Option<int>) -> u32 {
    match n {
        Some(v) => v as u32,
        None => 0,
    }
}

/// The version that a text stands for: its first number has to be there, the
/// others count as zero when they are not.
pub open spec fn version_of(text: Seq<char>) -> Option<Version> {
    let parts = split_on(before_suffix(without_v(trim(text))), '.');
    match version_part(parts, 0) {
        Some(major) => Some(
            Version(
                major as u32,
                or_zero(version_part(parts, 1)),
                or_zero(version_part(parts, 2)),
            ),
        ),
        None => None,
    }
}

impl Version {
    pub open spec fn exceeds(self, other: Version) -> bool {
        ||| self.0 > other.0
        ||| self.0 == other.0 && self.1 > other.1
        ||| self.0 == other.0 && self.1 == other.1 && self.2 > other.2
    }

    pub fn parse(text: &str) -> (r: Result<Version, UpdateError>)
        ensures
            match version_of(text@) {
                Some(v) => r == Ok::<_, UpdateError>(v),
                None => r matches Err(UpdateError::Version(t)) && t@ == text@,
            },
    {
        let cs = trimmed(text);
        let from: usize = skip_v(cs.as_slice());
        let (_, cleaned) = cs.as_slice().split_at(from);
        assert(cleaned@ == without_v(trim(text@)));
        let to: usize = suffix_start(cleaned);
        let core = copy_range(cleaned, 0, to);
        assert(core@ == before_suffix(cleaned@));
        let parts = split(core.as_slice(), '.');
        match part(&parts, 0) {
            Some(major) => Ok(
                Version(major, part(&parts, 1).unwrap_or(0), part(&parts, 2).unwrap_or(0)),
            ),
            None => Err(UpdateError::Version(text.to_string())),
        }
    }

    /// Whether this version comes after `other`.
    pub fn newer_than(self, other: Version) -> (r: bool)
        ensures
            r == self.exceeds(other),
    {
        self.0 > other.0 || (self.0 == other.0 && self.1 > other.1) || (self.0 == other.0
            && self.1 == other.1 && self.2 > other.2)
    }
}

fn skip_v(cs: &[char]) -> (r: usize)
    ensures
        r <= cs@.len(),
        cs@.skip(r as int) == without_v(cs@),
{
    let mut i: usize = 0;
    assert(cs@.skip(0) == cs@);
    while i < cs.len() && (cs[i] == 'v' || cs[i] == 'V')
        invariant
            i <= cs@.len(),
            without_v(cs@.skip(i as int)) == without_v(cs@),
        decreases cs@.len() - i,
    {
        assert(cs@.skip(i as int).drop_first() == cs@.skip(i + 1));
        assert(cs@.skip(i as int)[0] == cs@[i as int]);
        i = i + 1;
    }
    proof {
        if i < cs@.len() {
            assert(cs@.skip(i as int)[0] == cs@[i as int]);
        }
    }
    i
}

fn suffix_start(cs: &[char]) -> (r: usize)
    ensures
        r <= cs@.len(),
        cs@.subrange(0, r as int) == before_suffix(cs@),
{
    let mut i: usize = 0;
    assert(cs@.skip(0) == cs@);
    assert(cs@.subrange(0, 0) + before_suffix(cs@) == before_suffix(cs@));
    while i < cs.len() && cs[i] != '-' && cs[i] != '+'
        invariant
            i <= cs@.len(),
            cs@.subrange(0, i as int) + before_suffix(cs@.skip(i as int)) == before_suffix(cs@),
        decreases cs@.len() - i,
    {
        let ghost rest = cs@.skip(i as int);
        assert(rest.drop_first() == cs@.skip(i + 1));
        assert(rest[0] == cs@[i as int]);
        assert(cs@.subrange(0, i as int) + (seq![rest[0]] + before_suffix(rest.drop_first()))
            == cs@.subrange(0, i + 1) + before_suffix(cs@.skip(i + 1)));
        i = i + 1;
    }
    proof {
        let rest = cs@.skip(i as int);
        if i < cs@.len() {
            assert(rest[0] == cs@[i as int]);
        }
        assert(cs@.subrange(0, i as int) + before_suffix(rest) == cs@.subrange(0, i as int));
    }
    i
}

fn part(parts: &Vec<Vec<char>>, i: usize) -> (r: Option<u32>)
    ensures
        match r {
            Some(n) => version_part(pieces(parts@), i as int) == Some(n as int),
            None => version_part(pieces(parts@), i as int) is None,
        },
{
    if i < parts.len() {
        match parse_number(parts[i].as_slice(), u32::MAX as u64) {
            Some(n) => Some(n as u32),
            None => None,
        }
    } else {
        Some(0)
    }
}

/// `latest` comes after `current`, both being version texts. An unparsable tag is
/// not worth nagging the user about.
pub open spec fn newer(latest: Seq<char>, current: Seq<char>) -> bool {
    match (version_of(latest), version_of(current)) {
        (Some(l), Some(c)) => l.exceeds(c),
        _ => false,
    }
}

/// Compares `latest` against `current`, both as version strings.
pub fn is_newer(latest: &str, current: &str) -> (r: bool)
    ensures
        r == newer(latest@, current@),
{
    match (Version::parse(latest), Version::parse(current)) {
        (Ok(l), Ok(c)) => l.newer_than(c),
        _ => false,
    }
}

/// The address that knows the newest release of `repo` (`owner/name`).
pub fn release_url(repo: &str) -> (r: Result<String, UpdateError>)
    ensures
        r is Ok <==> repo@.contains('/'),
        r matches Ok(url) ==> url@ == "https://api.github.com/repos/"@ + repo@
            + "/releases/latest"@,
        r matches Err(e) ==> (e matches UpdateError::Repo(name) && name@ == repo@),
{
    let cs = chars_of(repo);
    proof {
        cs@.index_of_first_ensures('/');
    }
    if find(cs.as_slice(), '/').is_none() {
        return Err(UpdateError::Repo(repo.to_string()));
    }
    Ok("https://api.github.com/repos/".to_string().concat(repo).concat("/releases/latest"))
}

/// At most 500 characters of release notes.
pub open spec fn notes_text(body: Seq<char>) -> Seq<char> {
    if body.len() > 500 {
        body.take(500)
    } else {
        body
    }
}

/// What the user is told of a release, if anything.
pub open spec fn offers(release: Release, current: Seq<char>, told: Option<UpdateInfo>) -> bool {
    &&& told is Some <==> !release.draft && !release.prerelease && newer(release.tag_name@, current)
    &&& told matches Some(info) ==> {
        &&& info.version@ == without_v(release.tag_name@)
        &&& info.url == release.html_url
        &&& info.notes@ == notes_text(release.body@)
    }
}

/// What to tell the user of a release: nothing of a draft, of a pre-release, or
/// of one that is no newer than the running build.
pub fn offer(release: &Release, current_version: &str) -> (r: Option<UpdateInfo>)
    ensures
        offers(*release, current_version@, r),
{
    if release.draft || release.prerelease {
        return None;
    }
    if !is_newer(release.tag_name.as_str(), current_version) {
        return None;
    }
    let tag = chars_of(release.tag_name.as_str());
    let from: usize = skip_v(tag.as_slice());
    let version = text_of(tag.as_slice(), from, tag.len());
    assert(version@ == tag@.skip(from as int));
    let body = chars_of(release.body.as_str());
    let keep: usize = if body.len() > 500 {
        500
    } else {
        body.len()
    };
    let notes = text_of(body.as_slice(), 0, keep);
    assert(notes@ == notes_text(release.body@));
    Some(UpdateInfo { version, url: release.html_url.clone(), notes })
}

/// Version of the running build.
pub fn current_version() -> (r: &'static str)
    ensures
        r@ == crate::VERSION@,
{
    crate::VERSION
}

/// No version is newer than itself.
pub proof fn never_newer_than_itself(v: Seq<char>)
    ensures
        !newer(v, v),
{
}

/// Of two versions at most one is newer.
pub proof fn newer_is_asymmetric(a: Seq<char>, b: Seq<char>)
    requires
        newer(a, b),
    ensures
        !newer(b, a),
{
}

/// Newer than something newer is newer.
pub proof fn newer_is_transitive(a: Seq<char>, b: Seq<char>, c: Seq<char>)
    requires
        newer(a, b),
        newer(b, c),
    ensures
        newer(a, c),
{
}

/// Of two different versions one comes after the other, and never both.
pub proof fn versions_are_ordered(a: Version, b: Version)
    ensures
        a != b ==> a.exceeds(b) || b.exceeds(a),
        a == b ==> !a.exceeds(b),
        a.exceeds(b) ==> !b.exceeds(a),
{
}

/// Raising one of the numbers, whatever the numbers behind it do, gives a newer
/// version; raising one that stands behind a lower one does not.
pub proof fn raising_a_number_gives_a_newer_version(v: Version, up: u32, x: u32, y: u32)
    ensures
        up > v.0 ==> Version(up, x, y).exceeds(v),
        up < v.0 ==> !Version(up, x, y).exceeds(v),
        up > v.1 ==> Version(v.0, up, x).exceeds(v),
        up < v.1 ==> !Version(v.0, up, x).exceeds(v),
        up > v.2 <==> Version(v.0, v.1, up).exceeds(v),
{
}

/// The text of a version, as it is written in a tag or by the running build: with or
/// without the letter, and with or without a suffix behind the numbers.
pub open spec fn tag_text(letter: bool, a: u32, b: u32, c: u32, suffix: Seq<char>) -> Seq<char> {
    (if letter {
        seq!['v']
    } else {
        Seq::empty()
    }) + decimal(a as nat) + seq!['.'] + decimal(b as nat) + seq!['.'] + decimal(c as nat)
        + suffix
}

/// A version text is read as the numbers in it, whatever its suffix.
pub proof fn versions_read_back(letter: bool, a: u32, b: u32, c: u32, suffix: Seq<char>)
    requires
        suffix.len() > 0 ==> (suffix[0] == '-' || suffix[0] == '+') && !is_space(suffix.last()),
    ensures
        version_of(tag_text(letter, a, b, c, suffix)) == Some(Version(a, b, c)),
{
    let x = decimal(a as nat);
    let y = decimal(b as nat);
    let z = decimal(c as nat);
    let text = tag_text(letter, a, b, c, suffix);
    let core = (x.push('.') + y).push('.') + z;
    let body = core + suffix;
    assert(letter ==> text =~= seq!['v'] + body);
    assert(!letter ==> text =~= body);
    number_texts(a);
    number_texts(b);
    number_texts(c);
    dotted_numbers(x, y, z);
    tag_is_trimmed(letter, x, core, suffix, text);
    suffix_is_cut(core, suffix);
    assert(split_on(before_suffix(without_v(trim(text))), '.') == seq![x, y, z]);
}

proof fn number_texts(n: u32)
    ensures
        decimal(n as nat).len() > 0,
        forall|i: int|
            0 <= i < decimal(n as nat).len() ==> '0' <= #[trigger] decimal(n as nat)[i] <= '9',
        number(decimal(n as nat), u32::MAX as int) == Some(n as int),
{
    decimals_read_back(n as nat);
}

/// A tag has no white space around it, and one letter at most before its numbers.
proof fn tag_is_trimmed(
    letter: bool,
    x: Seq<char>,
    core: Seq<char>,
    suffix: Seq<char>,
    text: Seq<char>,
)
    requires
        x.len() > 0,
        '0' <= x[0] <= '9',
        core.len() > 0,
        core[0] == x[0],
        '0' <= core.last() <= '9',
        suffix.len() > 0 ==> !is_space(suffix.last()),
        letter ==> text == seq!['v'] + (core + suffix),
        !letter ==> text == core + suffix,
    ensures
        without_v(trim(text)) == core + suffix,
{
    let body = core + suffix;
    assert(body[0] == x[0]);
    assert(text[0] == if letter {
        'v'
    } else {
        x[0]
    });
    assert(!is_space(text[0]));
    assert(trim_left(text) == text);
    assert(text.last() == if suffix.len() > 0 {
        suffix.last()
    } else {
        core.last()
    });
    assert(trim(text) == text);
    assert(without_v(body) == body);
    if letter {
        assert(text.drop_first() =~= body);
    }
}

/// Three numbers with dots between them come apart again.
proof fn dotted_numbers(x: Seq<char>, y: Seq<char>, z: Seq<char>)
    requires
        x.len() > 0,
        z.len() > 0,
        forall|i: int| 0 <= i < x.len() ==> '0' <= #[trigger] x[i] <= '9',
        forall|i: int| 0 <= i < y.len() ==> '0' <= #[trigger] y[i] <= '9',
        forall|i: int| 0 <= i < z.len() ==> '0' <= #[trigger] z[i] <= '9',
    ensures
        ({
            let core = (x.push('.') + y).push('.') + z;
            &&& core.len() > 0
            &&& core[0] == x[0]
            &&& core.last() == z.last()
            &&& '0' <= core.last() <= '9'
            &&& forall|i: int|
                0 <= i < core.len() ==> core[i] == '.' || '0' <= #[trigger] core[i] <= '9'
            &&& split_on(core, '.') == seq![x, y, z]
        }),
{
    let head = x.push('.') + y;
    let core = head.push('.') + z;
    assert forall|i: int| 0 <= i < core.len() implies core[i] == '.' || '0' <= #[trigger] core[i]
        <= '9' by {
        if i < x.len() {
            assert(core[i] == x[i]);
        } else if x.len() < i < x.len() + 1 + y.len() {
            assert(core[i] == y[i - x.len() - 1]);
        } else if i > x.len() + 1 + y.len() {
            assert(core[i] == z[i - x.len() - y.len() - 2]);
        }
    }
    assert(core.last() == z[z.len() - 1]);
    assert(split_on(core, '.') == seq![x, y, z]) by {
        assert(!x.contains('.') && !y.contains('.') && !z.contains('.'));
        nothing_to_split(x, '.');
        one_more_piece(x, y, '.');
        one_more_piece(head, z, '.');
        assert(split_on(core, '.') =~= seq![x, y, z]);
    }
}

proof fn suffix_is_cut(core: Seq<char>, suffix: Seq<char>)
    requires
        forall|i: int| 0 <= i < core.len() ==> core[i] == '.' || '0' <= #[trigger] core[i] <= '9',
        suffix.len() > 0 ==> suffix[0] == '-' || suffix[0] == '+',
    ensures
        before_suffix(core + suffix) == core,
    decreases core.len(),
{
    let text = core + suffix;
    if core.len() == 0 {
        assert(text =~= suffix);
    } else {
        assert(text[0] == core[0]);
        assert forall|i: int| 0 <= i < core.drop_first().len() implies core.drop_first()[i] == '.'
            || '0' <= #[trigger] core.drop_first()[i] <= '9' by {
            assert(core.drop_first()[i] == core[i + 1]);
        }
        suffix_is_cut(core.drop_first(), suffix);
        assert(text.drop_first() =~= core.drop_first() + suffix);
        assert(seq![core[0]] + core.drop_first() =~= core);
    }
}

/// One release is newer than another exactly when the first of the numbers in which
/// they differ is greater.
pub proof fn newer_by_the_first_number_that_differs(
    a: u32,
    b: u32,
    c: u32,
    x: u32,
    y: u32,
    z: u32,
)
    ensures
        ({
            let left = tag_text(true, a, b, c, Seq::empty());
            let right = tag_text(false, x, y, z, Seq::empty());
            &&& a != x ==> (newer(left, right) <==> a > x)
            &&& a == x && b != y ==> (newer(left, right) <==> b > y)
            &&& a == x && b == y ==> (newer(left, right) <==> c > z)
        }),
{
    versions_read_back(true, a, b, c, Seq::empty());
    versions_read_back(false, x, y, z, Seq::empty());
}

/// A text without a number at its start is no version, and no other version is newer
/// or older than it.
pub proof fn texts_without_a_number_are_no_versions(text: Seq<char>, other: Seq<char>)
    requires
        !trim(text).contains('.'),
        trim(text).len() > 0,
        !('0' <= trim(text)[0] <= '9'),
        trim(text)[0] != 'v',
        trim(text)[0] != 'V',
    ensures
        version_of(text) is None,
        !newer(text, other),
        !newer(other, text),
{
    let t = trim(text);
    assert(without_v(t) == t);
    let core = before_suffix(t);
    cut_texts_are_prefixes(t);
    if core.contains('.') {
        let k = choose|k: int| 0 <= k < core.len() && core[k] == '.';
        assert(t[k] == '.');
    }
    nothing_to_split(core, '.');
    if core.len() > 0 {
        assert(core[0] == t[0]);
        assert(!is_digit(core[0]));
    }
}

proof fn cut_texts_are_prefixes(t: Seq<char>)
    ensures
        before_suffix(t).len() <= t.len(),
        forall|i: int| 0 <= i < before_suffix(t).len() ==> before_suffix(t)[i] == #[trigger] t[i],
    decreases t.len(),
{
    if t.len() > 0 && t[0] != '-' && t[0] != '+' {
        cut_texts_are_prefixes(t.drop_first());
        let rest = before_suffix(t.drop_first());
        assert forall|i: int| 0 <= i < before_suffix(t).len() implies before_suffix(t)[i]
            == #[trigger] t[i] by {
            if i > 0 {
                assert(before_suffix(t)[i] == rest[i - 1]);
                assert(t.drop_first()[i - 1] == t[i]);
            }
        }
    }
}

/// Release notes are cut off after five hundred characters, and not before.
pub proof fn notes_are_cut_short(body: Seq<char>)
    ensures
        notes_text(body).is_prefix_of(body),
        body.len() <= 500 ==> notes_text(body) == body,
        body.len() > 500 ==> notes_text(body).len() == 500,
{
}

/// The user is told of a release exactly when it is out, and its numbers come after
/// those of the running build. It is told by its numbers, without the letter.
pub proof fn newer_releases_are_offered(
    release: Release,
    told: Option<UpdateInfo>,
    a: u32,
    b: u32,
    c: u32,
    x: u32,
    y: u32,
    z: u32,
)
    requires
        release.tag_name@ == tag_text(true, a, b, c, Seq::empty()),
        offers(release, tag_text(false, x, y, z, Seq::empty()), told),
    ensures
        ({
            let later = a > x || a == x && b > y || a == x && b == y && c > z;
            &&& told is Some <==> !release.draft && !release.prerelease && later
            &&& told matches Some(info) ==> {
                &&& info.version@ == tag_text(false, a, b, c, Seq::empty())
                &&& info.url == release.html_url
                &&& info.notes@.is_prefix_of(release.body@)
                &&& release.body@.len() <= 500 ==> info.notes@ == release.body@
            }
        }),
{
    newer_by_the_first_number_that_differs(a, b, c, x, y, z);
    let bare = tag_text(false, a, b, c, Seq::empty());
    let tag = release.tag_name@;
    number_texts(a);
    assert(bare[0] == decimal(a as nat)[0]);
    assert(tag =~= seq!['v'] + bare);
    assert(tag.drop_first() =~= bare);
    assert(without_v(bare) == bare);
    assert(without_v(tag) == bare);
}

}
