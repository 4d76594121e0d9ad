//! Text primitives: the few string operations the rest of the crate relies on,
//! stated over sequences of characters.

use vstd::prelude::*;

verus! {

/// `String::push` appends one character at the end, as the standard library
/// documents.
pub assume_specification[ String::push ](s: &mut String, c: char)
    ensures
        final(s)@ == old(s)@.push(c),
;

/// The characters of a string.
pub fn chars_of(s: &str) -> (r: Vec<char>)
    ensures
        r@ == s@,
{
    let mut out: Vec<char> = Vec::new();
    for c in it: s.chars()
        invariant
            it.seq() == s@,
            out@ == s@.take(it.index()),
    {
        assert(s@.take(it.index() + 1) == s@.take(it.index()).push(c));
        out.push(c);
    }
    assert(s@.take(s@.len() as int) == s@);
    out
}

/// The string made of `cs[from..to]`.
pub fn text_of(cs: &[char], from: usize, to: usize) -> (r: String)
    requires
        from <= to <= cs@.len(),
    ensures
        r@ == cs@.subrange(from as int, to as int),
{
    let mut out = String::new();
    let mut i: usize = from;
    while i < to
        invariant
            from <= i <= to <= cs@.len(),
            out@ == cs@.subrange(from as int, i as int),
        decreases to - i,
    {
        out.push(cs[i]);
        i = i + 1;
        assert(cs@.subrange(from as int, i as int) == cs@.subrange(from as int, i - 1).push(
            cs@[i - 1],
        ));
    }
    out
}

/// String equality.
pub fn same(a: &str, b: &str) -> (r: bool)
    ensures
        r == (a@ == b@),
{
    a.to_owned() == b.to_owned()
}

/// ASCII lower case of one character; every other character is unchanged.
pub open spec fn lower_char(c: char) -> char {
    if 'A' <= c <= 'Z' {
        (c as u32 + 32) as char
    } else {
        c
    }
}

pub open spec fn lower(s: Seq<char>) -> Seq<char> {
    s.map_values(|c: char| lower_char(c))
}

/// ASCII upper case of one character; every other character is unchanged.
pub open spec fn upper_char(c: char) -> char {
    if 'a' <= c <= 'z' {
        (c as u32 - 32) as char
    } else {
        c
    }
}

pub fn lower_one(c: char) -> (r: char)
    ensures
        r == lower_char(c),
{
    if 'A' <= c && c <= 'Z' {
        ((c as u8) + 32) as char
    } else {
        c
    }
}

pub fn upper_one(c: char) -> (r: char)
    ensures
        r == upper_char(c),
{
    if 'a' <= c && c <= 'z' {
        ((c as u8) - 32) as char
    } else {
        c
    }
}

/// `t` occurs in `s` as a contiguous piece.
pub open spec fn occurs(s: Seq<char>, t: Seq<char>) -> bool {
    exists|i: int| occurs_at(s, t, i)
}

pub open spec fn occurs_at(s: Seq<char>, t: Seq<char>, i: int) -> bool {
    0 <= i && i + t.len() <= s.len() && s.subrange(i, i + t.len()) == t
}

/// The ASCII lower-case characters of a string.
pub fn lower_of(s: &str) -> (r: Vec<char>)
    ensures
        r@ == lower(s@),
{
    let cs = chars_of(s);
    let mut out: Vec<char> = Vec::new();
    for i in 0..cs.len()
        invariant
            cs@ == s@,
            out@ == lower(s@.take(i as int)),
    {
        out.push(lower_one(cs[i]));
        assert(s@.take(i + 1) == s@.take(i as int).push(s@[i as int]));
        assert(lower(s@.take(i + 1)) == lower(s@.take(i as int)).push(lower_char(s@[i as int])));
    }
    assert(s@.take(s@.len() as int) == s@);
    out
}

/// Substring search.
pub fn contains(hay: &[char], needle: &[char]) -> (r: bool)
    ensures
        r == occurs(hay@, needle@),
{
    if needle.len() > hay.len() {
        return false;
    }
    let total: usize = hay.len();
    let last: usize = total - needle.len();
    let mut i: usize = 0;
    while i <= last
        invariant
            total == hay@.len(),
            last == hay@.len() - needle@.len(),
            i <= last + 1,
            forall|k: int| 0 <= k < i ==> !occurs_at(hay@, needle@, k),
        decreases last + 1 - i,
    {
        let mut j: usize = 0;
        while j < needle.len() && hay[i + j] == needle[j]
            invariant
                total == hay@.len(),
            last == hay@.len() - needle@.len(),
                i <= last,
                j <= needle@.len(),
                forall|k: int| 0 <= k < j ==> hay@[i + k] == needle@[k],
            decreases needle@.len() - j,
        {
            j = j + 1;
        }
        if j == needle.len() {
            assert(hay@.subrange(i as int, i + needle@.len()) == needle@);
            assert(occurs_at(hay@, needle@, i as int));
            return true;
        }
        proof {
            if occurs_at(hay@, needle@, i as int) {
                assert(hay@.subrange(i as int, i + needle@.len())[j as int] == hay@[i + j]);
            }
        }
        if i == last {
            assert forall|k: int| !occurs_at(hay@, needle@, k) by {};
            return false;
        }
        i = i + 1;
    }
    false
}

/// Decimal digits of a natural number, most significant first.
pub open spec fn decimal(n: nat) -> Seq<char>
    decreases n,
{
    if n < 10 {
        seq![digit(n)]
    } else {
        decimal(n / 10).push(digit(n % 10))
    }
}

pub open spec fn digit(n: nat) -> char {
    (48 + n) as char
}

/// `n` in decimal with leading zeros up to `width` characters.
pub open spec fn padded(n: nat, width: nat) -> Seq<char> {
    let d = decimal(n);
    if d.len() < width {
        zeros((width - d.len()) as nat) + d
    } else {
        d
    }
}

pub open spec fn zeros(n: nat) -> Seq<char> {
    Seq::new(n, |i: int| '0')
}

/// A signed number in decimal.
pub open spec fn decimal_int(n: int) -> Seq<char> {
    if n < 0 {
        seq!['-'] + decimal((-n) as nat)
    } else {
        decimal(n as nat)
    }
}

/// The decimal digits of `n`.
pub fn decimal_text(n: u64) -> (r: String)
    ensures
        r@ == decimal(n as nat),
        r@.len() >= 1,
    decreases n,
{
    if n < 10 {
        let mut out = String::new();
        out.push((48 + n as u8) as char);
        out
    } else {
        let mut out = decimal_text(n / 10);
        out.push((48 + (n % 10) as u8) as char);
        out
    }
}

/// A signed number in decimal.
pub fn signed_text(n: i64) -> (r: String)
    ensures
        r@ == decimal_int(n as int),
{
    if n < 0 {
        let mut out = String::new();
        out.push('-');
        assert(out@ == seq!['-']);
        out.concat(decimal_text((-(n as i128)) as u64).as_str())
    } else {
        decimal_text(n as u64)
    }
}

/// The decimal digits of `n`, with leading zeros up to `width` characters.
pub fn padded_text(n: u64, width: usize) -> (r: String)
    ensures
        r@ == padded(n as nat, width as nat),
{
    let d = decimal_text(n);
    let have: usize = d.as_str().unicode_len();
    let mut out = String::new();
    let mut i: usize = have;
    while i < width
        invariant
            have == d@.len(),
            d@ == decimal(n as nat),
            have <= i,
            i <= width || i == have,
            out@ == zeros((i - have) as nat),
        decreases width - i,
    {
        out.push('0');
        i = i + 1;
        assert(out@ == zeros((i - have) as nat));
    }
    out.append(d.as_str());
    assert(out@ == padded(n as nat, width as nat));
    out
}

/// Characters with the Unicode `White_Space` property.
pub open spec fn is_space(c: char) -> bool {
    let u = c as u32;
    ||| 0x09 <= u <= 0x0d
    ||| u == 0x20
    ||| u == 0x85
    ||| u == 0xa0
    ||| u == 0x1680
    ||| 0x2000 <= u <= 0x200a
    ||| u == 0x2028
    ||| u == 0x2029
    ||| u == 0x202f
    ||| u == 0x205f
    ||| u == 0x3000
}

pub fn space(c: char) -> (r: bool)
    ensures
        r == is_space(c),
{
    let u: u32 = c as u32;
    (0x09 <= u && u <= 0x0d) || u == 0x20 || u == 0x85 || u == 0xa0 || u == 0x1680 || (0x2000 <= u
        && u <= 0x200a) || u == 0x2028 || u == 0x2029 || u == 0x202f || u == 0x205f || u == 0x3000
}

/// `s` without its leading white space.
pub open spec fn trim_left(s: Seq<char>) -> Seq<char>
    decreases s.len(),
{
    if s.len() > 0 && is_space(s[0]) {
        trim_left(s.drop_first())
    } else {
        s
    }
}

/// `s` without its trailing white space.
pub open spec fn trim_right(s: Seq<char>) -> Seq<char>
    decreases s.len(),
{
    if s.len() > 0 && is_space(s.last()) {
        trim_right(s.drop_last())
    } else {
        s
    }
}

/// `s` without white space at either end.
pub open spec fn trim(s: Seq<char>) -> Seq<char> {
    trim_right(trim_left(s))
}

/// `s` without white space at either end, as characters.
pub fn trimmed(s: &str) -> (r: Vec<char>)
    ensures
        r@ == trim(s@),
{
    let cs = chars_of(s);
    let mut from: usize = 0;
    assert(cs@.skip(0) == cs@);
    while from < cs.len() && space(cs[from])
        invariant
            cs@ == s@,
            from <= cs@.len(),
            trim_left(cs@.skip(from as int)) == trim_left(s@),
        decreases cs@.len() - from,
    {
        assert(cs@.skip(from as int).drop_first() == cs@.skip(from + 1));
        assert(cs@.skip(from as int)[0] == cs@[from as int]);
        from = from + 1;
    }
    proof {
        if from < cs@.len() {
            assert(cs@.skip(from as int)[0] == cs@[from as int]);
        }
    }
    let mut to: usize = cs.len();
    assert(cs@.subrange(from as int, to as int) == cs@.skip(from as int));
    while to > from && space(cs[to - 1])
        invariant
            cs@ == s@,
            from <= to <= cs@.len(),
            trim_right(cs@.subrange(from as int, to as int)) == trim(s@),
        decreases to,
    {
        assert(cs@.subrange(from as int, to as int).drop_last() == cs@.subrange(
            from as int,
            to - 1,
        ));
        assert(cs@.subrange(from as int, to as int).last() == cs@[to - 1]);
        to = to - 1;
    }
    proof {
        if to > from {
            assert(cs@.subrange(from as int, to as int).last() == cs@[to - 1]);
        }
    }
    let mut out: Vec<char> = Vec::new();
    let mut i: usize = from;
    while i < to
        invariant
            from <= i <= to <= cs@.len(),
            out@ == cs@.subrange(from as int, i as int),
        decreases to - i,
    {
        out.push(cs[i]);
        i = i + 1;
        assert(cs@.subrange(from as int, i as int) == cs@.subrange(from as int, i - 1).push(
            cs@[i - 1],
        ));
    }
    out
}

/// Where `c` first stands.
pub fn find(cs: &[char], c: char) -> (r: Option<usize>)
    ensures
        match r {
            Some(i) => cs@.index_of_first(c) == Some(i as int) && i < cs@.len(),
            None => cs@.index_of_first(c) is None,
        },
{
    proof {
        cs@.index_of_first_ensures(c);
    }
    let mut i: usize = 0;
    while i < cs.len()
        invariant
            i <= cs@.len(),
            forall|j: int| 0 <= j < i ==> cs@[j] != c,
        decreases cs@.len() - i,
    {
        if cs[i] == c {
            proof {
                cs@.index_of_first_ensures(c);
                assert(cs@.contains(c));
            }
            return Some(i);
        }
        i = i + 1;
    }
    None
}

/// Where `c` last stands.
pub fn find_last(cs: &[char], c: char) -> (r: Option<usize>)
    ensures
        match r {
            Some(i) => cs@.index_of_last(c) == Some(i as int) && i < cs@.len(),
            None => cs@.index_of_last(c) is None,
        },
{
    proof {
        cs@.index_of_last_ensures(c);
    }
    let mut i: usize = cs.len();
    while i > 0
        invariant
            i <= cs@.len(),
            forall|j: int| i <= j < cs@.len() ==> cs@[j] != c,
        decreases i,
    {
        i = i - 1;
        if cs[i] == c {
            proof {
                cs@.index_of_last_ensures(c);
                assert(cs@.contains(c));
            }
            return Some(i);
        }
    }
    None
}

/// A copy of a list of strings.
pub fn clone_strings(v: &Vec<String>) -> (r: Vec<String>)
    ensures
        r@ == v@,
{
    let mut out: Vec<String> = Vec::new();
    for i in 0..v.len()
        invariant
            out@ == v@.take(i as int),
    {
        out.push(v[i].clone());
        assert(v@.take(i + 1) == v@.take(i as int).push(v@[i as int]));
    }
    assert(v@.take(v@.len() as int) == v@);
    out
}

/// A copy of an optional string.
pub fn clone_option(v: &Option<String>) -> (r: Option<String>)
    ensures
        r == *v,
{
    match v {
        Some(s) => Some(s.clone()),
        None => None,
    }
}

/// The pieces of `s` between occurrences of `sep`; one more than there are of
/// them.
pub open spec fn split_on(s: Seq<char>, sep: char) -> Seq<Seq<char>>
    decreases s.len(),
{
    match s.index_of_first(sep) {
        Some(i) => if 0 <= i < s.len() {
            seq![s.take(i)] + split_on(s.skip(i + 1), sep)
        } else {
            seq![s]
        },
        None => seq![s],
    }
}

/// Lists of characters, by what they hold.
pub open spec fn pieces(v: Seq<Vec<char>>) -> Seq<Seq<char>> {
    v.map_values(|p: Vec<char>| p@)
}

/// Splits at every occurrence of `sep`.
pub fn split(cs: &[char], sep: char) -> (r: Vec<Vec<char>>)
    ensures
        pieces(r@) == split_on(cs@, sep),
        r@.len() >= 1,
{
    let mut out: Vec<Vec<char>> = Vec::new();
    let total: usize = cs.len();
    let mut from: usize = 0;
    assert(cs@.skip(0) == cs@);
    assert(pieces(out@) + split_on(cs@, sep) =~= split_on(cs@, sep));
    loop
        invariant
            total == cs@.len(),
            from <= cs@.len(),
            pieces(out@) + split_on(cs@.skip(from as int), sep) == split_on(cs@, sep),
        decreases cs@.len() - from,
    {
        let ghost rest = cs@.skip(from as int);
        let (_, tail) = cs.split_at(from);
        assert(tail@ == rest);
        proof {
            rest.index_of_first_ensures(sep);
        }
        match find(tail, sep) {
            Some(i) => {
                let piece = copy_range(tail, 0, i);
                let ghost before = out@;
                out.push(piece);
                proof {
                    assert(piece@ =~= rest.take(i as int));
                    assert(pieces(out@) =~= pieces(before).push(rest.take(i as int)));
                    assert(rest.skip(i + 1) =~= cs@.skip(from + i + 1));
                    assert(pieces(before) + (seq![rest.take(i as int)] + split_on(
                        rest.skip(i + 1),
                        sep,
                    )) =~= pieces(out@) + split_on(rest.skip(i + 1), sep));
                }
                from = from + i + 1;
            },
            None => {
                let piece = copy_range(tail, 0, tail.len());
                let ghost before = out@;
                out.push(piece);
                proof {
                    assert(piece@ =~= rest);
                    assert(pieces(out@) =~= pieces(before) + seq![rest]);
                }
                return out;
            },
        }
    }
}

/// The characters `cs[from..to]`.
pub fn copy_range(cs: &[char], from: usize, to: usize) -> (r: Vec<char>)
    requires
        from <= to <= cs@.len(),
    ensures
        r@ == cs@.subrange(from as int, to as int),
{
    let mut out: Vec<char> = Vec::new();
    let mut i: usize = from;
    while i < to
        invariant
            from <= i <= to <= cs@.len(),
            out@ == cs@.subrange(from as int, i as int),
        decreases to - i,
    {
        out.push(cs[i]);
        i = i + 1;
        assert(cs@.subrange(from as int, i as int) == cs@.subrange(from as int, i - 1).push(
            cs@[i - 1],
        ));
    }
    out
}

pub open spec fn is_digit(c: char) -> bool {
    '0' <= c <= '9'
}

/// The number that decimal digits stand for.
pub open spec fn digits_value(s: Seq<char>) -> int
    decreases s.len(),
{
    if s.len() == 0 {
        0
    } else {
        digits_value(s.drop_last()) * 10 + (s.last() as int - 48)
    }
}

/// The number that a text stands for: digits only, at least one, and at most
/// `max`.
pub open spec fn number(s: Seq<char>, max: int) -> Option<int> {
    if s.len() > 0 && (forall|i: int| 0 <= i < s.len() ==> is_digit(#[trigger] s[i]))
        && digits_value(s) <= max {
        Some(digits_value(s))
    } else {
        None
    }
}

proof fn digits_grow(s: Seq<char>, n: int)
    requires
        0 <= n <= s.len(),
        forall|i: int| 0 <= i < s.len() ==> is_digit(#[trigger] s[i]),
    ensures
        0 <= digits_value(s.take(n)) <= digits_value(s),
    decreases s.len(),
{
    if n == s.len() {
        assert(s.take(n) == s);
        if s.len() > 0 {
            digits_grow(s.drop_last(), s.len() - 1);
            assert(s.drop_last().take(s.len() - 1) == s.drop_last());
            assert(is_digit(s[s.len() - 1]));
        }
    } else {
        digits_grow(s.drop_last(), n);
        assert(s.drop_last().take(n) == s.take(n));
        assert(is_digit(s[s.len() - 1]));
    }
}

/// Reads a number of at most `max`.
pub fn parse_number(cs: &[char], max: u64) -> (r: Option<u64>)
    ensures
        match r {
            Some(n) => number(cs@, max as int) == Some(n as int),
            None => number(cs@, max as int) is None,
        },
{
    if cs.len() == 0 {
        return None;
    }
    let mut n: u128 = 0;
    let mut i: usize = 0;
    let mut ok = true;
    while i < cs.len() && ok
        invariant
            i <= cs@.len(),
            ok ==> {
                &&& n == digits_value(cs@.take(i as int))
                &&& n <= max
                &&& forall|k: int| 0 <= k < i ==> is_digit(#[trigger] cs@[k])
            },
            !ok ==> number(cs@, max as int) is None,
        decreases cs@.len() - i,
    {
        assert(cs@.take(i + 1).drop_last() == cs@.take(i as int));
        assert(cs@.take(i + 1).last() == cs@[i as int]);
        let c = cs[i];
        if '0' <= c && c <= '9' {
            n = n * 10 + (c as u32 - 48) as u128;
            if n > max as u128 {
                ok = false;
                proof {
                    if forall|k: int| 0 <= k < cs@.len() ==> is_digit(#[trigger] cs@[k]) {
                        digits_grow(cs@, i + 1);
                    }
                }
            }
        } else {
            ok = false;
        }
        i = i + 1;
    }
    if ok {
        assert(cs@.take(cs@.len() as int) == cs@);
        Some(n as u64)
    } else {
        None
    }
}

/// The number that a text stands for when a plus sign may lead it.
pub open spec fn unsigned(s: Seq<char>, max: int) -> Option<int> {
    if s.len() > 0 && s[0] == '+' {
        number(s.drop_first(), max)
    } else {
        number(s, max)
    }
}

/// Reads an unsigned number, as the standard library does.
pub fn parse_u64(text: &str) -> (r: Option<u64>)
    ensures
        match r {
            Some(n) => unsigned(text@, u64::MAX as int) == Some(n as int),
            None => unsigned(text@, u64::MAX as int) is None,
        },
{
    let cs = chars_of(text);
    if cs.len() > 0 && cs[0] == '+' {
        let (_, rest) = cs.as_slice().split_at(1);
        assert(rest@ == text@.drop_first());
        parse_number(rest, u64::MAX)
    } else {
        parse_number(cs.as_slice(), u64::MAX)
    }
}

/// `s` without white space at either end.
pub fn trimmed_text(s: &str) -> (r: String)
    ensures
        r@ == trim(s@),
{
    let cs = trimmed(s);
    let n: usize = cs.len();
    assert(cs@.subrange(0, n as int) == cs@);
    text_of(cs.as_slice(), 0, n)
}

/// Whether `t` occurs in `s`.
pub fn has(s: &str, t: &str) -> (r: bool)
    ensures
        r == occurs(s@, t@),
{
    contains(chars_of(s).as_slice(), chars_of(t).as_slice())
}

/// What follows `prefix` in `s`, if `s` starts with it.
pub open spec fn after_prefix(s: Seq<char>, prefix: Seq<char>) -> Option<Seq<char>> {
    if prefix.is_prefix_of(s) {
        Some(s.skip(prefix.len() as int))
    } else {
        None
    }
}

/// What follows `prefix` in `s`, if `s` starts with it.
pub fn strip_prefix(s: &str, prefix: &str) -> (r: Option<String>)
    ensures
        match r {
            Some(rest) => after_prefix(s@, prefix@) == Some(rest@),
            None => after_prefix(s@, prefix@) is None,
        },
{
    let cs = chars_of(s);
    let ps = chars_of(prefix);
    if ps.len() > cs.len() {
        return None;
    }
    let mut i: usize = 0;
    while i < ps.len()
        invariant
            cs@ == s@,
            ps@ == prefix@,
            i <= ps@.len() <= cs@.len(),
            forall|k: int| 0 <= k < i ==> cs@[k] == ps@[k],
        decreases ps@.len() - i,
    {
        if cs[i] != ps[i] {
            assert(prefix@[i as int] != s@.subrange(0, prefix@.len() as int)[i as int]);
            return None;
        }
        i = i + 1;
    }
    assert(prefix@ == s@.subrange(0, prefix@.len() as int));
    let n: usize = cs.len();
    assert(s@.skip(prefix@.len() as int) == s@.subrange(prefix@.len() as int, n as int));
    Some(text_of(cs.as_slice(), ps.len(), n))
}

/// The texts of some strings.
pub open spec fn texts(v: Seq<String>) -> Seq<Seq<char>> {
    v.map_values(|s: String| s@)
}

/// Adds a line.
pub fn say(out: &mut Vec<String>, line: String)
    ensures
        texts(final(out)@) == texts(old(out)@).push(line@),
{
    out.push(line);
}

/// A line without the carriage return of its ending.
pub open spec fn without_cr(s: Seq<char>) -> Seq<char> {
    if s.len() > 0 && s.last() == '\r' {
        s.drop_last()
    } else {
        s
    }
}

/// The lines of a text. The last line needs no ending.
pub open spec fn lines_of(s: Seq<char>) -> Seq<Seq<char>> {
    let p = split_on(s, '\n');
    let ended = p.drop_last().map_values(|l: Seq<char>| without_cr(l));
    if p.last().len() == 0 {
        ended
    } else {
        ended.push(p.last())
    }
}

/// The lines of a text.
pub fn lines(s: &str) -> (r: Vec<String>)
    ensures
        texts(r@) == lines_of(s@),
{
    let parts = split(chars_of(s).as_slice(), '\n');
    let ghost p = split_on(s@, '\n');
    let last: usize = parts.len() - 1;
    let mut out: Vec<String> = Vec::new();
    assert(pieces(parts@).len() == parts@.len());
    for i in 0..last
        invariant
            last == parts@.len() - 1,
            pieces(parts@) == p,
            texts(out@) == p.take(i as int).map_values(|l: Seq<char>| without_cr(l)),
    {
        let line = &parts[i];
        assert(p[i as int] == line@);
        let n: usize = line.len();
        let end: usize = if n > 0 && line[n - 1] == '\r' {
            n - 1
        } else {
            n
        };
        assert(line@.subrange(0, end as int) == without_cr(line@));
        say(&mut out, text_of(line.as_slice(), 0, end));
        assert(p.take(i + 1) == p.take(i as int).push(p[i as int]));
    }
    assert(p.take(last as int) == p.drop_last());
    let line = &parts[last];
    assert(p.last() == line@);
    if line.len() > 0 {
        let n: usize = line.len();
        assert(line@.subrange(0, n as int) == line@);
        say(&mut out, text_of(line.as_slice(), 0, n));
    }
    out
}

/// Lines, one under the other.
pub open spec fn stacked(lines: Seq<Seq<char>>) -> Seq<char>
    decreases lines.len(),
{
    if lines.len() == 0 {
        Seq::empty()
    } else if lines.len() == 1 {
        lines[0]
    } else {
        stacked(lines.drop_last()).push('\n') + lines.last()
    }
}

/// Lines from the given one on, one under the other.
pub fn stack(lines: &Vec<String>, from: usize) -> (r: String)
    requires
        from <= lines@.len(),
    ensures
        r@ == stacked(texts(lines@).skip(from as int)),
{
    let ghost t = texts(lines@).skip(from as int);
    let mut out = String::new();
    let mut i: usize = from;
    assert(t.take(0).len() == 0);
    while i < lines.len()
        invariant
            from <= i <= lines@.len(),
            t == texts(lines@).skip(from as int),
            out@ == stacked(t.take(i - from)),
        decreases lines@.len() - i,
    {
        assert(t.take(i - from + 1).drop_last() == t.take(i - from));
        assert(t.take(i - from + 1).last() == lines@[i as int]@);
        if i > from {
            out.push('\n');
        } else {
            assert(out@ == Seq::<char>::empty());
            assert(Seq::<char>::empty() + lines@[i as int]@ == lines@[i as int]@);
        }
        out.append(lines[i].as_str());
        i = i + 1;
    }
    assert(t.take(t.len() as int) == t);
    out
}

/// Every text of the one list is in the other.
pub open spec fn covers(list: Seq<Seq<char>>, part: Seq<Seq<char>>) -> bool {
    forall|i: int| 0 <= i < part.len() ==> list.contains(#[trigger] part[i])
}

/// Whether a text is in a list.
pub fn holds(list: &Vec<String>, s: &str) -> (r: bool)
    ensures
        r == texts(list@).contains(s@),
{
    let ghost t = texts(list@);
    for i in 0..list.len()
        invariant
            t == texts(list@),
            forall|j: int| 0 <= j < i ==> #[trigger] t[j] != s@,
    {
        assert(t[i as int] == list@[i as int]@);
        if same(list[i].as_str(), s) {
            return true;
        }
    }
    false
}

/// Whether every text of `part` is in `list`.
pub fn holds_all(list: &Vec<String>, part: &Vec<String>) -> (r: bool)
    ensures
        r == covers(texts(list@), texts(part@)),
{
    let ghost p = texts(part@);
    for i in 0..part.len()
        invariant
            p == texts(part@),
            forall|j: int| 0 <= j < i ==> texts(list@).contains(#[trigger] p[j]),
    {
        assert(p[i as int] == part@[i as int]@);
        if !holds(list, part[i].as_str()) {
            return false;
        }
    }
    true
}

/// A text without separators behind a separator is one more piece.
pub proof fn one_more_piece(a: Seq<char>, b: Seq<char>, sep: char)
    requires
        !b.contains(sep),
    ensures
        split_on(a.push(sep) + b, sep) == split_on(a, sep).push(b),
    decreases a.len(),
{
    let t = a.push(sep) + b;
    t.index_of_first_ensures(sep);
    a.index_of_first_ensures(sep);
    b.index_of_first_ensures(sep);
    assert(t[a.len() as int] == sep);
    assert(t.contains(sep));
    let i = t.index_of_first(sep)->0;
    if a.contains(sep) {
        let k = a.index_of_first(sep)->0;
        assert(t[k] == a[k]);
        assert(i <= k);
        assert(a[i] == t[i]);
        assert(i == k);
        assert(t.take(i) == a.take(i));
        assert(t.skip(i + 1) == a.skip(i + 1).push(sep) + b);
        one_more_piece(a.skip(i + 1), b, sep);
        assert(split_on(t, sep) == seq![t.take(i)] + split_on(t.skip(i + 1), sep));
        assert(split_on(a, sep) == seq![a.take(i)] + split_on(a.skip(i + 1), sep));
        assert(seq![a.take(i)] + split_on(a.skip(i + 1), sep).push(b) == (seq![a.take(i)]
            + split_on(a.skip(i + 1), sep)).push(b));
    } else {
        if i < a.len() {
            assert(a[i] == t[i]);
            assert(a.contains(sep));
        }
        assert(i == a.len());
        assert(t.take(i) == a);
        assert(t.skip(i + 1) == b);
        assert(split_on(b, sep) == seq![b]);
        assert(split_on(a, sep) == seq![a]);
        assert(split_on(t, sep) == seq![t.take(i)] + split_on(t.skip(i + 1), sep));
        assert(seq![a] + seq![b] == seq![a].push(b));
    }
}

/// Lines that were stacked come apart again.
pub proof fn stacked_lines_come_apart(lines: Seq<Seq<char>>)
    requires
        lines.len() > 0,
        forall|i: int| 0 <= i < lines.len() ==> !(#[trigger] lines[i]).contains('\n'),
    ensures
        split_on(stacked(lines), '\n') == lines,
    decreases lines.len(),
{
    let last = lines.last();
    assert(!lines[lines.len() - 1].contains('\n'));
    if lines.len() == 1 {
        last.index_of_first_ensures('\n');
        assert(lines == seq![last]);
    } else {
        let init = lines.drop_last();
        assert forall|i: int| 0 <= i < init.len() implies !(#[trigger] init[i]).contains('\n') by {
            assert(init[i] == lines[i]);
        }
        stacked_lines_come_apart(init);
        one_more_piece(stacked(init), last, '\n');
        assert(init.push(last) == lines);
    }
}

/// What was trimmed has no white space at its end.
pub proof fn trimmed_ends_in_no_space(s: Seq<char>)
    ensures
        trim_right(s).len() > 0 ==> !is_space(trim_right(s).last()),
    decreases s.len(),
{
    if s.len() > 0 && is_space(s.last()) {
        trimmed_ends_in_no_space(s.drop_last());
    }
}

/// A text without separators is one piece, itself.
pub proof fn nothing_to_split(s: Seq<char>, sep: char)
    requires
        !s.contains(sep),
    ensures
        split_on(s, sep) == seq![s],
{
    s.index_of_first_ensures(sep);
}

/// No piece of a text that was split holds the separator.
pub proof fn pieces_hold_no_separator(s: Seq<char>, sep: char, i: int)
    requires
        0 <= i < split_on(s, sep).len(),
    ensures
        !split_on(s, sep)[i].contains(sep),
    decreases s.len(),
{
    s.index_of_first_ensures(sep);
    if let Some(k) = s.index_of_first(sep) {
        let rest = s.skip(k + 1);
        assert(split_on(s, sep) == seq![s.take(k)] + split_on(rest, sep));
        if i == 0 {
            if s.take(k).contains(sep) {
                let j = choose|j: int| 0 <= j < k && s.take(k)[j] == sep;
                assert(s[j] == sep);
            }
        } else {
            pieces_hold_no_separator(rest, sep, i - 1);
        }
    }
}

/// A number that is written in decimal is read as that number: it is made of digits
/// only, whose value it is.
pub proof fn decimals_read_back(n: nat)
    ensures
        decimal(n).len() > 0,
        forall|i: int| 0 <= i < decimal(n).len() ==> '0' <= #[trigger] decimal(n)[i] <= '9',
        digits_value(decimal(n)) == n,
        forall|max: int| n <= max ==> #[trigger] number(decimal(n), max) == Some(n as int),
        forall|max: int| n > max ==> #[trigger] number(decimal(n), max) is None,
        n >= 10 ==> decimal(n)[0] != '0',
    decreases n,
{
    if n < 10 {
        let s = decimal(n);
        assert(s.drop_last() =~= Seq::<char>::empty());
        assert(digits_value(s.drop_last()) == 0);
    } else {
        decimals_read_back(n / 10);
        let head = decimal(n / 10);
        assert(decimal(n).drop_last() =~= head);
        assert(decimal(n).last() == digit(n % 10));
        if n / 10 < 10 {
            assert(decimal(n)[0] == digit(n / 10));
        }
    }
}

/// Leading zeros change the length, to the width that is asked for, and not the
/// number.
pub proof fn padding_keeps_the_number(n: nat, width: nat)
    ensures
        padded(n, width).len() >= width,
        digits_value(padded(n, width)) == n,
        decimal(n).len() >= width ==> padded(n, width) == decimal(n),
        decimal(n).len() < width ==> padded(n, width).len() == width,
        forall|i: int|
            0 <= i < padded(n, width).len() ==> '0' <= #[trigger] padded(n, width)[i] <= '9',
{
    decimals_read_back(n);
    if decimal(n).len() < width {
        zeros_count_for_nothing((width - decimal(n).len()) as nat, decimal(n));
    }
}

proof fn zeros_count_for_nothing(k: nat, s: Seq<char>)
    ensures
        digits_value(zeros(k) + s) == digits_value(s),
    decreases s.len(), k,
{
    let t = zeros(k) + s;
    if s.len() > 0 {
        zeros_count_for_nothing(k, s.drop_last());
        assert(t.drop_last() =~= zeros(k) + s.drop_last());
        assert(t.last() == s.last());
    } else if k > 0 {
        zeros_count_for_nothing((k - 1) as nat, s);
        assert(t.drop_last() =~= zeros((k - 1) as nat) + s);
        assert(t.last() == '0');
    }
}

/// Texts of the same number are the same, and of two numbers are two.
pub proof fn decimals_are_distinct(a: nat, b: nat)
    requires
        decimal(a) == decimal(b),
    ensures
        a == b,
{
    decimals_read_back(a);
    decimals_read_back(b);
}

/// A negative number is written with a sign before the digits of its size.
pub proof fn negative_numbers_have_a_sign(n: int)
    ensures
        n >= 0 ==> number(decimal_int(n), n) == Some(n),
        n < 0 ==> decimal_int(n)[0] == '-' && number(decimal_int(n).skip(1), -n) == Some(-n),
{
    if n >= 0 {
        decimals_read_back(n as nat);
    } else {
        decimals_read_back((-n) as nat);
        assert(decimal_int(n).skip(1) =~= decimal((-n) as nat));
    }
}

/// A text that was trimmed stands in the text it was, with nothing but white space
/// around it, and neither begins nor ends with any.
pub proof fn trimming_takes_white_space_only(s: Seq<char>) -> (r: (Seq<char>, Seq<char>))
    ensures
        s == r.0 + trim(s) + r.1,
        forall|i: int| 0 <= i < r.0.len() ==> is_space(#[trigger] r.0[i]),
        forall|i: int| 0 <= i < r.1.len() ==> is_space(#[trigger] r.1[i]),
        trim(s).len() > 0 ==> !is_space(trim(s)[0]) && !is_space(trim(s).last()),
{
    let (left, mid) = trimmed_on_the_left(s);
    let right = trimmed_on_the_right(mid);
    trimmed_ends_in_no_space(mid);
    assert(s =~= left + trim(s) + right);
    if trim(s).len() > 0 {
        assert(mid[0] == trim(s)[0]);
    }
    (left, right)
}

proof fn trimmed_on_the_left(s: Seq<char>) -> (r: (Seq<char>, Seq<char>))
    ensures
        s == r.0 + r.1,
        r.1 == trim_left(s),
        forall|i: int| 0 <= i < r.0.len() ==> is_space(#[trigger] r.0[i]),
        r.1.len() > 0 ==> !is_space(r.1[0]),
    decreases s.len(),
{
    if s.len() > 0 && is_space(s[0]) {
        let (a, b) = trimmed_on_the_left(s.drop_first());
        let left = seq![s[0]] + a;
        assert(s =~= seq![s[0]] + s.drop_first());
        assert(seq![s[0]] + (a + b) =~= left + b);
        (left, b)
    } else {
        assert(s =~= Seq::<char>::empty() + s);
        (Seq::empty(), s)
    }
}

proof fn trimmed_on_the_right(s: Seq<char>) -> (r: Seq<char>)
    ensures
        s == trim_right(s) + r,
        forall|i: int| 0 <= i < r.len() ==> is_space(#[trigger] r[i]),
    decreases s.len(),
{
    if s.len() > 0 && is_space(s.last()) {
        let a = trimmed_on_the_right(s.drop_last());
        let right = a.push(s.last());
        assert(s =~= s.drop_last().push(s.last()));
        assert((trim_right(s) + a).push(s.last()) =~= trim_right(s) + right);
        right
    } else {
        assert(s =~= s + Seq::<char>::empty());
        Seq::empty()
    }
}

/// Blanks, tabs and line ends are white space; what can be seen of ASCII is not.
pub proof fn seen_characters_are_no_space(c: char)
    ensures
        c == ' ' || c == '\t' || c == '\n' || c == '\r' ==> is_space(c),
        '!' <= c <= '~' ==> !is_space(c),
{
}

/// Lower case changes the letters `A` to `Z`, each to the small one, and nothing else.
pub proof fn lower_case_changes_capitals_only(s: Seq<char>, i: int)
    requires
        0 <= i < s.len(),
    ensures
        lower(s).len() == s.len(),
        'A' <= s[i] <= 'Z' ==> lower(s)[i] as int == s[i] as int - 'A' as int + 'a' as int,
        !('A' <= s[i] <= 'Z') ==> lower(s)[i] == s[i],
        'a' <= s[i] <= 'z' ==> upper_char(s[i]) as int == s[i] as int - 'a' as int + 'A' as int,
        !('a' <= s[i] <= 'z') ==> upper_char(s[i]) == s[i],
        lower(lower(s)) == lower(s),
{
    assert(lower(lower(s)) =~= lower(s));
}

/// A line may end in a line feed, with or without a carriage return before it, or with
/// the text; the ending is no part of it, and an empty text has no line.
pub proof fn line_ends_are_no_part_of_lines(line: Seq<char>)
    requires
        line.len() > 0,
        !line.contains('\n'),
        line.last() != '\r',
    ensures
        lines_of(Seq::empty()).len() == 0,
        lines_of(line) == seq![line],
        lines_of(line.push('\n')) == seq![line],
        lines_of(line.push('\r').push('\n')) == seq![line],
{
    let nothing = Seq::<char>::empty();
    let returned = line.push('\r');
    nothing_to_split(nothing, '\n');
    nothing_to_split(line, '\n');
    assert(!returned.contains('\n')) by {
        if returned.contains('\n') {
            let k = choose|k: int| 0 <= k < returned.len() && returned[k] == '\n';
            assert(line[k] == '\n');
        }
    }
    nothing_to_split(returned, '\n');
    one_more_piece(line, nothing, '\n');
    one_more_piece(returned, nothing, '\n');
    assert(line.push('\n') + nothing =~= line.push('\n'));
    assert(returned.push('\n') + nothing =~= returned.push('\n'));
    assert(without_cr(returned) =~= line);
    assert(without_cr(line) == line);
    let none = Seq::<Seq<char>>::empty();
    assert(seq![line].drop_last() =~= none);
    assert(seq![nothing].drop_last() =~= none);
    assert(seq![line].push(nothing).drop_last() =~= seq![line]);
    assert(seq![returned].push(nothing).drop_last() =~= seq![returned]);
    assert(lines_of(line) =~= seq![line]);
    assert(lines_of(line.push('\n')) =~= seq![line]);
    assert(lines_of(returned.push('\n')) =~= seq![line]);
}

}
