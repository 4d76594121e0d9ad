//! Sorting by text, for lists that people look at.

use vstd::prelude::*;

use crate::text::chars_of;

verus! {

/// `a` comes before `b`, or is the same: character by character, a prefix first.
pub open spec fn lex_le(a: Seq<char>, b: Seq<char>) -> bool
    decreases a.len(),
{
    if a.len() == 0 {
        true
    } else if b.len() == 0 {
        false
    } else if a[0] == b[0] {
        lex_le(a.drop_first(), b.drop_first())
    } else {
        a[0] < b[0]
    }
}

/// Of two texts one comes first.
pub proof fn lex_total(a: Seq<char>, b: Seq<char>)
    ensures
        lex_le(a, b) || lex_le(b, a),
    decreases a.len(),
{
    if a.len() > 0 && b.len() > 0 {
        lex_total(a.drop_first(), b.drop_first());
    }
}

pub proof fn lex_transitive(a: Seq<char>, b: Seq<char>, c: Seq<char>)
    requires
        lex_le(a, b),
        lex_le(b, c),
    ensures
        lex_le(a, c),
    decreases a.len(),
{
    if a.len() > 0 && b.len() > 0 && c.len() > 0 && a[0] == b[0] && b[0] == c[0] {
        lex_transitive(a.drop_first(), b.drop_first(), c.drop_first());
    }
}

/// Two texts that come before each other are the same.
pub proof fn lex_antisymmetric(a: Seq<char>, b: Seq<char>)
    requires
        lex_le(a, b),
        lex_le(b, a),
    ensures
        a == b,
    decreases a.len(),
{
    if a.len() > 0 && b.len() > 0 {
        lex_antisymmetric(a.drop_first(), b.drop_first());
        assert(a == seq![a[0]] + a.drop_first());
        assert(b == seq![b[0]] + b.drop_first());
    } else {
        assert(a == b);
    }
}

/// Whether `a` comes before `b` or is the same.
pub fn text_le(a: &str, b: &str) -> (r: bool)
    ensures
        r == lex_le(a@, b@),
{
    let x = chars_of(a);
    let y = chars_of(b);
    let mut i: usize = 0;
    assert(x@.skip(0) == x@);
    assert(y@.skip(0) == y@);
    while i < x.len() && i < y.len() && x[i] == y[i]
        invariant
            i <= x@.len(),
            i <= y@.len(),
            lex_le(x@.skip(i as int), y@.skip(i as int)) == lex_le(x@, y@),
        decreases x@.len() - i,
    {
        assert(x@.skip(i as int).drop_first() == x@.skip(i + 1));
        assert(y@.skip(i as int).drop_first() == y@.skip(i + 1));
        assert(x@.skip(i as int)[0] == x@[i as int]);
        assert(y@.skip(i as int)[0] == y@[i as int]);
        i = i + 1;
    }
    if i == x.len() {
        true
    } else if i == y.len() {
        false
    } else {
        assert(x@.skip(i as int)[0] == x@[i as int]);
        assert(y@.skip(i as int)[0] == y@[i as int]);
        x[i] < y[i]
    }
}

/// Positions in a list that put its texts in order, each position once.
pub open spec fn is_sorting(order: Seq<usize>, keys: Seq<String>) -> bool {
    &&& order.len() == keys.len()
    &&& order.no_duplicates()
    &&& forall|i: int| 0 <= i < order.len() ==> (#[trigger] order[i]) < keys.len()
    &&& forall|i: int, j: int|
        0 <= i < j < order.len() ==> lex_le(
            keys[(#[trigger] order[i]) as int]@,
            keys[(#[trigger] order[j]) as int]@,
        )
}

/// Every position occurs in a sorting.
pub proof fn sorting_is_onto(order: Seq<usize>, keys: Seq<String>, k: int)
    requires
        is_sorting(order, keys),
        0 <= k < keys.len(),
    ensures
        exists|i: int| 0 <= i < order.len() && #[trigger] order[i] == k,
{
    let s = order.map_values(|u: usize| u as int);
    assert(s.no_duplicates());
    let all = vstd::set_lib::set_int_range(0, keys.len() as int);
    vstd::set_lib::lemma_int_range(0, keys.len() as int);
    s.unique_seq_to_set();
    assert(s.to_set().subset_of(all)) by {
        assert forall|x: int| s.to_set().contains(x) implies all.contains(x) by {
            let i = s.index_of(x);
            assert(s[i] == x);
            assert(order[i] < keys.len());
        }
    }
    vstd::set_lib::lemma_subset_equality(s.to_set(), all);
    assert(s.to_set().contains(k));
    let i = s.index_of(k);
    assert(order[i] == k);
}

/// Sorts by text.
pub fn sorted_order(keys: &Vec<String>) -> (r: Vec<usize>)
    ensures
        is_sorting(r@, keys@),
{
    let mut out: Vec<usize> = Vec::new();
    for n in 0..keys.len()
        invariant
            out@.len() == n,
            out@.no_duplicates(),
            n <= keys@.len(),
            forall|i: int| 0 <= i < out@.len() ==> (#[trigger] out@[i]) < n,
            forall|i: int, j: int|
                0 <= i < j < out@.len() ==> lex_le(
                    keys@[(#[trigger] out@[i]) as int]@,
                    keys@[(#[trigger] out@[j]) as int]@,
                ),
    {
        let ghost key = keys@[n as int]@;
        let mut p: usize = out.len();
        while p > 0 && !text_le(keys[out[p - 1]].as_str(), keys[n].as_str())
            invariant
                p <= out@.len(),
                out@.len() == n,
                n < keys@.len(),
                key == keys@[n as int]@,
                forall|i: int| 0 <= i < out@.len() ==> (#[trigger] out@[i]) < n,
                forall|j: int|
                    p <= j < out@.len() ==> lex_le(key, keys@[(#[trigger] out@[j]) as int]@),
            decreases p,
        {
            proof {
                lex_total(keys@[out@[p - 1] as int]@, key);
            }
            p = p - 1;
        }
        let ghost before = out@;
        out.insert(p, n);
        proof {
            assert forall|i: int| 0 <= i < p implies lex_le(
                keys@[(#[trigger] before[i]) as int]@,
                key,
            ) by {
                if i < p - 1 {
                    lex_transitive(keys@[before[i] as int]@, keys@[before[p - 1] as int]@, key);
                }
            }
            assert forall|i: int, j: int| 0 <= i < j < out@.len() implies lex_le(
                keys@[(#[trigger] out@[i]) as int]@,
                keys@[(#[trigger] out@[j]) as int]@,
            ) by {
                let a = if i < p { i } else { i - 1 };
                let b = if j < p { j } else { j - 1 };
                if i != p {
                    assert(out@[i] == before[a]);
                }
                if j != p {
                    assert(out@[j] == before[b]);
                }
            }
            assert forall|i: int, j: int|
                0 <= i < out@.len() && 0 <= j < out@.len() && i != j implies out@[i]
                != out@[j] by {
                let a = if i < p { i } else { i - 1 };
                let b = if j < p { j } else { j - 1 };
                if i != p {
                    assert(out@[i] == before[a]);
                }
                if j != p {
                    assert(out@[j] == before[b]);
                }
            }
        }
    }
    out
}

/// The first character in which two texts differ decides, and a text comes before what
/// it begins.
pub proof fn the_first_difference_decides(
    p: Seq<char>,
    x: char,
    s: Seq<char>,
    y: char,
    t: Seq<char>,
)
    requires
        x < y,
    ensures
        lex_le(p + (seq![x] + s), p + (seq![y] + t)),
        !lex_le(p + (seq![y] + t), p + (seq![x] + s)),
        lex_le(p, p + s),
    decreases p.len(),
{
    let a = p + (seq![x] + s);
    let b = p + (seq![y] + t);
    if p.len() > 0 {
        let q = p.drop_first();
        the_first_difference_decides(q, x, s, y, t);
        assert(a.drop_first() =~= q + (seq![x] + s));
        assert(b.drop_first() =~= q + (seq![y] + t));
        assert((p + s).drop_first() =~= q + s);
    } else {
        assert(a[0] == x && b[0] == y);
    }
}

}
