//! Texts in alphabetical order.

use crate::text;
use vstd::prelude::*;

verus! {

/// Alphabetical order, by the code points of the characters.
pub open spec fn lex_le(a: Seq<char>, b: Seq<char>) -> bool
    decreases a.len(),
{
    if a.len() == 0 {
        true
    } else if b.len() == 0 {
        false
    } else if a[0] == b[0] {
        lex_le(a.drop_first(), b.drop_first())
    } else {
        (a[0] as int) < (b[0] as int)
    }
}

/// Any two texts are in order, one way or the other.
pub proof fn lex_total(a: Seq<char>, b: Seq<char>)
    ensures
        lex_le(a, b) || lex_le(b, a),
    decreases a.len(),
{
    if a.len() > 0 && b.len() > 0 {
        if a[0] == b[0] {
            lex_total(a.drop_first(), b.drop_first());
        } else {
            assert(a[0] as int != b[0] as int);
        }
    }
}

/// Texts that are in order both ways are equal.
pub proof fn lex_antisymmetric(a: Seq<char>, b: Seq<char>)
    requires
        lex_le(a, b),
        lex_le(b, a),
    ensures
        a == b,
    decreases a.len(),
{
    if a.len() > 0 && b.len() > 0 {
        assert(a[0] == b[0]);
        lex_antisymmetric(a.drop_first(), b.drop_first());
        assert(a == seq![a[0]] + a.drop_first());
        assert(b == seq![b[0]] + b.drop_first());
    } else {
        assert(a =~= b);
    }
}

/// The order is transitive.
pub proof fn lex_transitive(a: Seq<char>, b: Seq<char>, c: Seq<char>)
    requires
        lex_le(a, b),
        lex_le(b, c),
    ensures
        lex_le(a, c),
    decreases a.len(),
{
    if a.len() > 0 && b.len() > 0 && c.len() > 0 && a[0] == b[0] && b[0] == c[0] {
        lex_transitive(a.drop_first(), b.drop_first(), c.drop_first());
    }
}

fn char_before(c: char, d: char) -> (r: bool)
    ensures
        r == ((c as int) < (d as int)),
{
    (c as u32) < (d as u32)
}

/// Whether `a` comes before `b` or is equal to it.
pub fn in_order(a: &str, b: &str) -> (r: bool)
    ensures
        r == lex_le(a@, b@),
{
    let x = text::chars_of(a);
    let y = text::chars_of(b);
    let mut i: usize = 0;
    assert(x@.skip(0) == a@);
    assert(y@.skip(0) == b@);
    loop
        invariant
            i <= x@.len(),
            i <= y@.len(),
            lex_le(a@, b@) == lex_le(x@.skip(i as int), y@.skip(i as int)),
        decreases x@.len() - i,
    {
        if i == x.len() {
            return true;
        }
        if i == y.len() {
            return false;
        }
        if x[i] != y[i] {
            return char_before(x[i], y[i]);
        }
        assert(x@.skip(i as int).drop_first() == x@.skip(i + 1));
        assert(y@.skip(i as int).drop_first() == y@.skip(i + 1));
        i += 1;
    }
}

/// Whether the texts are in alphabetical order.
pub open spec fn is_sorted(v: Seq<Seq<char>>) -> bool {
    forall|i: int, j: int| 0 <= i <= j < v.len() ==> lex_le(v[i], v[j])
}

/// Whether `r` holds the texts of `v`, in alphabetical order.
pub open spec fn is_sorting_of(r: Seq<Seq<char>>, v: Seq<Seq<char>>) -> bool {
    is_sorted(r) && r.to_multiset() == v.to_multiset()
}

/// The place in a sorted list after the last text that is not after `x`.
fn place_for(v: &Vec<String>, x: &str) -> (p: usize)
    requires
        is_sorted(text::texts(v@)),
    ensures
        p <= v@.len(),
        forall|j: int| 0 <= j < p ==> lex_le(#[trigger] text::texts(v@)[j], x@),
        forall|j: int| p <= j < v@.len() ==> !lex_le(#[trigger] text::texts(v@)[j], x@),
{
    let ghost t = text::texts(v@);
    let mut p: usize = v.len();
    while p > 0
        invariant
            p <= v@.len(),
            t == text::texts(v@),
            is_sorted(t),
            forall|j: int| p <= j < v@.len() ==> !lex_le(#[trigger] t[j], x@),
        decreases p,
    {
        if in_order(v[p - 1].as_str(), x) {
            proof {
                assert(t[p - 1] == v@[p - 1]@);
                assert forall|j: int| 0 <= j < p implies lex_le(#[trigger] t[j], x@) by {
                    lex_transitive(t[j], t[p - 1], x@);
                }
            }
            return p;
        }
        assert(t[p - 1] == v@[p - 1]@);
        p -= 1;
    }
    p
}

proof fn lemma_insert_sorted(t: Seq<Seq<char>>, p: int, x: Seq<char>)
    requires
        is_sorted(t),
        0 <= p <= t.len(),
        forall|j: int| 0 <= j < p ==> lex_le(#[trigger] t[j], x),
        forall|j: int| p <= j < t.len() ==> !lex_le(#[trigger] t[j], x),
    ensures
        is_sorted(t.insert(p, x)),
{
    let u = t.insert(p, x);
    assert forall|i: int, j: int| 0 <= i <= j < u.len() implies lex_le(u[i], u[j]) by {
        if i < p {
            assert(u[i] == t[i]);
            if j < p {
                assert(u[j] == t[j]);
            } else if j > p {
                assert(u[j] == t[j - 1]);
            }
        } else if i == p {
            if j > p {
                assert(u[j] == t[j - 1]);
                lex_total(x, t[j - 1]);
            } else {
                lex_total(x, x);
            }
        } else {
            assert(u[i] == t[i - 1]);
            assert(u[j] == t[j - 1]);
        }
    }
}

/// The strings in alphabetical order.
pub fn sort(v: Vec<String>) -> (r: Vec<String>)
    ensures
        is_sorting_of(text::texts(r@), text::texts(v@)),
{
    let mut r: Vec<String> = Vec::new();
    let mut i: usize = 0;
    let ghost t = text::texts(v@);
    assert(text::texts(r@) == t.take(0));
    while i < v.len()
        invariant
            i <= v@.len(),
            t == text::texts(v@),
            is_sorting_of(text::texts(r@), t.take(i as int)),
        decreases v@.len() - i,
    {
        let x = v[i].clone();
        let p: usize = place_for(&r, x.as_str());
        proof {
            broadcast use vstd::seq_lib::to_multiset_insert;
            broadcast use vstd::seq_lib::to_multiset_build;

            let u = text::texts(r@);
            lemma_insert_sorted(u, p as int, x@);
            assert(t.take(i + 1) == t.take(i as int).push(x@));
            assert(u.insert(p as int, x@).to_multiset() == u.to_multiset().insert(x@));
            assert(text::texts(r@.insert(p as int, x)) == u.insert(p as int, x@));
        }
        r.insert(p, x);
        i += 1;
    }
    assert(t.take(v@.len() as int) == t);
    r
}

} // verus!
