//! Searching a text for another, and rewriting characters.

use crate::text;
use vstd::prelude::*;
use vstd::slice::slice_subrange;

verus! {

/// Whether `p` stands in `s` at place `i`.
pub open spec fn occurs_at(s: Seq<char>, p: Seq<char>, i: int) -> bool {
    0 <= i && i + p.len() <= s.len() && s.subrange(i, i + p.len()) == p
}

/// Whether `p` stands somewhere in `s`.
pub open spec fn occurs(s: Seq<char>, p: Seq<char>) -> bool {
    exists|i: int| occurs_at(s, p, i)
}

/// Whether `i` is the first place at which `p` stands in `s`.
pub open spec fn is_first_at(s: Seq<char>, p: Seq<char>, i: int) -> bool {
    occurs_at(s, p, i) && forall|j: int| 0 <= j < i ==> !occurs_at(s, p, j)
}

/// Whether `i` is the last place at which `p` stands in `s`.
pub open spec fn is_last_at(s: Seq<char>, p: Seq<char>, i: int) -> bool {
    occurs_at(s, p, i) && forall|j: int| i < j ==> !occurs_at(s, p, j)
}

/// The first place at which `p` stands in `s`.
pub open spec fn first_at(s: Seq<char>, p: Seq<char>) -> int {
    choose|i: int| is_first_at(s, p, i)
}

/// The last place at which `p` stands in `s`.
pub open spec fn last_at(s: Seq<char>, p: Seq<char>) -> int {
    choose|i: int| is_last_at(s, p, i)
}

proof fn lemma_first_at(s: Seq<char>, p: Seq<char>, i: int)
    requires
        is_first_at(s, p, i),
    ensures
        first_at(s, p) == i,
{
    let k = first_at(s, p);
    assert(is_first_at(s, p, k));
    if k < i {
        assert(!occurs_at(s, p, k));
    } else if i < k {
        assert(!occurs_at(s, p, i));
    }
}

proof fn lemma_last_at(s: Seq<char>, p: Seq<char>, i: int)
    requires
        is_last_at(s, p, i),
    ensures
        last_at(s, p) == i,
{
    let k = last_at(s, p);
    assert(is_last_at(s, p, k));
    if k < i {
        assert(!occurs_at(s, p, i));
    } else if i < k {
        assert(!occurs_at(s, p, k));
    }
}

fn stands_at(s: &[char], p: &[char], i: usize) -> (r: bool)
    requires
        i <= s@.len(),
    ensures
        r == occurs_at(s@, p@, i as int),
{
    let n: usize = s.len();
    if p.len() > n - i {
        return false;
    }
    let mut j: usize = 0;
    while j < p.len()
        invariant
            j <= p@.len(),
            i + p@.len() <= n == s@.len(),
            forall|k: int| 0 <= k < j ==> s@[i + k] == p@[k],
        decreases p@.len() - j,
    {
        if s[i + j] != p[j] {
            assert(s@.subrange(i as int, i + p@.len())[j as int] != p@[j as int]);
            return false;
        }
        j += 1;
    }
    assert(s@.subrange(i as int, i + p@.len()) == p@);
    true
}

/// The first place at which `p` stands in the text, if it does.
pub fn find(s: &[char], p: &str) -> (r: Option<usize>)
    ensures
        r is Some <==> occurs(s@, p@),
        r matches Some(i) ==> occurs_at(s@, p@, i as int) && i == first_at(s@, p@),
{
    let pat = text::chars_of(p);
    let n: usize = s.len();
    let mut i: usize = 0;
    loop
        invariant
            pat@ == p@,
            i <= n == s@.len(),
            forall|j: int| 0 <= j < i ==> !occurs_at(s@, p@, j),
        decreases n - i,
    {
        if stands_at(s, pat.as_slice(), i) {
            proof {
                lemma_first_at(s@, p@, i as int);
            }
            return Some(i);
        }
        if i == n {
            return None;
        }
        i += 1;
    }
}

/// The last place at which `p` stands in the text, if it does.
pub fn rfind(s: &[char], p: &str) -> (r: Option<usize>)
    ensures
        r is Some <==> occurs(s@, p@),
        r matches Some(i) ==> occurs_at(s@, p@, i as int) && i == last_at(s@, p@),
{
    let pat = text::chars_of(p);
    let mut i: usize = s.len();
    loop
        invariant
            pat@ == p@,
            i <= s@.len(),
            forall|j: int| i < j ==> !occurs_at(s@, p@, j),
        decreases i,
    {
        if stands_at(s, pat.as_slice(), i) {
            proof {
                lemma_last_at(s@, p@, i as int);
            }
            return Some(i);
        }
        if i == 0 {
            return None;
        }
        i -= 1;
    }
}

/// Whether `p` stands somewhere in the text.
pub fn contains(s: &[char], p: &str) -> (r: bool)
    ensures
        r == occurs(s@, p@),
{
    find(s, p).is_some()
}

/// Whether `p` stands somewhere in `s`.
pub fn contains_str(s: &str, p: &str) -> (r: bool)
    ensures
        r == occurs(s@, p@),
{
    let s = text::chars_of(s);
    contains(s.as_slice(), p)
}

/// What follows the text `p` that stands in `s` at place `i`.
pub fn skip_text<'a>(s: &'a [char], i: usize, p: &str) -> (r: &'a [char])
    requires
        occurs_at(s@, p@, i as int),
    ensures
        r@ == s@.skip(i + p@.len()),
{
    let pat = text::chars_of(p);
    let n: usize = s.len();
    assert(s@.subrange(i + p@.len(), n as int) =~= s@.skip(i + p@.len()));
    slice_subrange(s, i + pat.len(), n)
}

/// `s` with each `from` turned into `to`.
pub open spec fn replaced(s: Seq<char>, from: char, to: char) -> Seq<char> {
    s.map_values(|c: char| if c == from { to } else { c })
}

/// The text with each `from` turned into `to`.
pub fn replace_char(s: &str, from: char, to: char) -> (r: String)
    ensures
        r@ == replaced(s@, from, to),
{
    let src = text::chars_of(s);
    let mut r = String::new();
    let mut i: usize = 0;
    while i < src.len()
        invariant
            src@ == s@,
            i <= src@.len(),
            r@ == replaced(s@, from, to).take(i as int),
        decreases src@.len() - i,
    {
        let c = src[i];
        r.push(if c == from { to } else { c });
        i += 1;
        assert(replaced(s@, from, to).take(i as int) == replaced(s@, from, to).take(i - 1).push(
            replaced(s@, from, to)[i - 1],
        ));
    }
    assert(replaced(s@, from, to).take(s@.len() as int) == replaced(s@, from, to));
    r
}

/// `s` with each pair of backslashes, from the left, turned into one.
pub open spec fn unescaped(s: Seq<char>) -> Seq<char>
    decreases s.len(),
{
    if s.len() == 0 {
        seq![]
    } else if s.len() >= 2 && s[0] == '\\' && s[1] == '\\' {
        seq!['\\'] + unescaped(s.skip(2))
    } else {
        seq![s[0]] + unescaped(s.drop_first())
    }
}

/// The text with each pair of backslashes, from the left, turned into one.
pub fn unescape(s: &[char]) -> (r: String)
    ensures
        r@ == unescaped(s@),
{
    let n: usize = s.len();
    let mut r = String::new();
    let mut i: usize = 0;
    assert(s@.skip(0) == s@);
    assert(r@ + unescaped(s@) == unescaped(s@));
    while i < n
        invariant
            i <= n == s@.len(),
            r@ + unescaped(s@.skip(i as int)) == unescaped(s@),
        decreases n - i,
    {
        let ghost rest = s@.skip(i as int);
        let ghost before = r@;
        r.push(s[i]);
        if s[i] == '\\' && i + 1 < n && s[i + 1] == '\\' {
            proof {
                assert(rest.skip(2) == s@.skip(i + 2));
                assert(before + (seq!['\\'] + unescaped(s@.skip(i + 2))) == r@ + unescaped(
                    s@.skip(i + 2),
                ));
            }
            i += 2;
        } else {
            proof {
                assert(rest.drop_first() == s@.skip(i + 1));
                assert(before + (seq![rest[0]] + unescaped(s@.skip(i + 1))) == r@ + unescaped(
                    s@.skip(i + 1),
                ));
            }
            i += 1;
        }
    }
    assert(s@.skip(i as int) == Seq::<char>::empty());
    assert(r@ + unescaped(s@.skip(i as int)) == r@);
    r
}

/// `s` without the copies of `p` that it begins with.
pub open spec fn without_prefixes(s: Seq<char>, p: Seq<char>) -> Seq<char>
    decreases s.len(),
{
    if p.len() > 0 && text::has_prefix(s, p) {
        without_prefixes(text::after_prefix(s, p), p)
    } else {
        s
    }
}

/// The text without the copies of `p` that it begins with.
pub fn strip_prefixes<'a>(s: &'a [char], p: &str) -> (r: &'a [char])
    requires
        p@.len() > 0,
    ensures
        r@ == without_prefixes(s@, p@),
{
    let mut t: &'a [char] = s;
    loop
        invariant
            p@.len() > 0,
            without_prefixes(s@, p@) == without_prefixes(t@, p@),
        decreases t@.len(),
    {
        match text::strip_prefix(t, p) {
            Some(u) => {
                t = u;
            },
            None => {
                return t;
            },
        }
    }
}

/// `s` without the `c`s that it begins with.
pub open spec fn without_leading(s: Seq<char>, c: char) -> Seq<char>
    decreases s.len(),
{
    if s.len() > 0 && s[0] == c {
        without_leading(s.drop_first(), c)
    } else {
        s
    }
}

/// `s` without the `c`s that it ends with.
pub open spec fn without_trailing(s: Seq<char>, c: char) -> Seq<char>
    decreases s.len(),
{
    if s.len() > 0 && s.last() == c {
        without_trailing(s.drop_last(), c)
    } else {
        s
    }
}

/// The text without `c`s at either end.
pub fn strip_char<'a>(s: &'a [char], c: char) -> (r: &'a [char])
    ensures
        r@ == without_trailing(without_leading(s@, c), c),
{
    let mut t: &'a [char] = s;
    while t.len() > 0 && t[0] == c
        invariant
            without_leading(s@, c) == without_leading(t@, c),
        decreases t@.len(),
    {
        assert(t@.drop_first() == t@.subrange(1, t@.len() as int));
        t = slice_subrange(t, 1, t.len());
    }
    let ghost u = t@;
    assert(without_leading(s@, c) == u);
    while t.len() > 0 && t[t.len() - 1] == c
        invariant
            without_trailing(u, c) == without_trailing(t@, c),
        decreases t@.len(),
    {
        assert(t@.drop_last() == t@.subrange(0, t@.len() - 1));
        t = slice_subrange(t, 0, t.len() - 1);
    }
    t
}

} // verus!
