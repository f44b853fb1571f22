//! Text as sequences of characters: trimming, splitting, joining and searching.
//!
//! The functions work on `&[char]`, so that a piece of a text is a borrowed
//! slice of it; `chars_of` and `string_of` lead in and out of that form.

use vstd::prelude::*;
use vstd::slice::slice_subrange;
use vstd::string::*;

verus! {

/// `String::push` appends one character to the string and changes nothing else.
pub assume_specification[ String::push ](s: &mut String, ch: char)
    ensures
        final(s)@ == old(s)@.push(ch),
;

/// The texts of a list of strings.
pub open spec fn texts(v: Seq<String>) -> Seq<Seq<char>> {
    v.map_values(|s: String| s@)
}

/// The texts of a list of slices.
pub open spec fn slices(v: Seq<&[char]>) -> Seq<Seq<char>> {
    v.map_values(|s: &[char]| s@)
}

/// The characters of a string.
pub fn chars_of(s: &str) -> (r: Vec<char>)
    ensures
        r@ == s@,
{
    let mut r: Vec<char> = Vec::new();
    for c in it: s.chars()
        invariant
            it.seq() == s@,
            r@ == s@.take(it.index() as int),
    {
        r.push(c);
    }
    assert(s@.take(s@.len() as int) == s@);
    r
}

/// The string made of the given characters.
pub fn string_of(s: &[char]) -> (r: String)
    ensures
        r@ == s@,
{
    let mut r = String::new();
    let mut i: usize = 0;
    while i < s.len()
        invariant
            i <= s@.len(),
            r@ == s@.take(i as int),
        decreases s@.len() - i,
    {
        r.push(s[i]);
        i += 1;
        assert(s@.take(i as int) == s@.take(i - 1).push(s@[i - 1]));
    }
    assert(s@.take(s@.len() as int) == s@);
    r
}

/// A copy of a list of strings.
pub fn copy_strings(v: &Vec<String>) -> (r: Vec<String>)
    ensures
        texts(r@) == texts(v@),
{
    let mut r: Vec<String> = Vec::new();
    let mut i: usize = 0;
    while i < v.len()
        invariant
            i <= v@.len(),
            texts(r@) == texts(v@).take(i as int),
        decreases v@.len() - i,
    {
        r.push(v[i].clone());
        i += 1;
        assert(texts(v@).take(i as int) == texts(v@).take(i - 1).push(texts(v@)[i - 1]));
    }
    assert(texts(v@).take(v@.len() as int) == texts(v@));
    r
}

/// Whether the text is `t`.
pub fn same(s: &[char], t: &str) -> (r: bool)
    ensures
        r == (s@ == t@),
{
    let other = chars_of(t);
    if s.len() != other.len() {
        return false;
    }
    let mut i: usize = 0;
    while i < s.len()
        invariant
            i <= s@.len(),
            s@.len() == other@.len(),
            other@ == t@,
            forall|j: int| 0 <= j < i ==> s@[j] == other@[j],
        decreases s@.len() - i,
    {
        if s[i] != other[i] {
            return false;
        }
        i += 1;
    }
    assert(s@ == t@);
    true
}

/// Whether two strings hold the same text.
pub fn same_str(s: &str, t: &str) -> (r: bool)
    ensures
        r == (s@ == t@),
{
    let s = chars_of(s);
    same(s.as_slice(), t)
}

/// Whether `s` begins with `p`.
pub open spec fn has_prefix(s: Seq<char>, p: Seq<char>) -> bool {
    p.len() <= s.len() && s.take(p.len() as int) == p
}

/// Whether `s` ends with `p`.
pub open spec fn has_suffix(s: Seq<char>, p: Seq<char>) -> bool {
    p.len() <= s.len() && s.skip(s.len() - p.len()) == p
}

/// What follows the prefix `p` of `s`.
pub open spec fn after_prefix(s: Seq<char>, p: Seq<char>) -> Seq<char> {
    s.skip(p.len() as int)
}

/// What comes before the suffix `p` of `s`.
pub open spec fn before_suffix(s: Seq<char>, p: Seq<char>) -> Seq<char> {
    s.take(s.len() - p.len())
}

/// What follows the prefix `p`, if `s` begins with it.
pub fn strip_prefix<'a>(s: &'a [char], p: &str) -> (r: Option<&'a [char]>)
    ensures
        r is Some <==> has_prefix(s@, p@),
        r matches Some(t) ==> t@ == after_prefix(s@, p@),
{
    let pre = chars_of(p);
    if pre.len() > s.len() {
        return None;
    }
    let mut i: usize = 0;
    while i < pre.len()
        invariant
            pre@ == p@,
            i <= pre@.len() <= s@.len(),
            forall|j: int| 0 <= j < i ==> s@[j] == pre@[j],
        decreases pre@.len() - i,
    {
        if s[i] != pre[i] {
            assert(s@.take(p@.len() as int)[i as int] != p@[i as int]);
            return None;
        }
        i += 1;
    }
    assert(s@.take(p@.len() as int) == p@);
    Some(slice_subrange(s, pre.len(), s.len()))
}

/// What comes before the suffix `p`, if `s` ends with it.
pub fn strip_suffix<'a>(s: &'a [char], p: &str) -> (r: Option<&'a [char]>)
    ensures
        r is Some <==> has_suffix(s@, p@),
        r matches Some(t) ==> t@ == before_suffix(s@, p@),
{
    let end = chars_of(p);
    let n: usize = s.len();
    if end.len() > n {
        return None;
    }
    let k: usize = n - end.len();
    let mut i: usize = 0;
    while i < end.len()
        invariant
            end@ == p@,
            i <= end@.len() <= n == s@.len(),
            k == n - end@.len(),
            forall|j: int| 0 <= j < i ==> s@[k + j] == end@[j],
        decreases end@.len() - i,
    {
        if s[k + i] != end[i] {
            assert(s@.skip(k as int)[i as int] != p@[i as int]);
            return None;
        }
        i += 1;
    }
    assert(s@.skip(k as int) == p@);
    Some(slice_subrange(s, 0, k))
}

/// Whether `s` begins with `p`.
pub fn starts_with(s: &[char], p: &str) -> (r: bool)
    ensures
        r == has_prefix(s@, p@),
{
    strip_prefix(s, p).is_some()
}

/// Whether `s` ends with `p`.
pub fn ends_with(s: &[char], p: &str) -> (r: bool)
    ensures
        r == has_suffix(s@, p@),
{
    strip_suffix(s, p).is_some()
}

// ---- white space and trimming

/// The characters with the Unicode property `White_Space`.
pub open spec fn white(c: char) -> bool {
    let n = c as u32;
    ||| 0x9 <= n <= 0xd
    ||| n == 0x20
    ||| n == 0x85
    ||| n == 0xa0
    ||| n == 0x1680
    ||| 0x2000 <= n <= 0x200a
    ||| n == 0x2028
    ||| n == 0x2029
    ||| n == 0x202f
    ||| n == 0x205f
    ||| n == 0x3000
}

/// Whether the character is white space.
pub fn is_white(c: char) -> (r: bool)
    ensures
        r == white(c),
{
    let n: u32 = c as u32;
    (0x9 <= n && n <= 0xd) || n == 0x20 || n == 0x85 || n == 0xa0 || n == 0x1680 || (0x2000 <= n
        && n <= 0x200a) || n == 0x2028 || n == 0x2029 || n == 0x202f || n == 0x205f || n == 0x3000
}

/// `s` without the white space that it begins with.
pub open spec fn trim_left(s: Seq<char>) -> Seq<char>
    decreases s.len(),
{
    if s.len() > 0 && white(s[0]) {
        trim_left(s.drop_first())
    } else {
        s
    }
}

/// `s` without the white space that it ends with.
pub open spec fn trim_right(s: Seq<char>) -> Seq<char>
    decreases s.len(),
{
    if s.len() > 0 && white(s.last()) {
        trim_right(s.drop_last())
    } else {
        s
    }
}

/// `s` without white space at either end.
pub open spec fn trimmed(s: Seq<char>) -> Seq<char> {
    trim_right(trim_left(s))
}

/// Trimming at the end leaves the first character, where it leaves any.
pub proof fn lemma_trim_right_keeps_first(t: Seq<char>)
    ensures
        trim_right(t).len() > 0 ==> t.len() > 0 && trim_right(t)[0] == t[0],
        t.len() > 0 && !white(t[0]) ==> trim_right(t).len() > 0,
    decreases t.len(),
{
    if t.len() > 0 && white(t.last()) {
        lemma_trim_right_keeps_first(t.drop_last());
    }
}

/// The text without the white space that it begins with.
pub fn trim_start<'a>(s: &'a [char]) -> (r: &'a [char])
    ensures
        r@ == trim_left(s@),
{
    let n: usize = s.len();
    let mut a: usize = 0;
    assert(s@.skip(0) == s@);
    while a < n && is_white(s[a])
        invariant
            a <= n == s@.len(),
            trim_left(s@) == trim_left(s@.skip(a as int)),
        decreases n - a,
    {
        assert(s@.skip(a as int).drop_first() == s@.skip(a + 1));
        a += 1;
    }
    assert(s@.skip(a as int) == s@.subrange(a as int, n as int));
    slice_subrange(s, a, n)
}

/// The text without the white space that it ends with.
pub fn trim_end<'a>(s: &'a [char]) -> (r: &'a [char])
    ensures
        r@ == trim_right(s@),
{
    let n: usize = s.len();
    let mut b: usize = n;
    assert(s@.take(n as int) == s@);
    while 0 < b && is_white(s[b - 1])
        invariant
            b <= n == s@.len(),
            trim_right(s@) == trim_right(s@.take(b as int)),
        decreases b,
    {
        assert(s@.take(b as int).drop_last() == s@.take(b - 1));
        b -= 1;
    }
    slice_subrange(s, 0, b)
}

/// The text without white space at either end.
pub fn trim<'a>(s: &'a [char]) -> (r: &'a [char])
    ensures
        r@ == trimmed(s@),
{
    trim_end(trim_start(s))
}

// ---- splitting

/// The place of the first `c` in `s`, or the length of `s` if there is none.
pub open spec fn find_char(s: Seq<char>, c: char) -> int
    decreases s.len(),
{
    if s.len() == 0 || s[0] == c {
        0
    } else {
        1 + find_char(s.drop_first(), c)
    }
}

pub proof fn lemma_find_char(s: Seq<char>, c: char)
    ensures
        0 <= find_char(s, c) <= s.len(),
        find_char(s, c) < s.len() ==> s[find_char(s, c)] == c,
        forall|j: int| 0 <= j < find_char(s, c) ==> s[j] != c,
    decreases s.len(),
{
    if s.len() == 0 || s[0] == c {
    } else {
        let t = s.drop_first();
        lemma_find_char(t, c);
        assert forall|j: int| 0 <= j < find_char(s, c) implies s[j] != c by {
            if j > 0 {
                assert(s[j] == t[j - 1]);
            }
        }
    }
}

/// A place before which there is no `c`, and which holds one or is the end, is
/// the one that `find_char` gives.
pub proof fn lemma_find_char_is(s: Seq<char>, c: char, i: int)
    requires
        0 <= i <= s.len(),
        i < s.len() ==> s[i] == c,
        forall|j: int| 0 <= j < i ==> s[j] != c,
    ensures
        find_char(s, c) == i,
{
    lemma_find_char(s, c);
    if find_char(s, c) < i {
        assert(s[find_char(s, c)] != c);
    }
    if i < find_char(s, c) {
        assert(s[i] != c);
    }
}

/// The place of the first `c` at or after `from`, or the length of the text.
pub fn find_char_from(s: &[char], c: char, from: usize) -> (r: usize)
    requires
        from <= s@.len(),
    ensures
        from <= r <= s@.len(),
        r - from == find_char(s@.skip(from as int), c),
{
    let mut i: usize = from;
    while i < s.len() && s[i] != c
        invariant
            from <= i <= s@.len(),
            forall|j: int| from <= j < i ==> s@[j] != c,
        decreases s@.len() - i,
    {
        i += 1;
    }
    proof {
        lemma_find_char_is(s@.skip(from as int), c, i - from);
    }
    i
}

/// A line without the carriage return that ends it, if one does.
pub open spec fn without_cr(s: Seq<char>) -> Seq<char> {
    if s.len() > 0 && s.last() == '\r' {
        s.drop_last()
    } else {
        s
    }
}

/// The lines of a text. A line ends with a line feed, which a carriage return
/// may precede; neither belongs to the line. The last line needs no ending.
pub open spec fn lines_of(s: Seq<char>) -> Seq<Seq<char>>
    decreases s.len(),
    via lines_of_decreases
{
    if s.len() == 0 {
        seq![]
    } else {
        let i = find_char(s, '\n');
        if i >= s.len() {
            seq![s]
        } else {
            seq![without_cr(s.take(i))] + lines_of(s.skip(i + 1))
        }
    }
}

#[via_fn]
proof fn lines_of_decreases(s: Seq<char>) {
    lemma_find_char(s, '\n');
}

/// The lines of a text.
pub fn split_lines<'a>(s: &'a [char]) -> (r: Vec<&'a [char]>)
    ensures
        slices(r@) == lines_of(s@),
{
    let mut r: Vec<&'a [char]> = Vec::new();
    let mut pos: usize = 0;
    assert(s@.skip(0) == s@);
    assert(slices(r@) + lines_of(s@) == lines_of(s@));
    while pos < s.len()
        invariant
            pos <= s@.len(),
            slices(r@) + lines_of(s@.skip(pos as int)) == lines_of(s@),
        decreases s@.len() - pos,
    {
        let ghost rest = s@.skip(pos as int);
        let ghost before = slices(r@);
        let i: usize = find_char_from(s, '\n', pos);
        if i >= s.len() {
            r.push(slice_subrange(s, pos, s.len()));
            assert(s@.subrange(pos as int, s@.len() as int) == rest);
            assert(slices(r@) == before.push(rest));
            assert(before.push(rest) == before + seq![rest]);
            return r;
        }
        let end: usize = if pos < i && s[i - 1] == '\r' {
            i - 1
        } else {
            i
        };
        r.push(slice_subrange(s, pos, end));
        proof {
            let line = rest.take(i - pos);
            assert(s@.subrange(pos as int, end as int) == without_cr(line));
            assert(slices(r@) == before.push(without_cr(line)));
            assert(rest.skip(i - pos + 1) == s@.skip(i + 1));
            assert(before + (seq![without_cr(line)] + lines_of(s@.skip(i + 1))) == before.push(
                without_cr(line),
            ) + lines_of(s@.skip(i + 1)));
        }
        pos = i + 1;
    }
    assert(s@.skip(pos as int) == Seq::<char>::empty());
    assert(slices(r@) + lines_of(s@.skip(pos as int)) == slices(r@));
    r
}

/// The pieces of a text between the separators `c`; there is at least one.
pub open spec fn pieces(s: Seq<char>, c: char) -> Seq<Seq<char>>
    decreases s.len(),
    via pieces_decreases
{
    let i = find_char(s, c);
    if i >= s.len() {
        seq![s]
    } else {
        seq![s.take(i)] + pieces(s.skip(i + 1), c)
    }
}

#[via_fn]
proof fn pieces_decreases(s: Seq<char>, c: char) {
    lemma_find_char(s, c);
}

/// The pieces of a text between the separators `c`.
pub fn split_on<'a>(s: &'a [char], c: char) -> (r: Vec<&'a [char]>)
    ensures
        slices(r@) == pieces(s@, c),
{
    let mut r: Vec<&'a [char]> = Vec::new();
    let mut pos: usize = 0;
    assert(s@.skip(0) == s@);
    assert(slices(r@) + pieces(s@, c) == pieces(s@, c));
    loop
        invariant
            pos <= s@.len(),
            slices(r@) + pieces(s@.skip(pos as int), c) == pieces(s@, c),
        decreases s@.len() - pos,
    {
        let ghost rest = s@.skip(pos as int);
        let ghost before = slices(r@);
        let i: usize = find_char_from(s, c, pos);
        r.push(slice_subrange(s, pos, i));
        if i >= s.len() {
            assert(s@.subrange(pos as int, s@.len() as int) == rest);
            assert(slices(r@) == before + seq![rest]);
            return r;
        }
        proof {
            let piece = rest.take(i - pos);
            assert(s@.subrange(pos as int, i as int) == piece);
            assert(slices(r@) == before.push(piece));
            assert(rest.skip(i - pos + 1) == s@.skip(i + 1));
            assert(before + (seq![piece] + pieces(s@.skip(i + 1), c)) == before.push(piece)
                + pieces(s@.skip(i + 1), c));
        }
        pos = i + 1;
    }
}

/// The length of the run of characters that are not white space at the start
/// of `s`.
pub open spec fn word_end(s: Seq<char>) -> int
    decreases s.len(),
{
    if s.len() == 0 || white(s[0]) {
        0
    } else {
        1 + word_end(s.drop_first())
    }
}

pub proof fn lemma_word_end(s: Seq<char>)
    ensures
        0 <= word_end(s) <= s.len(),
        word_end(s) < s.len() ==> white(s[word_end(s)]),
        forall|j: int| 0 <= j < word_end(s) ==> !white(s[j]),
    decreases s.len(),
{
    if s.len() == 0 || white(s[0]) {
    } else {
        let t = s.drop_first();
        lemma_word_end(t);
        assert forall|j: int| 0 <= j < word_end(s) implies !white(s[j]) by {
            if j > 0 {
                assert(s[j] == t[j - 1]);
            }
        }
    }
}

pub proof fn lemma_word_end_is(s: Seq<char>, i: int)
    requires
        0 <= i <= s.len(),
        i < s.len() ==> white(s[i]),
        forall|j: int| 0 <= j < i ==> !white(s[j]),
    ensures
        word_end(s) == i,
{
    lemma_word_end(s);
    if word_end(s) < i {
        assert(!white(s[word_end(s)]));
    }
    if i < word_end(s) {
        assert(!white(s[i]));
    }
}

pub proof fn lemma_trim_left(s: Seq<char>)
    ensures
        trim_left(s).len() <= s.len(),
        trim_left(s) == s.skip(s.len() - trim_left(s).len()),
        forall|j: int| 0 <= j < s.len() - trim_left(s).len() ==> white(s[j]),
        trim_left(s).len() > 0 ==> !white(trim_left(s)[0]),
    decreases s.len(),
{
    if s.len() > 0 && white(s[0]) {
        let t = s.drop_first();
        lemma_trim_left(t);
        assert(t.skip(t.len() - trim_left(t).len()) == s.skip(s.len() - trim_left(s).len()));
        assert forall|j: int| 0 <= j < s.len() - trim_left(s).len() implies white(s[j]) by {
            if j > 0 {
                assert(s[j] == t[j - 1]);
            }
        }
    } else {
        assert(s.skip(0) == s);
    }
}

/// The words of a text: its longest runs of characters that are not white
/// space.
pub open spec fn words(s: Seq<char>) -> Seq<Seq<char>>
    decreases s.len(),
    via words_decreases
{
    let t = trim_left(s);
    if t.len() == 0 {
        seq![]
    } else {
        seq![t.take(word_end(t))] + words(t.skip(word_end(t)))
    }
}

#[via_fn]
proof fn words_decreases(s: Seq<char>) {
    lemma_trim_left(s);
    lemma_word_end(trim_left(s));
}

/// The words of a text.
pub fn split_words<'a>(s: &'a [char]) -> (r: Vec<&'a [char]>)
    ensures
        slices(r@) == words(s@),
{
    let mut r: Vec<&'a [char]> = Vec::new();
    let n: usize = s.len();
    let mut pos: usize = 0;
    assert(s@.skip(0) == s@);
    assert(slices(r@) + words(s@) == words(s@));
    loop
        invariant
            pos <= n == s@.len(),
            slices(r@) + words(s@.skip(pos as int)) == words(s@),
        decreases n - pos,
    {
        let ghost rest = s@.skip(pos as int);
        let ghost before = slices(r@);
        let mut a: usize = pos;
        assert(s@.skip(a as int) == rest);
        while a < n && is_white(s[a])
            invariant
                pos <= a <= n == s@.len(),
                trim_left(rest) == trim_left(s@.skip(a as int)),
            decreases n - a,
        {
            assert(s@.skip(a as int).drop_first() == s@.skip(a + 1));
            a += 1;
        }
        let ghost t = s@.skip(a as int);
        assert(trim_left(rest) == t);
        if a == n {
            assert(t.len() == 0);
            assert(slices(r@) + words(rest) == slices(r@));
            return r;
        }
        let mut b: usize = a;
        while b < n && !is_white(s[b])
            invariant
                a <= b <= n == s@.len(),
                forall|j: int| a <= j < b ==> !white(s@[j]),
            decreases n - b,
        {
            b += 1;
        }
        proof {
            lemma_word_end_is(t, b - a);
            assert(t.take(b - a) == s@.subrange(a as int, b as int));
            assert(t.skip(b - a) == s@.skip(b as int));
            assert(!white(s@[a as int]));
        }
        r.push(slice_subrange(s, a, b));
        proof {
            let w = t.take(b - a);
            assert(slices(r@) == before.push(w));
            assert(before + (seq![w] + words(s@.skip(b as int))) == before.push(w) + words(
                s@.skip(b as int),
            ));
        }
        pos = b;
    }
}

} // verus!
