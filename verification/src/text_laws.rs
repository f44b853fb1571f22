//! What holds of texts: how they are taken apart, searched and put together.

use crate::compose;
use crate::order;
use crate::search;
use crate::text;
use vstd::prelude::*;

verus! {

// ---- beginnings and ends

/// A text begins with another if and only if it is that text and something after
/// it; what follows the beginning is that something.
pub proof fn prefix_and_rest(s: Seq<char>, p: Seq<char>, t: Seq<char>)
    ensures
        text::has_prefix(p + t, p),
        text::after_prefix(p + t, p) == t,
        text::has_prefix(s, p) ==> s == p + text::after_prefix(s, p),
{
    assert((p + t).take(p.len() as int) =~= p);
    assert((p + t).skip(p.len() as int) =~= t);
    if text::has_prefix(s, p) {
        assert(s =~= s.take(p.len() as int) + s.skip(p.len() as int));
    }
}

/// A text ends with another if and only if it is something and that text after
/// it; what comes before the end is that something.
pub proof fn suffix_and_rest(s: Seq<char>, p: Seq<char>, t: Seq<char>)
    ensures
        text::has_suffix(t + p, p),
        text::before_suffix(t + p, p) == t,
        text::has_suffix(s, p) ==> s == text::before_suffix(s, p) + p,
{
    assert((t + p).skip((t + p).len() - p.len()) =~= p);
    assert((t + p).take((t + p).len() - p.len()) =~= t);
    if text::has_suffix(s, p) {
        assert(s =~= s.take(s.len() - p.len()) + s.skip(s.len() - p.len()));
    }
}

// ---- white space

/// White space is the space, the tabulators, the ends of lines and of pages, and the
/// spaces of other widths and other scripts; nothing else is.
pub proof fn white_space_is_this(c: char)
    ensures
        text::white(c) <==> {
            ||| c == ' ' || c == '\t' || c == '\n' || c == '\r'
            ||| c == '\u{b}' || c == '\u{c}' || c == '\u{85}' || c == '\u{a0}'
            ||| c == '\u{1680}'
            ||| '\u{2000}' <= c <= '\u{200a}'
            ||| c == '\u{2028}' || c == '\u{2029}' || c == '\u{202f}' || c == '\u{205f}'
            ||| c == '\u{3000}'
        },
{
}

/// Whether a text is made of white space alone.
pub open spec fn is_blank(s: Seq<char>) -> bool {
    forall|i: int| 0 <= i < s.len() ==> text::white(#[trigger] s[i])
}

/// Whether a text neither begins nor ends with white space.
pub open spec fn has_solid_ends(s: Seq<char>) -> bool {
    s.len() > 0 ==> !text::white(s[0]) && !text::white(s[s.len() - 1])
}

proof fn lemma_trim_left_blank(a: Seq<char>, s: Seq<char>)
    requires
        is_blank(a),
    ensures
        text::trim_left(a + s) == text::trim_left(s),
    decreases a.len(),
{
    if a.len() == 0 {
        assert(a + s =~= s);
    } else {
        let b = a.drop_first();
        assert forall|i: int| 0 <= i < b.len() implies text::white(#[trigger] b[i]) by {
            assert(text::white(a[i + 1]));
        }
        lemma_trim_left_blank(b, s);
        assert(text::white(a[0]));
        assert((a + s).drop_first() =~= b + s);
    }
}

proof fn lemma_trim_right_blank(s: Seq<char>, b: Seq<char>)
    requires
        is_blank(b),
    ensures
        text::trim_right(s + b) == text::trim_right(s),
    decreases b.len(),
{
    if b.len() == 0 {
        assert(s + b =~= s);
    } else {
        let c = b.drop_last();
        assert forall|i: int| 0 <= i < c.len() implies text::white(#[trigger] c[i]) by {
            assert(text::white(b[i]));
        }
        lemma_trim_right_blank(s, c);
        assert(text::white(b[b.len() - 1]));
        assert((s + b).drop_last() =~= s + c);
    }
}

/// Trimming takes the white space off both ends, and nothing else.
pub proof fn trimming_takes_off_white_space(a: Seq<char>, s: Seq<char>, b: Seq<char>)
    requires
        is_blank(a),
        is_blank(b),
        has_solid_ends(s),
    ensures
        text::trimmed(a + s + b) == s,
{
    assert(a + s + b =~= a + (s + b));
    lemma_trim_left_blank(a, s + b);
    if s.len() > 0 {
        assert((s + b)[0] == s[0]);
        assert(text::trim_left(s + b) == s + b);
        lemma_trim_right_blank(s, b);
        assert(text::trim_right(s) == s);
    } else {
        assert(s + b =~= b + Seq::<char>::empty());
        lemma_trim_left_blank(b, Seq::<char>::empty());
        assert(text::trimmed(a + s + b) =~= s);
    }
}

/// Every text is its trimmed form with white space around it.
pub proof fn white_space_surrounds_the_trimmed(s: Seq<char>) -> (r: (Seq<char>, Seq<char>))
    ensures
        is_blank(r.0),
        is_blank(r.1),
        has_solid_ends(text::trimmed(s)),
        s == r.0 + text::trimmed(s) + r.1,
{
    let t = text::trim_left(s);
    text::lemma_trim_left(s);
    let n = s.len() - t.len();
    let a = s.take(n);
    let b = lemma_trim_right_split(t);
    let u = text::trim_right(t);
    if u.len() > 0 {
        assert(u[0] == t[0]);
    }
    assert(s =~= a + t);
    assert(a + (u + b) =~= a + u + b);
    (a, b)
}

proof fn lemma_trim_right_split(t: Seq<char>) -> (b: Seq<char>)
    ensures
        is_blank(b),
        t == text::trim_right(t) + b,
        text::trim_right(t).len() > 0 ==> !text::white(
            text::trim_right(t)[text::trim_right(t).len() - 1],
        ),
    decreases t.len(),
{
    if t.len() > 0 && text::white(t.last()) {
        let c = lemma_trim_right_split(t.drop_last());
        let b = c.push(t.last());
        assert(t =~= t.drop_last().push(t.last()));
        assert((text::trim_right(t) + c).push(t.last()) =~= text::trim_right(t) + b);
        b
    } else {
        let b = Seq::<char>::empty();
        assert(t =~= text::trim_right(t) + b);
        b
    }
}

// ---- lines, pieces and words

/// The lines of a text with no line feed, but for an empty text, are the text.
pub proof fn one_line_is_itself(l: Seq<char>)
    requires
        !l.contains('\n'),
    ensures
        l.len() > 0 ==> text::lines_of(l) == seq![l],
        l.len() == 0 ==> text::lines_of(l) == Seq::<Seq<char>>::empty(),
{
    text::lemma_find_char(l, '\n');
    let i = text::find_char(l, '\n');
    if i < l.len() {
        assert(l.contains(l[i]));
    }
}

/// A line feed ends a line, and a carriage return right before it belongs to the
/// line no more than the line feed does.
pub proof fn a_feed_ends_a_line(l: Seq<char>, rest: Seq<char>)
    requires
        !l.contains('\n'),
    ensures
        l.len() == 0 || l.last() != '\r' ==> text::lines_of(l + seq!['\n'] + rest) == seq![l]
            + text::lines_of(rest),
        text::lines_of(l + seq!['\r', '\n'] + rest) == seq![l] + text::lines_of(rest),
{
    let a = l + seq!['\n'] + rest;
    assert forall|j: int| 0 <= j < l.len() implies a[j] != '\n' by {
        assert(l.contains(l[j]));
    }
    text::lemma_find_char_is(a, '\n', l.len() as int);
    assert(a.take(l.len() as int) =~= l);
    assert(a.skip(l.len() as int + 1) =~= rest);
    let b = l + seq!['\r', '\n'] + rest;
    let n = l.len() as int + 1;
    assert forall|j: int| 0 <= j < n implies b[j] != '\n' by {
        if j < l.len() {
            assert(l.contains(l[j]));
        }
    }
    text::lemma_find_char_is(b, '\n', n);
    assert(b.take(n) =~= l.push('\r'));
    assert(l.push('\r').drop_last() =~= l);
    assert(b.skip(n + 1) =~= rest);
}

/// The pieces of a text hold no separator, and put together with it they are the
/// text.
pub proof fn pieces_make_the_text(s: Seq<char>, c: char)
    ensures
        text::pieces(s, c).len() > 0,
        forall|i: int|
            0 <= i < text::pieces(s, c).len() ==> !(#[trigger] text::pieces(s, c)[i]).contains(c),
        compose::joined(text::pieces(s, c), seq![c]) == s,
    decreases s.len(),
{
    let i = text::find_char(s, c);
    text::lemma_find_char(s, c);
    let all = text::pieces(s, c);
    let first = s.take(i);
    if first.contains(c) {
        let k = choose|k: int| 0 <= k < first.len() && first[k] == c;
        assert(s[k] != c);
    }
    if i < s.len() {
        let rest = s.skip(i + 1);
        pieces_make_the_text(rest, c);
        assert forall|j: int| 0 <= j < all.len() implies !(#[trigger] all[j]).contains(c) by {
            if j > 0 {
                assert(all[j] == text::pieces(rest, c)[j - 1]);
            }
        }
        joined_texts_join(seq![first], text::pieces(rest, c), seq![c]);
        assert(s =~= first + seq![c] + rest);
    } else {
        assert(first =~= s);
    }
}

/// Whether a text is one word: not empty, and no white space in it.
pub open spec fn is_word(s: Seq<char>) -> bool {
    s.len() > 0 && forall|i: int| 0 <= i < s.len() ==> !text::white(#[trigger] s[i])
}

/// A word is its only word, white space has none, and white space stands between
/// the words of what comes before it and those of what comes after it.
pub proof fn white_space_parts_words(a: Seq<char>, w: char, b: Seq<char>)
    requires
        text::white(w),
    ensures
        text::words(a + seq![w] + b) == text::words(a) + text::words(b),
    decreases a.len(),
{
    let s = a + seq![w] + b;
    let t = text::trim_left(a);
    text::lemma_trim_left(a);
    let n = a.len() - t.len();
    let blank = a.take(n);
    assert forall|i: int| 0 <= i < blank.len() implies text::white(#[trigger] blank[i]) by {
        assert(text::white(a[i]));
    }
    assert(s =~= blank + (t + seq![w] + b));
    lemma_trim_left_blank(blank, t + seq![w] + b);
    lemma_words_trim(t + seq![w] + b, blank);
    lemma_words_trim(t, blank);
    assert(a =~= blank + t);
    if t.len() == 0 {
        assert(t + seq![w] + b =~= seq![w] + b);
        assert forall|i: int| 0 <= i < seq![w].len() implies text::white(#[trigger] seq![w][i]) by {}
        lemma_words_trim(b, seq![w]);
        assert(text::words(t) =~= Seq::<Seq<char>>::empty());
        assert(text::words(a) + text::words(b) =~= text::words(b));
    } else {
        let u = t + seq![w] + b;
        let e = text::word_end(t);
        text::lemma_word_end(t);
        assert(u[0] == t[0]);
        assert(text::trim_left(u) == u);
        assert(text::trim_left(t) == t);
        assert(e > 0) by {
            if e == 0 {
                assert(text::white(t[0]));
            }
        }
        assert forall|j: int| 0 <= j < e implies !text::white(u[j]) by {
            assert(!text::white(t[j]));
        }
        assert(text::white(u[e])) by {
            if e < t.len() {
                assert(u[e] == t[e]);
            }
        }
        text::lemma_word_end_is(u, e);
        let rest = t.skip(e);
        assert(u.skip(e) =~= rest + seq![w] + b);
        assert(u.take(e) =~= t.take(e));
        white_space_parts_words(rest, w, b);
        let first = seq![t.take(e)];
        assert(first + (text::words(rest) + text::words(b)) =~= (first + text::words(rest))
            + text::words(b));
    }
}

proof fn lemma_words_trim(s: Seq<char>, blank: Seq<char>)
    requires
        is_blank(blank),
    ensures
        text::words(blank + s) == text::words(s),
{
    lemma_trim_left_blank(blank, s);
}

/// A word is its only word, and an empty text has none.
pub proof fn a_word_is_its_only_word(w: Seq<char>)
    requires
        is_word(w),
    ensures
        text::words(w) == seq![w],
        text::words(Seq::<char>::empty()) == Seq::<Seq<char>>::empty(),
{
    let none = Seq::<char>::empty();
    assert(text::words(none) =~= Seq::<Seq<char>>::empty());
    assert(!text::white(w[0]));
    assert(text::trim_left(w) == w);
    text::lemma_word_end_is(w, w.len() as int);
    assert(w.take(w.len() as int) =~= w);
    assert(w.skip(w.len() as int) =~= none);
    assert(text::words(w) =~= seq![w]);
}

/// Every word of a text is one word.
pub proof fn words_are_words(s: Seq<char>, i: int)
    requires
        0 <= i < text::words(s).len(),
    ensures
        is_word(text::words(s)[i]),
    decreases s.len(),
{
    let t = text::trim_left(s);
    text::lemma_trim_left(s);
    text::lemma_word_end(t);
    let e = text::word_end(t);
    if i == 0 {
        let w = t.take(e);
        assert(e > 0) by {
            if e == 0 {
                assert(text::white(t[0]));
            }
        }
        assert forall|j: int| 0 <= j < w.len() implies !text::white(#[trigger] w[j]) by {
            assert(!text::white(t[j]));
        }
        assert(text::words(s)[0] == w);
    } else {
        if e == 0 {
            assert(text::white(t[0]));
        }
        words_are_words(t.skip(e), i - 1);
        assert(text::words(s)[i] == text::words(t.skip(e))[i - 1]);
    }
}

/// Words that are put together with single spaces are read back as they are.
pub proof fn joined_words_are_read_back(v: Seq<Seq<char>>)
    requires
        forall|i: int| 0 <= i < v.len() ==> is_word(#[trigger] v[i]),
    ensures
        text::words(compose::joined(v, " "@)) == v,
    decreases v.len(),
{
    reveal_strlit(" ");
    if v.len() == 0 {
        assert(text::words(compose::joined(v, " "@)) =~= v);
    } else {
        let front = v.drop_last();
        assert(is_word(v[v.len() - 1]));
        a_word_is_its_only_word(v.last());
        if v.len() == 1 {
            assert(seq![v.last()] =~= v);
        } else {
            assert forall|i: int| 0 <= i < front.len() implies is_word(#[trigger] front[i]) by {
                assert(is_word(v[i]));
            }
            joined_words_are_read_back(front);
            white_space_parts_words(compose::joined(front, " "@), ' ', v.last());
            assert(" "@ =~= seq![' ']);
            assert(front + seq![v.last()] =~= v);
        }
    }
}

// ---- putting together

/// Nothing put together is nothing, and one text is itself.
pub proof fn one_text_joins_to_itself(s: Seq<char>, sep: Seq<char>)
    ensures
        compose::joined(Seq::<Seq<char>>::empty(), sep) == Seq::<char>::empty(),
        compose::joined(seq![s], sep) == s,
{
}

/// What two lists of texts are put together to is what each is, with the separator
/// in between.
pub proof fn joined_texts_join(a: Seq<Seq<char>>, b: Seq<Seq<char>>, sep: Seq<char>)
    requires
        a.len() > 0,
        b.len() > 0,
    ensures
        compose::joined(a + b, sep) == compose::joined(a, sep) + sep + compose::joined(b, sep),
    decreases b.len(),
{
    let all = a + b;
    let front = b.drop_last();
    assert(all.drop_last() =~= a + front);
    assert(all.last() == b.last());
    if b.len() == 1 {
        assert(a + front =~= a);
    } else {
        joined_texts_join(a, front, sep);
        assert(compose::joined(all, sep) =~= compose::joined(a, sep) + sep + compose::joined(b, sep));
    }
}

// ---- searching

/// A text stands in another if and only if the other is that text with something,
/// or nothing, on either side.
pub proof fn occurring_is_standing_between(s: Seq<char>, a: Seq<char>, p: Seq<char>, b: Seq<char>)
    ensures
        search::occurs(a + p + b, p),
        search::occurs_at(a + p + b, p, a.len() as int),
        search::occurs(s, p) ==> exists|x: Seq<char>, y: Seq<char>| s == #[trigger] (x + p + y),
{
    let t = a + p + b;
    assert(t.subrange(a.len() as int, a.len() as int + p.len()) =~= p);
    assert(search::occurs_at(t, p, a.len() as int));
    if search::occurs(s, p) {
        let i = choose|i: int| search::occurs_at(s, p, i);
        let x = s.take(i);
        let y = s.skip(i + p.len());
        assert(s =~= x + p + y);
    }
}

/// The first place of a text in another is one where it stands, and it stands at no
/// earlier one; the last place likewise, with no later one.
pub proof fn first_and_last_places(s: Seq<char>, p: Seq<char>, i: int)
    requires
        0 <= i <= s.len() - p.len(),
        s.subrange(i, i + p.len()) == p,
    ensures
        ({
            let f = search::first_at(s, p);
            let l = search::last_at(s, p);
            &&& 0 <= f <= i <= l <= s.len() - p.len()
            &&& s.subrange(f, f + p.len()) == p
            &&& s.subrange(l, l + p.len()) == p
        }),
{
    assert(search::occurs_at(s, p, i));
    let f0 = lemma_first(s, p, i);
    let l0 = lemma_last(s, p, i);
    assert(search::is_first_at(s, p, f0));
    assert(search::is_last_at(s, p, l0));
    let f = search::first_at(s, p);
    let l = search::last_at(s, p);
    if i < f {
        assert(!search::occurs_at(s, p, i));
    }
    if l < i {
        assert(!search::occurs_at(s, p, i));
    }
}

proof fn lemma_first(s: Seq<char>, p: Seq<char>, i: int) -> (r: int)
    requires
        search::occurs_at(s, p, i),
    ensures
        search::is_first_at(s, p, r),
    decreases i,
{
    if search::is_first_at(s, p, i) {
        i
    } else {
        let j = choose|j: int| 0 <= j < i && search::occurs_at(s, p, j);
        lemma_first(s, p, j)
    }
}

proof fn lemma_last(s: Seq<char>, p: Seq<char>, i: int) -> (r: int)
    requires
        search::occurs_at(s, p, i),
    ensures
        search::is_last_at(s, p, r),
    decreases s.len() - i,
{
    if search::is_last_at(s, p, i) {
        i
    } else {
        let j = choose|j: int| i < j && search::occurs_at(s, p, j);
        lemma_last(s, p, j)
    }
}

/// Replacing a character leaves the length and every other character, and none of
/// the replaced one.
pub proof fn replacing_changes_one_character(s: Seq<char>, from: char, to: char, i: int)
    requires
        0 <= i < s.len(),
    ensures
        search::replaced(s, from, to).len() == s.len(),
        s[i] == from ==> search::replaced(s, from, to)[i] == to,
        s[i] != from ==> search::replaced(s, from, to)[i] == s[i],
{
}

/// Two backslashes become one, and any other character stays; what follows is
/// treated the same way.
pub proof fn pairs_of_backslashes_become_one(c: char, s: Seq<char>)
    ensures
        search::unescaped(seq!['\\', '\\'] + s) == seq!['\\'] + search::unescaped(s),
        c != '\\' || s.len() == 0 || s[0] != '\\' ==> search::unescaped(seq![c] + s) == seq![c]
            + search::unescaped(s),
        search::unescaped(Seq::<char>::empty()) == Seq::<char>::empty(),
{
    assert((seq!['\\', '\\'] + s).skip(2) =~= s);
    assert((seq![c] + s).drop_first() =~= s);
}

/// However often a text begins with a prefix, all copies are taken off.
pub proof fn all_prefixes_are_taken_off(s: Seq<char>, p: Seq<char>)
    requires
        p.len() > 0,
    ensures
        search::without_prefixes(p + s, p) == search::without_prefixes(s, p),
        !text::has_prefix(s, p) ==> search::without_prefixes(s, p) == s,
{
    prefix_and_rest(s, p, s);
}

/// All copies of a character are taken off both ends, and nothing else.
pub proof fn a_character_is_taken_off_both_ends(a: Seq<char>, s: Seq<char>, b: Seq<char>, c: char)
    requires
        forall|i: int| 0 <= i < a.len() ==> #[trigger] a[i] == c,
        forall|i: int| 0 <= i < b.len() ==> #[trigger] b[i] == c,
        s.len() > 0 ==> s[0] != c && s[s.len() - 1] != c,
    ensures
        search::without_trailing(search::without_leading(a + s + b, c), c) == s,
{
    assert(a + s + b =~= a + (s + b));
    lemma_leading(a, s + b, c);
    if s.len() > 0 {
        assert((s + b)[0] == s[0]);
        lemma_trailing(s, b, c);
    } else {
        let none = Seq::<char>::empty();
        assert(s + b =~= b + none);
        lemma_leading(b, none, c);
        assert(search::without_trailing(none, c) =~= s);
    }
}

proof fn lemma_leading(a: Seq<char>, s: Seq<char>, c: char)
    requires
        forall|i: int| 0 <= i < a.len() ==> #[trigger] a[i] == c,
    ensures
        search::without_leading(a + s, c) == search::without_leading(s, c),
    decreases a.len(),
{
    if a.len() == 0 {
        assert(a + s =~= s);
    } else {
        assert((a + s).drop_first() =~= a.drop_first() + s);
        assert(a[0] == c);
        lemma_leading(a.drop_first(), s, c);
    }
}

proof fn lemma_trailing(s: Seq<char>, b: Seq<char>, c: char)
    requires
        forall|i: int| 0 <= i < b.len() ==> #[trigger] b[i] == c,
    ensures
        search::without_trailing(s + b, c) == search::without_trailing(s, c),
    decreases b.len(),
{
    if b.len() == 0 {
        assert(s + b =~= s);
    } else {
        assert((s + b).drop_last() =~= s + b.drop_last());
        assert(b[b.len() - 1] == c);
        lemma_trailing(s, b.drop_last(), c);
    }
}

// ---- numbers and order

/// Another digit behind a number makes ten times as much of it, and the digit.
pub proof fn digits_have_their_place(s: Seq<char>, c: char)
    requires
        '0' <= c <= '9',
    ensures
        compose::digits_value(s.push(c)) == 10 * compose::digits_value(s) + (c as u32 - '0' as u32),
        compose::digits_value(Seq::<char>::empty()) == 0,
{
    assert(s.push(c).drop_last() =~= s);
}

/// A number in decimal has no leading zero, but for zero itself.
pub proof fn decimal_has_no_leading_zero(n: nat)
    ensures
        n == 0 ==> compose::decimal(n) == seq!['0'],
        n > 0 ==> compose::decimal(n)[0] != '0',
    decreases n,
{
    if n >= 10 {
        decimal_has_no_leading_zero(n / 10);
        compose::lemma_decimal(n / 10);
        assert(compose::decimal(n)[0] == compose::decimal(n / 10)[0]);
    }
}

/// A text is read as a number if and only if it is made of digits, at least one,
/// with at most one plus sign before them, and the number is below 2^64.
pub proof fn numbers_are_read(s: Seq<char>)
    requires
        s.len() > 0,
        forall|i: int| 0 <= i < s.len() ==> '0' <= #[trigger] s[i] <= '9',
    ensures
        compose::digits_value(s) <= 0xffff_ffff_ffff_ffff ==> compose::number_in(s) == Some(
            compose::digits_value(s) as u64,
        ),
        compose::digits_value(s) > 0xffff_ffff_ffff_ffff ==> compose::number_in(s) is None,
        compose::number_in(seq!['+'] + s) == compose::number_in(s),
{
    assert(s[0] != '+');
    assert((seq!['+'] + s).drop_first() =~= s);
}

/// A text with a character that is no digit, other than a plus sign at the start,
/// is no number, nor is one without digits.
pub proof fn other_texts_are_no_numbers(s: Seq<char>, i: int)
    requires
        s.len() == 0 || s == seq!['+'] || (0 <= i < s.len() && !('0' <= s[i] <= '9') && (i > 0 || s[0]
            != '+')),
    ensures
        compose::number_in(s) is None,
{
    let d = compose::without_plus(s);
    if s.len() > 0 && s != seq!['+'] {
        if s[0] == '+' {
            assert(d[i - 1] == s[i]);
            lemma_no_digit(s[i]);
            assert(!compose::is_digit(d[i - 1]));
        } else {
            lemma_no_digit(s[i]);
            assert(!compose::is_digit(d[i]));
        }
    }
}

proof fn lemma_no_digit(c: char)
    requires
        !('0' <= c <= '9'),
    ensures
        !compose::is_digit(c),
{
}

/// A text comes before another if it is the beginning of it, or if at the first
/// place where they differ its character is the smaller one.
pub proof fn order_is_by_the_first_difference(
    p: Seq<char>,
    c: char,
    a: Seq<char>,
    d: char,
    b: Seq<char>,
)
    ensures
        order::lex_le(p, p + b),
        b.len() > 0 ==> !order::lex_le(p + b, p),
        c != d ==> (order::lex_le(p + seq![c] + a, p + seq![d] + b) <==> (c as u32) < (d as u32)),
    decreases p.len(),
{
    if p.len() == 0 {
        assert(p + b =~= b);
        assert(p + seq![c] + a =~= seq![c] + a);
        assert(p + seq![d] + b =~= seq![d] + b);
    } else {
        let q = p.drop_first();
        order_is_by_the_first_difference(q, c, a, d, b);
        assert((p + b).drop_first() =~= q + b);
        assert((p + seq![c] + a).drop_first() =~= q + seq![c] + a);
        assert((p + seq![d] + b).drop_first() =~= q + seq![d] + b);
    }
}

/// The digit of a number below ten is as many characters behind `0` as the number says.
pub proof fn a_digit_stands_for_its_number(n: nat)
    requires
        n < 10,
    ensures
        compose::digit(n) as int == '0' as int + n,
        compose::decimal(n) == seq![compose::digit(n)],
{
}

} // verus!
