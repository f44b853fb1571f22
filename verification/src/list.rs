//! List files: one library key on a line, blank lines and `#` comments aside.

use crate::compose;
use crate::config;
use crate::text;
use vstd::prelude::*;
use vstd::string::*;

verus! {

/// What `rlib init list` writes.
pub const LIST_TEMPLATE: &'static str = "\
#   Show active keys in this file:
#      rlib list rlib.list
#
#   Add a key to this file (after building it with rlib):
#      rlib rlib.list add tokio_1_52_3_full
#
#   Remove a key from this file:
#      rlib rlib.list remove tokio_1_52_3_full
#
# Add your library keys below:


";

/// Each of the texts, trimmed.
pub open spec fn all_trimmed(lines: Seq<Seq<char>>) -> Seq<Seq<char>> {
    lines.map_values(|l: Seq<char>| text::trimmed(l))
}

/// The lines that say something.
pub open spec fn telling(lines: Seq<Seq<char>>) -> Seq<Seq<char>> {
    lines.filter(|l: Seq<char>| !config::says_nothing(l))
}

/// The keys of a list file: its lines, trimmed, but for empty lines and
/// comments.
pub open spec fn active(content: Seq<char>) -> Seq<Seq<char>> {
    telling(all_trimmed(text::lines_of(content)))
}

/// What another line adds to the lines that say something.
pub proof fn lemma_telling_push(s: Seq<Seq<char>>, l: Seq<char>)
    ensures
        telling(s.push(l)) == if config::says_nothing(l) {
            telling(s)
        } else {
            telling(s).push(l)
        },
{
    reveal(Seq::filter);
    assert(s.push(l).drop_last() == s);
}

/// The keys of a list file.
pub fn active_lines(content: &str) -> (r: Vec<String>)
    ensures
        text::texts(r@) == active(content@),
{
    let source = text::chars_of(content);
    let lines = text::split_lines(source.as_slice());
    let ghost all = all_trimmed(text::slices(lines@));
    let mut r: Vec<String> = Vec::new();
    let mut i: usize = 0;
    proof {
        reveal(Seq::filter);
        assert(all.take(0) == Seq::<Seq<char>>::empty());
        assert(text::texts(r@) == telling(all.take(0)));
    }
    while i < lines.len()
        invariant
            i <= lines@.len(),
            all == all_trimmed(text::slices(lines@)),
            text::texts(r@) == telling(all.take(i as int)),
        decreases lines@.len() - i,
    {
        let t = text::trim(lines[i]);
        proof {
            assert(all.take(i + 1) == all.take(i as int).push(t@));
            lemma_telling_push(all.take(i as int), t@);
        }
        let ghost before = text::texts(r@);
        if t.len() > 0 && t[0] != '#' {
            let s = text::string_of(t);
            r.push(s);
            assert(text::texts(r@) == before.push(s@));
        }
        i += 1;
    }
    assert(all.take(lines@.len() as int) == all);
    r
}

/// Whether the string is one of the list.
pub fn has_string(v: &Vec<String>, s: &str) -> (r: bool)
    ensures
        r == text::texts(v@).contains(s@),
{
    let ghost t = text::texts(v@);
    let mut i: usize = 0;
    while i < v.len()
        invariant
            i <= v@.len(),
            t == text::texts(v@),
            forall|j: int| 0 <= j < i ==> t[j] != s@,
        decreases v@.len() - i,
    {
        assert(t[i as int] == v@[i as int]@);
        if text::same_str(v[i].as_str(), s) {
            return true;
        }
        i += 1;
    }
    false
}

/// The content of a list file after `key` has been put on a line of its own at
/// the end.
pub open spec fn with_key(content: Seq<char>, key: Seq<char>) -> Seq<char> {
    let head = if content.len() > 0 && content.last() != '\n' {
        content.push('\n')
    } else {
        content
    };
    (head + key).push('\n')
}

/// The content of a list file after `key` has been put at its end.
pub fn append_key(content: &str, key: &str) -> (r: String)
    ensures
        r@ == with_key(content@, key@),
{
    let source = text::chars_of(content);
    let mut r = content.to_owned();
    if source.len() > 0 && source[source.len() - 1] != '\n' {
        r.push('\n');
    }
    r.append(key);
    r.push('\n');
    r
}

/// The lines, each with a line feed after it.
pub open spec fn unlined(lines: Seq<Seq<char>>) -> Seq<char>
    decreases lines.len(),
{
    if lines.len() == 0 {
        seq![]
    } else {
        (unlined(lines.drop_last()) + lines.last()).push('\n')
    }
}

/// The lines that are not `key` when trimmed.
pub open spec fn other_lines(lines: Seq<Seq<char>>, key: Seq<char>) -> Seq<Seq<char>> {
    lines.filter(|l: Seq<char>| text::trimmed(l) != key)
}

/// The content of a list file without the lines that hold `key`.
pub open spec fn without_key(content: Seq<char>, key: Seq<char>) -> Seq<char> {
    unlined(other_lines(text::lines_of(content), key))
}

/// The content of a list file without the lines that hold `key`.
pub fn drop_key(content: &str, key: &str) -> (r: String)
    ensures
        r@ == without_key(content@, key@),
{
    let source = text::chars_of(content);
    let lines = text::split_lines(source.as_slice());
    let ghost all = text::slices(lines@);
    let mut r = String::new();
    let mut i: usize = 0;
    proof {
        reveal(Seq::filter);
        assert(all.take(0) == Seq::<Seq<char>>::empty());
        assert(other_lines(all.take(0), key@) == Seq::<Seq<char>>::empty());
    }
    while i < lines.len()
        invariant
            i <= lines@.len(),
            all == text::slices(lines@),
            r@ == unlined(other_lines(all.take(i as int), key@)),
        decreases lines@.len() - i,
    {
        let line = lines[i];
        proof {
            reveal(Seq::filter);
            let t = all.take(i + 1);
            assert(t.drop_last() == all.take(i as int));
            assert(t.last() == line@);
        }
        if !text::same(text::trim(line), key) {
            let s = text::string_of(line);
            proof {
                let before = other_lines(all.take(i as int), key@);
                assert(other_lines(all.take(i + 1), key@) == before.push(line@));
                assert(before.push(line@).drop_last() == before);
            }
            r.append(s.as_str());
            r.push('\n');
        }
        i += 1;
    }
    assert(all.take(lines@.len() as int) == all);
    r
}

// ---- laws

/// A text that is a key when it stands on a line: trimmed, not empty, no
/// comment and no line feed in it.
pub open spec fn is_plain_key(key: Seq<char>) -> bool {
    text::trimmed(key) == key && !config::says_nothing(key) && !key.contains('\n')
}

proof fn lemma_trim_left_push(s: Seq<char>, w: char)
    ensures
        text::trim_left(s).len() > 0 ==> text::trim_left(s.push(w)) == text::trim_left(s).push(w),
        text::trim_left(s).len() == 0 && text::white(w) ==> text::trim_left(s.push(w)).len() == 0,
    decreases s.len(),
{
    if s.len() > 0 && text::white(s[0]) {
        lemma_trim_left_push(s.drop_first(), w);
        assert(s.push(w).drop_first() == s.drop_first().push(w));
        assert(s.push(w)[0] == s[0]);
    } else if s.len() == 0 {
        if text::white(w) {
            assert(s.push(w).drop_first().len() == 0);
            assert(text::trim_left(s.push(w)) == text::trim_left(s.push(w).drop_first()));
        }
    } else {
        assert(s.push(w)[0] == s[0]);
    }
}

proof fn lemma_trimmed_push(s: Seq<char>, w: char)
    requires
        text::white(w),
    ensures
        text::trimmed(s.push(w)) == text::trimmed(s),
{
    lemma_trim_left_push(s, w);
    let t = text::trim_left(s);
    if t.len() > 0 {
        assert(t.push(w).drop_last() == t);
    } else {
        assert(text::trim_left(s.push(w)) =~= t);
    }
}

proof fn lemma_trimmed_without_cr(s: Seq<char>)
    ensures
        text::trimmed(text::without_cr(s)) == text::trimmed(s),
{
    if s.len() > 0 && s.last() == '\r' {
        assert(s == s.drop_last().push('\r'));
        lemma_trimmed_push(s.drop_last(), '\r');
    }
}

/// Where the first part ends with a line feed or is empty, the lines of two
/// parts are those of the first and then those of the second.
pub proof fn lemma_lines_add(a: Seq<char>, b: Seq<char>)
    requires
        a.len() == 0 || a.last() == '\n',
    ensures
        text::lines_of(a + b) == text::lines_of(a) + text::lines_of(b),
    decreases a.len(),
{
    if a.len() == 0 {
        assert(a + b == b);
        assert(text::lines_of(a) + text::lines_of(b) == text::lines_of(b));
    } else {
        let i = text::find_char(a, '\n');
        text::lemma_find_char(a, '\n');
        assert(i < a.len()) by {
            if i == a.len() {
                assert(a[a.len() - 1] != '\n');
            }
        }
        text::lemma_find_char_is(a + b, '\n', i);
        let rest = a.skip(i + 1);
        if rest.len() > 0 {
            assert(rest.last() == a.last());
        }
        lemma_lines_add(rest, b);
        assert((a + b).take(i) == a.take(i));
        assert((a + b).skip(i + 1) == rest + b);
        let head = seq![text::without_cr(a.take(i))];
        assert((head + text::lines_of(rest)) + text::lines_of(b) == head + (text::lines_of(rest)
            + text::lines_of(b)));
    }
}

proof fn lemma_all_trimmed_add(a: Seq<Seq<char>>, b: Seq<Seq<char>>)
    ensures
        all_trimmed(a + b) == all_trimmed(a) + all_trimmed(b),
{
    assert(all_trimmed(a + b) =~= all_trimmed(a) + all_trimmed(b));
}

/// A line feed after a text that does not end with one changes none of its
/// lines but for white space.
proof fn lemma_lines_closed(a: Seq<char>)
    requires
        a.len() > 0,
        a.last() != '\n',
    ensures
        all_trimmed(text::lines_of(a.push('\n'))) == all_trimmed(text::lines_of(a)),
    decreases a.len(),
{
    let i = text::find_char(a, '\n');
    text::lemma_find_char(a, '\n');
    let c = a.push('\n');
    text::lemma_find_char_is(c, '\n', i);
    if i == a.len() {
        assert(c.take(i) == a);
        assert(c.skip(i + 1) == Seq::<char>::empty());
        lemma_trimmed_without_cr(a);
        assert(text::lines_of(c.skip(i + 1)) == Seq::<Seq<char>>::empty());
        assert(text::lines_of(c) =~= seq![text::without_cr(a)]);
        assert(text::lines_of(a) == seq![a]);
        assert(all_trimmed(text::lines_of(c)) =~= all_trimmed(text::lines_of(a)));
    } else {
        let rest = a.skip(i + 1);
        assert(rest.len() > 0) by {
            if rest.len() == 0 {
                assert(i == a.len() - 1);
            }
        }
        assert(rest.last() == a.last());
        lemma_lines_closed(rest);
        assert(c.take(i) == a.take(i));
        assert(c.skip(i + 1) == rest.push('\n'));
        let head = seq![text::without_cr(a.take(i))];
        lemma_all_trimmed_add(head, text::lines_of(rest));
        lemma_all_trimmed_add(head, text::lines_of(rest.push('\n')));
    }
}

/// The lines of one line with a line feed after it.
pub proof fn lemma_lines_one(l: Seq<char>)
    requires
        !l.contains('\n'),
    ensures
        text::lines_of(l.push('\n')) == seq![text::without_cr(l)],
{
    let c = l.push('\n');
    assert forall|j: int| 0 <= j < l.len() implies c[j] != '\n' by {
        assert(l.contains(l[j]));
    }
    text::lemma_find_char_is(c, '\n', l.len() as int);
    assert(c.take(l.len() as int) == l);
    assert(c.skip(l.len() as int + 1) == Seq::<char>::empty());
    assert(text::lines_of(c.skip(l.len() as int + 1)) == Seq::<Seq<char>>::empty());
    assert(text::lines_of(c) =~= seq![text::without_cr(l)]);
}

/// Adding a key leaves the text before it as it is.
pub proof fn add_keeps_the_text(content: Seq<char>, key: Seq<char>)
    ensures
        text::has_prefix(with_key(content, key), content),
{
    assert(with_key(content, key).take(content.len() as int) =~= content);
}

/// Adding a key puts it after the keys that are there.
pub proof fn add_appends(content: Seq<char>, key: Seq<char>)
    requires
        is_plain_key(key),
    ensures
        active(with_key(content, key)) == active(content).push(key),
{
    let head = if content.len() > 0 && content.last() != '\n' {
        content.push('\n')
    } else {
        content
    };
    if content.len() > 0 && content.last() != '\n' {
        lemma_lines_closed(content);
    }
    let tail = key.push('\n');
    assert(with_key(content, key) == head + tail);
    lemma_lines_add(head, tail);
    lemma_lines_one(key);
    lemma_all_trimmed_add(text::lines_of(head), text::lines_of(tail));
    lemma_trimmed_without_cr(key);
    let all = all_trimmed(text::lines_of(content));
    assert(all_trimmed(text::lines_of(tail)) =~= seq![key]);
    assert(all + seq![key] == all.push(key));
    lemma_telling_push(all, key);
}

/// Adding a key that is not there leaves no key twice, if none was there twice.
pub proof fn add_keeps_distinct(content: Seq<char>, key: Seq<char>)
    requires
        is_plain_key(key),
        active(content).no_duplicates(),
        !active(content).contains(key),
    ensures
        active(with_key(content, key)).no_duplicates(),
{
    add_appends(content, key);
    let a = active(content);
    let b = a.push(key);
    assert forall|i: int, j: int| 0 <= i < b.len() && 0 <= j < b.len() && i != j implies b[i]
        != b[j] by {
        if i < a.len() {
            assert(a.contains(a[i]));
        }
        if j < a.len() {
            assert(a.contains(a[j]));
        }
    }
}

/// No line of a text holds a line feed.
pub proof fn lemma_lines_hold_no_feed(s: Seq<char>)
    ensures
        forall|i: int| 0 <= i < text::lines_of(s).len() ==> !(#[trigger] text::lines_of(s)[i]).contains('\n'),
    decreases s.len(),
{
    if s.len() > 0 {
        let i = text::find_char(s, '\n');
        text::lemma_find_char(s, '\n');
        if i < s.len() {
            let rest = s.skip(i + 1);
            lemma_lines_hold_no_feed(rest);
            let first = text::without_cr(s.take(i));
            assert(!first.contains('\n')) by {
                assert forall|j: int| 0 <= j < first.len() implies first[j] != '\n' by {
                    assert(first[j] == s[j]);
                }
            }
            let all = text::lines_of(s);
            assert forall|j: int| 0 <= j < all.len() implies !(#[trigger] all[j]).contains('\n') by {
                if j > 0 {
                    assert(all[j] == text::lines_of(rest)[j - 1]);
                }
            }
        } else {
            assert(text::lines_of(s) == seq![s]);
            assert(!s.contains('\n'));
        }
    }
}

/// The lines of a text that is made of lines, each with a line feed after it, are
/// these lines but for white space.
pub proof fn lemma_lines_of_unlined(lines: Seq<Seq<char>>)
    requires
        forall|i: int| 0 <= i < lines.len() ==> !(#[trigger] lines[i]).contains('\n'),
    ensures
        all_trimmed(text::lines_of(unlined(lines))) == all_trimmed(lines),
    decreases lines.len(),
{
    if lines.len() == 0 {
        assert(text::lines_of(unlined(lines)) == Seq::<Seq<char>>::empty());
        assert(all_trimmed(text::lines_of(unlined(lines))) =~= all_trimmed(lines));
    } else {
        let front = lines.drop_last();
        let last = lines.last();
        assert forall|i: int| 0 <= i < front.len() implies !(#[trigger] front[i]).contains('\n') by {
            assert(front[i] == lines[i]);
        }
        lemma_lines_of_unlined(front);
        let a = unlined(front);
        let b = last.push('\n');
        assert(unlined(lines) == a + b);
        if a.len() > 0 {
            assert(front.len() > 0);
            assert(a.last() == '\n');
        }
        lemma_lines_add(a, b);
        assert(lines[lines.len() - 1] == last);
        lemma_lines_one(last);
        lemma_trimmed_without_cr(last);
        lemma_all_trimmed_add(text::lines_of(a), text::lines_of(b));
        assert(all_trimmed(text::lines_of(b)) =~= seq![text::trimmed(last)]);
        assert(all_trimmed(lines) =~= all_trimmed(front) + seq![text::trimmed(last)]);
    }
}

proof fn lemma_filters(lines: Seq<Seq<char>>, key: Seq<char>)
    ensures
        telling(all_trimmed(other_lines(lines, key))) == telling(all_trimmed(lines)).filter(
            |l: Seq<char>| l != key,
        ),
    decreases lines.len(),
{
    reveal(Seq::filter);
    let differs = |l: Seq<char>| l != key;
    if lines.len() == 0 {
        assert(all_trimmed(other_lines(lines, key)) =~= Seq::<Seq<char>>::empty());
        assert(all_trimmed(lines) =~= Seq::<Seq<char>>::empty());
    } else {
        let front = lines.drop_last();
        let last = lines.last();
        let t = text::trimmed(last);
        lemma_filters(front, key);
        assert(all_trimmed(lines) =~= all_trimmed(front).push(t));
        lemma_telling_push(all_trimmed(front), t);
        let f = telling(all_trimmed(front));
        if t != key {
            assert(other_lines(lines, key) == other_lines(front, key).push(last));
            assert(all_trimmed(other_lines(lines, key)) =~= all_trimmed(
                other_lines(front, key),
            ).push(t));
            lemma_telling_push(all_trimmed(other_lines(front, key)), t);
            if !config::says_nothing(t) {
                assert(f.push(t).drop_last() == f);
            }
        } else {
            assert(other_lines(lines, key) == other_lines(front, key));
            if !config::says_nothing(t) {
                assert(f.push(t).drop_last() == f);
            }
        }
    }
}

/// Removing a key takes away that key, every time it is there, and no other;
/// the others stay in their order.
pub proof fn remove_removes(content: Seq<char>, key: Seq<char>)
    ensures
        active(without_key(content, key)) == active(content).filter(|l: Seq<char>| l != key),
        !active(without_key(content, key)).contains(key),
{
    let lines = text::lines_of(content);
    lemma_lines_hold_no_feed(content);
    let rest = other_lines(lines, key);
    assert forall|i: int| 0 <= i < rest.len() implies !(#[trigger] rest[i]).contains('\n') by {
        lemma_filter_from(lines, |l: Seq<char>| text::trimmed(l) != key, i);
    }
    lemma_lines_of_unlined(rest);
    lemma_filters(lines, key);
    let a = active(content);
    let f = a.filter(|l: Seq<char>| l != key);
    if f.contains(key) {
        let i = choose|i: int| 0 <= i < f.len() && f[i] == key;
        a.lemma_filter_pred(|l: Seq<char>| l != key, i);
    }
}

proof fn lemma_filter_from(s: Seq<Seq<char>>, p: spec_fn(Seq<char>) -> bool, i: int)
    requires
        0 <= i < s.filter(p).len(),
    ensures
        exists|j: int| 0 <= j < s.len() && s[j] == s.filter(p)[i],
    decreases s.len(),
{
    reveal(Seq::filter);
    if s.len() > 0 {
        let front = s.drop_last();
        if i < front.filter(p).len() {
            lemma_filter_from(front, p, i);
            let j = choose|j: int| 0 <= j < front.len() && front[j] == front.filter(p)[i];
            assert(s[j] == s.filter(p)[i]);
        } else {
            assert(s[s.len() - 1] == s.filter(p)[i]);
        }
    }
}

proof fn lemma_filter_all(s: Seq<Seq<char>>, key: Seq<char>)
    requires
        !s.contains(key),
    ensures
        s.filter(|l: Seq<char>| l != key) == s,
    decreases s.len(),
{
    reveal(Seq::filter);
    if s.len() > 0 {
        let front = s.drop_last();
        assert(!front.contains(key)) by {
            if front.contains(key) {
                let j = choose|j: int| 0 <= j < front.len() && front[j] == key;
                assert(s[j] == key);
            }
        }
        lemma_filter_all(front, key);
        assert(s[s.len() - 1] != key);
        assert(s == front.push(s.last()));
    }
}

/// Removing a key undoes adding it.
pub proof fn remove_undoes_add(content: Seq<char>, key: Seq<char>)
    requires
        is_plain_key(key),
        !active(content).contains(key),
    ensures
        active(without_key(with_key(content, key), key)) == active(content),
{
    add_appends(content, key);
    remove_removes(with_key(content, key), key);
    let a = active(content);
    lemma_filter_all(a, key);
    reveal(Seq::filter);
    assert(a.push(key).drop_last() == a);
}

/// Where the first of two texts ends with a line feed or is empty, the keys of both
/// together are those of the first and then those of the second.
pub proof fn keys_of_adjoining_texts(a: Seq<char>, b: Seq<char>)
    requires
        a.len() == 0 || a.last() == '\n',
    ensures
        active(a + b) == active(a) + active(b),
{
    lemma_lines_add(a, b);
    lemma_all_trimmed_add(text::lines_of(a), text::lines_of(b));
    lemma_telling_add(all_trimmed(text::lines_of(a)), all_trimmed(text::lines_of(b)));
}

proof fn lemma_telling_add(a: Seq<Seq<char>>, b: Seq<Seq<char>>)
    ensures
        telling(a + b) == telling(a) + telling(b),
    decreases b.len(),
{
    if b.len() == 0 {
        reveal(Seq::filter);
        assert(a + b =~= a);
        assert(telling(a) + telling(b) =~= telling(a));
    } else {
        let front = b.drop_last();
        lemma_telling_add(a, front);
        assert(a + b =~= (a + front).push(b.last()));
        assert(b =~= front.push(b.last()));
        lemma_telling_push(a + front, b.last());
        lemma_telling_push(front, b.last());
        assert(telling(a + b) =~= telling(a) + telling(b));
    }
}

/// The lines of a text that ends with a line feed or is empty, and holds no
/// carriage return, are put together to that text.
proof fn lemma_unlined_lines(s: Seq<char>)
    requires
        s.len() == 0 || s.last() == '\n',
        !s.contains('\r'),
    ensures
        unlined(text::lines_of(s)) == s,
    decreases s.len(),
{
    if s.len() > 0 {
        let i = text::find_char(s, '\n');
        text::lemma_find_char(s, '\n');
        assert(i < s.len()) by {
            if i == s.len() {
                assert(s[s.len() - 1] != '\n');
            }
        }
        let rest = s.skip(i + 1);
        let first = s.take(i);
        if rest.len() > 0 {
            assert(rest.last() == s.last());
        }
        if rest.contains('\r') {
            let k = choose|k: int| 0 <= k < rest.len() && rest[k] == '\r';
            assert(s[k + i + 1] == '\r');
        }
        if first.len() > 0 && first.last() == '\r' {
            assert(s[i - 1] == '\r');
        }
        lemma_unlined_lines(rest);
        lemma_unlined_first(first, text::lines_of(rest));
        assert(s =~= first.push('\n') + rest);
    }
}

pub proof fn lemma_unlined_first(first: Seq<char>, rest: Seq<Seq<char>>)
    ensures
        unlined(seq![first] + rest) == first.push('\n') + unlined(rest),
    decreases rest.len(),
{
    let all = seq![first] + rest;
    if rest.len() == 0 {
        assert(all.drop_last() =~= Seq::<Seq<char>>::empty());
        assert(unlined(Seq::<Seq<char>>::empty()) =~= Seq::<char>::empty());
        assert(all.last() == first);
        assert(unlined(all) =~= first.push('\n') + unlined(rest));
    } else {
        assert(all.drop_last() =~= seq![first] + rest.drop_last());
        lemma_unlined_first(first, rest.drop_last());
        assert(all.last() == rest.last());
        assert(unlined(all) =~= first.push('\n') + unlined(rest));
    }
}

proof fn lemma_no_such_line(lines: Seq<Seq<char>>, key: Seq<char>)
    requires
        is_plain_key(key),
        !telling(all_trimmed(lines)).contains(key),
    ensures
        other_lines(lines, key) == lines,
    decreases lines.len(),
{
    reveal(Seq::filter);
    if lines.len() > 0 {
        let front = lines.drop_last();
        let t = text::trimmed(lines.last());
        let f = telling(all_trimmed(front));
        assert(all_trimmed(lines) =~= all_trimmed(front).push(t));
        lemma_telling_push(all_trimmed(front), t);
        if f.contains(key) {
            let k = choose|k: int| 0 <= k < f.len() && f[k] == key;
            assert(telling(all_trimmed(lines))[k] == key);
        }
        if t == key {
            assert(telling(all_trimmed(lines)).last() == key);
        }
        lemma_no_such_line(front, key);
        assert(other_lines(lines, key) =~= lines);
    } else {
        assert(other_lines(lines, key) =~= lines);
    }
}

/// Where a list file ends with a line feed or is empty, and holds no carriage
/// return, removing a key that has just been added gives back its very text.
pub proof fn remove_gives_back_the_text(content: Seq<char>, key: Seq<char>)
    requires
        is_plain_key(key),
        !active(content).contains(key),
        content.len() == 0 || content.last() == '\n',
        !content.contains('\r'),
    ensures
        without_key(with_key(content, key), key) == content,
{
    let t = with_key(content, key);
    let lines = text::lines_of(content);
    assert(t =~= content + key.push('\n'));
    lemma_lines_add(content, key.push('\n'));
    lemma_lines_one(key);
    let last = text::without_cr(key);
    lemma_trimmed_without_cr(key);
    assert(text::lines_of(t) =~= lines.push(last));
    assert(other_lines(lines.push(last), key) == other_lines(lines, key)) by {
        reveal(Seq::filter);
        assert(lines.push(last).drop_last() == lines);
    }
    lemma_no_such_line(lines, key);
    lemma_unlined_lines(content);
}

proof fn lemma_feed_adds_no_key(a: Seq<char>)
    ensures
        active(a.push('\n')) == active(a),
{
    if a.len() > 0 && a.last() != '\n' {
        lemma_lines_closed(a);
    } else {
        let empty = Seq::<char>::empty();
        lemma_lines_one(empty);
        lemma_lines_add(a, empty.push('\n'));
        assert(a + empty.push('\n') =~= a.push('\n'));
        let lines = text::lines_of(a);
        assert(text::lines_of(a.push('\n')) =~= lines.push(empty));
        assert(all_trimmed(lines.push(empty)) =~= all_trimmed(lines).push(text::trimmed(empty)));
        lemma_telling_push(all_trimmed(lines), text::trimmed(empty));
    }
}

/// The keys of two texts with a line feed between them are those of the first and
/// then those of the second.
pub proof fn keys_of_joined_texts(a: Seq<char>, b: Seq<char>)
    ensures
        active(a + "\n"@ + b) == active(a) + active(b),
{
    reveal_strlit("\n");
    assert(a + "\n"@ + b =~= a.push('\n') + b);
    lemma_feed_adds_no_key(a);
    keys_of_adjoining_texts(a.push('\n'), b);
}

proof fn lemma_trim_right_end(t: Seq<char>)
    ensures
        text::trim_right(t).len() <= t.len(),
        text::trim_right(t) == t.take(text::trim_right(t).len() as int),
        text::trim_right(t).len() > 0 ==> !text::white(text::trim_right(t).last()),
    decreases t.len(),
{
    if t.len() > 0 && text::white(t.last()) {
        lemma_trim_right_end(t.drop_last());
        let n = text::trim_right(t).len() as int;
        assert(t.drop_last().take(n) =~= t.take(n));
    } else {
        assert(t.take(t.len() as int) =~= t);
    }
}

/// What has been trimmed is trimmed, and holds only characters of the text.
proof fn lemma_trimmed(s: Seq<char>)
    ensures
        text::trimmed(text::trimmed(s)) == text::trimmed(s),
        forall|c: char| #[trigger] text::trimmed(s).contains(c) ==> s.contains(c),
{
    let t = text::trim_left(s);
    let u = text::trimmed(s);
    text::lemma_trim_left(s);
    lemma_trim_right_end(t);
    if u.len() > 0 {
        assert(u[0] == t[0]);
        assert(text::trim_left(u) == u);
        assert(text::trim_right(u) == u);
    }
    assert forall|c: char| #[trigger] u.contains(c) implies s.contains(c) by {
        let i = choose|i: int| 0 <= i < u.len() && u[i] == c;
        assert(t[i] == c);
        assert(s[i + (s.len() - t.len())] == c);
    }
}

/// Every key of a list file is trimmed, not empty, no comment, and holds no line
/// feed.
pub proof fn keys_are_plain(content: Seq<char>, i: int)
    requires
        0 <= i < active(content).len(),
    ensures
        is_plain_key(active(content)[i]),
{
    let lines = text::lines_of(content);
    let all = all_trimmed(lines);
    let says = |l: Seq<char>| !config::says_nothing(l);
    let key = active(content)[i];
    all.lemma_filter_pred(says, i);
    assert(says(key));
    assert(all.filter(says).contains(key));
    all.lemma_filter_contains_rev(says, key);
    let j = choose|j: int| 0 <= j < all.len() && all[j] == key;
    assert(key == text::trimmed(lines[j]));
    lemma_trimmed(lines[j]);
    lemma_lines_hold_no_feed(content);
    assert(!lines[j].contains('\n'));
}

proof fn lemma_key_alone(key: Seq<char>)
    requires
        is_plain_key(key),
    ensures
        active(key) == seq![key],
{
    text::lemma_find_char(key, '\n');
    let i = text::find_char(key, '\n');
    if i < key.len() {
        assert(key.contains(key[i]));
    }
    let none = Seq::<Seq<char>>::empty();
    assert(text::lines_of(key) =~= seq![key]);
    assert(all_trimmed(seq![key]) =~= none.push(key));
    lemma_telling_push(none, key);
    reveal(Seq::filter);
    assert(telling(none) =~= none);
    assert(none.push(key) =~= seq![key]);
}

/// Keys that can stand in a list file, put together with line feeds, are read back
/// as they are.
pub proof fn joined_keys_are_read_back(keys: Seq<Seq<char>>)
    requires
        forall|i: int| 0 <= i < keys.len() ==> is_plain_key(#[trigger] keys[i]),
    ensures
        active(compose::joined(keys, "\n"@)) == keys,
    decreases keys.len(),
{
    if keys.len() == 0 {
        reveal(Seq::filter);
        assert(text::lines_of(compose::joined(keys, "\n"@)) =~= Seq::<Seq<char>>::empty());
        assert(all_trimmed(Seq::<Seq<char>>::empty()) =~= Seq::<Seq<char>>::empty());
        assert(active(compose::joined(keys, "\n"@)) =~= keys);
    } else {
        let front = keys.drop_last();
        assert(is_plain_key(keys[keys.len() - 1]));
        lemma_key_alone(keys.last());
        if keys.len() == 1 {
            assert(seq![keys.last()] =~= keys);
        } else {
            assert forall|i: int| 0 <= i < front.len() implies is_plain_key(#[trigger] front[i]) by {
                assert(is_plain_key(keys[i]));
            }
            joined_keys_are_read_back(front);
            keys_of_joined_texts(compose::joined(front, "\n"@), keys.last());
            assert(front + seq![keys.last()] =~= keys);
        }
    }
}

/// The keys of a list file, put together with line feeds, are read back as they are.
pub proof fn keys_are_read_back(content: Seq<char>)
    ensures
        active(compose::joined(active(content), "\n"@)) == active(content),
{
    assert forall|i: int| 0 <= i < active(content).len() implies is_plain_key(
        #[trigger] active(content)[i],
    ) by {
        keys_are_plain(content, i);
    }
    joined_keys_are_read_back(active(content));
}

} // verus!
