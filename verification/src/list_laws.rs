//! How list files are read and written, line by line.

use crate::list;
use crate::text;
use crate::text_laws;
use vstd::prelude::*;

verus! {

/// A line is the key that stands in it between white space; an empty line and a line
/// whose first character is `#` hold none.
pub proof fn a_line_is_a_key(a: Seq<char>, key: Seq<char>, b: Seq<char>)
    requires
        text_laws::is_blank(a),
        text_laws::is_blank(b),
        text_laws::has_solid_ends(key),
        !(a + key + b).contains('\n'),
    ensures
        key.len() > 0 && key[0] != '#' ==> list::active(a + key + b) == seq![key],
        key.len() == 0 || key[0] == '#' ==> list::active(a + key + b) == Seq::<Seq<char>>::empty(),
{
    let line = a + key + b;
    let none = Seq::<Seq<char>>::empty();
    text_laws::trimming_takes_off_white_space(a, key, b);
    text_laws::one_line_is_itself(line);
    reveal(Seq::filter);
    if line.len() > 0 {
        assert(list::all_trimmed(seq![line]) =~= none.push(key));
        list::lemma_telling_push(none, key);
        assert(list::telling(none) =~= none);
        assert(none.push(key) =~= seq![key]);
    } else {
        assert(list::all_trimmed(none) =~= none);
        assert(list::telling(none) =~= none);
    }
}

/// The keys of a list file are those of its first line and then those of the rest.
pub proof fn keys_come_line_by_line(line: Seq<char>, rest: Seq<char>)
    ensures
        list::active(Seq::<char>::empty()) == Seq::<Seq<char>>::empty(),
        list::active(line + seq!['\n'] + rest) == list::active(line) + list::active(rest),
{
    reveal_strlit("\n");
    assert("\n"@ =~= seq!['\n']);
    list::keys_of_joined_texts(line, rest);
    reveal(Seq::filter);
    let none = Seq::<Seq<char>>::empty();
    assert(text::lines_of(Seq::<char>::empty()) =~= none);
    assert(list::all_trimmed(none) =~= none);
}

proof fn lemma_other_lines(line: Seq<char>, rest: Seq<Seq<char>>, key: Seq<char>)
    ensures
        list::other_lines(seq![line] + rest, key) == (if text::trimmed(line) == key {
            Seq::empty()
        } else {
            seq![line]
        }) + list::other_lines(rest, key),
{
    let other = |l: Seq<char>| text::trimmed(l) != key;
    Seq::filter_distributes_over_add(seq![line], rest, other);
    reveal(Seq::filter);
    let none = Seq::<Seq<char>>::empty();
    assert(none.filter(other) =~= none);
    assert(seq![line].drop_last() =~= none);
    if text::trimmed(line) == key {
        assert(seq![line].filter(other) =~= none);
    } else {
        assert(seq![line].filter(other) =~= seq![line]);
    }
}

/// To take a key out of a list file is to leave out each line that holds the key
/// between white space; every other line stays, in its place, with a line feed after it.
pub proof fn lines_without_the_key_stay(line: Seq<char>, rest: Seq<char>, key: Seq<char>)
    requires
        !line.contains('\n'),
        line.len() == 0 || line.last() != '\r',
    ensures
        list::without_key(Seq::<char>::empty(), key) == Seq::<char>::empty(),
        text::trimmed(line) == key ==> list::without_key(line + seq!['\n'] + rest, key)
            == list::without_key(rest, key),
        text::trimmed(line) != key ==> list::without_key(line + seq!['\n'] + rest, key) == line
            + seq!['\n'] + list::without_key(rest, key),
        line.len() > 0 && text::trimmed(line) == key ==> list::without_key(line, key) == Seq::<
            char,
        >::empty(),
        line.len() > 0 && text::trimmed(line) != key ==> list::without_key(line, key) == line + seq![
            '\n',
        ],
{
    let none = Seq::<Seq<char>>::empty();
    let lines = text::lines_of(rest);
    text_laws::a_feed_ends_a_line(line, rest);
    text_laws::one_line_is_itself(line);
    lemma_other_lines(line, lines, key);
    lemma_other_lines(line, none, key);
    list::lemma_unlined_first(line, list::other_lines(lines, key));
    list::lemma_unlined_first(line, none);
    reveal(Seq::filter);
    assert(text::lines_of(Seq::<char>::empty()) =~= none);
    assert(list::other_lines(none, key) =~= none);
    assert(list::unlined(none) =~= Seq::<char>::empty());
    assert(seq![line] + none =~= seq![line]);
    assert(none + none =~= none);
    assert(none + list::other_lines(lines, key) =~= list::other_lines(lines, key));
    assert(line.push('\n') =~= line + seq!['\n']);
    assert(line.push('\n') + Seq::<char>::empty() =~= line + seq!['\n']);
}

} // verus!
