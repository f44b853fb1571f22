//! The files that `init` makes, read back.

use crate::config;
use crate::list;
use crate::request;
use crate::text;
use vstd::prelude::*;

verus! {

/// Whether no line feed stands in `s` from `i` on and before `j`.
spec fn has_no_feed(s: Seq<char>, i: int, j: int) -> bool
    decreases j - i,
{
    if i >= j {
        true
    } else if i + 8 <= j {
        &&& s[i] != '\n' && s[i + 1] != '\n' && s[i + 2] != '\n' && s[i + 3] != '\n'
        &&& s[i + 4] != '\n' && s[i + 5] != '\n' && s[i + 6] != '\n' && s[i + 7] != '\n'
        &&& has_no_feed(s, i + 8, j)
    } else {
        s[i] != '\n' && has_no_feed(s, i + 1, j)
    }
}

proof fn lemma_no_feed(s: Seq<char>, i: int, j: int, k: int)
    requires
        has_no_feed(s, i, j),
        i <= k < j,
    ensures
        s[k] != '\n',
    decreases j - i,
{
    if i + 8 <= j {
        if i + 8 <= k {
            lemma_no_feed(s, i + 8, j, k);
        }
    } else if i < k {
        lemma_no_feed(s, i + 1, j, k);
    }
}

/// Whether a line stands in `s` from `p` on and before the line feed at `q`.
spec fn is_line(s: Seq<char>, p: int, q: int) -> bool {
    &&& 0 <= p <= q < s.len()
    &&& p == 0 || s[p - 1] == '\n'
    &&& s[q] == '\n'
    &&& has_no_feed(s, p, q)
}

/// The lines up to a line feed are those before its line, and that line.
proof fn lemma_line(s: Seq<char>, p: int, q: int)
    requires
        is_line(s, p, q),
    ensures
        text::lines_of(s.take(q + 1)) == text::lines_of(s.take(p)).push(
            text::without_cr(s.subrange(p, q)),
        ),
{
    let a = s.take(p);
    let l = s.subrange(p, q);
    assert(s.take(q + 1) =~= a + l.push('\n'));
    if p > 0 {
        assert(a.last() == s[p - 1]);
    }
    if l.contains('\n') {
        let k = choose|k: int| 0 <= k < l.len() && l[k] == '\n';
        lemma_no_feed(s, p, q, p + k);
    }
    list::lemma_lines_add(a, l.push('\n'));
    list::lemma_lines_one(l);
    assert(text::lines_of(a) + seq![text::without_cr(l)] =~= text::lines_of(a).push(
        text::without_cr(l),
    ));
}

/// A line that is empty or begins with `#` says nothing.
proof fn lemma_comment(l: Seq<char>)
    requires
        l.len() == 0 || l[0] == '#',
    ensures
        config::says_nothing(text::trimmed(text::without_cr(l))),
{
    let t = text::without_cr(l);
    if l.len() > 0 {
        assert(t.len() > 0 && t[0] == '#');
        text::lemma_trim_right_keeps_first(t);
    }
}

proof fn lemma_list_line(s: Seq<char>, p: int, q: int)
    requires
        is_line(s, p, q),
        p == q || s[p] == '#',
    ensures
        list::active(s.take(q + 1)) == list::active(s.take(p)),
{
    lemma_line(s, p, q);
    let l = s.subrange(p, q);
    let before = text::lines_of(s.take(p));
    lemma_comment(l);
    let t = text::trimmed(text::without_cr(l));
    assert(list::all_trimmed(before.push(text::without_cr(l))) =~= list::all_trimmed(before).push(
        t,
    ));
    list::lemma_telling_push(list::all_trimmed(before), t);
}

/// The list file that `init` makes has no keys.
pub proof fn list_template_has_no_keys()
    ensures
        list::active(list::LIST_TEMPLATE@) == Seq::<Seq<char>>::empty(),
{
    let s = list::LIST_TEMPLATE@;
    reveal_strlit(
        "\
#   Show active keys in this file:
#      rlib list rlib.list
#
#   Add a key to this file (after building it with rlib):
#      rlib rlib.list add tokio_1_52_3_full
#
#   Remove a key from this file:
#      rlib rlib.list remove tokio_1_52_3_full
#
# Add your library keys below:


",
    );
    assert(is_line(s, 0, 34)) by {
        reveal_with_fuel(has_no_feed, 7);
    }
    lemma_list_line(s, 0, 34);
    assert(is_line(s, 35, 61)) by {
        reveal_with_fuel(has_no_feed, 6);
    }
    lemma_list_line(s, 35, 61);
    assert(is_line(s, 62, 63)) by {
        reveal_with_fuel(has_no_feed, 2);
    }
    lemma_list_line(s, 62, 63);
    assert(is_line(s, 64, 121)) by {
        reveal_with_fuel(has_no_feed, 9);
    }
    lemma_list_line(s, 64, 121);
    assert(is_line(s, 122, 165)) by {
        reveal_with_fuel(has_no_feed, 9);
    }
    lemma_list_line(s, 122, 165);
    assert(is_line(s, 166, 167)) by {
        reveal_with_fuel(has_no_feed, 2);
    }
    lemma_list_line(s, 166, 167);
    assert(is_line(s, 168, 200)) by {
        reveal_with_fuel(has_no_feed, 5);
    }
    lemma_list_line(s, 168, 200);
    assert(is_line(s, 201, 247)) by {
        reveal_with_fuel(has_no_feed, 12);
    }
    lemma_list_line(s, 201, 247);
    assert(is_line(s, 248, 249)) by {
        reveal_with_fuel(has_no_feed, 2);
    }
    lemma_list_line(s, 248, 249);
    assert(is_line(s, 250, 280)) by {
        reveal_with_fuel(has_no_feed, 10);
    }
    lemma_list_line(s, 250, 280);
    assert(is_line(s, 281, 281)) by {
        reveal_with_fuel(has_no_feed, 1);
    }
    lemma_list_line(s, 281, 281);
    assert(is_line(s, 282, 282)) by {
        reveal_with_fuel(has_no_feed, 1);
    }
    lemma_list_line(s, 282, 282);
    assert(s.take(283) =~= s);
    assert(s.take(0) =~= Seq::<char>::empty());
    assert(text::lines_of(s.take(0)) =~= Seq::<Seq<char>>::empty());
    assert(list::all_trimmed(text::lines_of(s.take(0))) =~= Seq::<Seq<char>>::empty());
    reveal(Seq::filter);
    assert(list::active(s.take(0)) =~= Seq::<Seq<char>>::empty());
}

proof fn lemma_config_comment(s: Seq<char>, p: int, q: int)
    requires
        is_line(s, p, q),
        p == q || s[p] == '#',
    ensures
        config::after_lines(text::lines_of(s.take(q + 1))) == config::after_lines(
            text::lines_of(s.take(p)),
        ),
        config::bad_lines(text::lines_of(s.take(q + 1))) == config::bad_lines(
            text::lines_of(s.take(p)),
        ),
{
    lemma_line(s, p, q);
    let l = text::without_cr(s.subrange(p, q));
    let before = text::lines_of(s.take(p));
    lemma_comment(s.subrange(p, q));
    assert(before.push(l).drop_last() == before);
}

/// A line `key=value` that sets a setting to the value that it has by default
/// leaves the defaults as they are.
proof fn lemma_config_entry(s: Seq<char>, p: int, q: int, key: Seq<char>, value: Seq<char>)
    requires
        is_line(s, p, q),
        s.subrange(p, q) == key + seq!['='] + value,
        key.len() > 0,
        value.len() > 0,
        request::has_no_white(key),
        request::has_no_white(value),
        !key.contains('='),
        key[0] != '#',
        config::with_setting(config::default_config(), key, value) == Some(
            config::default_config(),
        ),
        config::after_lines(text::lines_of(s.take(p))) == config::default_config(),
    ensures
        config::after_lines(text::lines_of(s.take(q + 1))) == config::default_config(),
        config::bad_lines(text::lines_of(s.take(q + 1))) == config::bad_lines(
            text::lines_of(s.take(p)),
        ),
{
    lemma_line(s, p, q);
    let l = s.subrange(p, q);
    let before = text::lines_of(s.take(p));
    assert(l[0] == key[0]);
    assert(!text::white(key[0]) && !text::white(key[key.len() - 1]));
    assert(!text::white(value[0]) && !text::white(value[value.len() - 1]));
    assert(l.last() == value[value.len() - 1]);
    assert(text::without_cr(l) == l);
    assert(text::trimmed(l) == l);
    let i = key.len() as int;
    assert(l[i] == '=');
    assert forall|j: int| 0 <= j < i implies l[j] != '=' by {
        assert(l[j] == key[j]);
        assert(key.contains(key[j]));
    }
    text::lemma_find_char_is(l, '=', i);
    assert(l.take(i) =~= key);
    assert(l.skip(i + 1) =~= value);
    assert(text::trimmed(key) == key);
    assert(text::trimmed(value) == value);
    assert(before.push(l).drop_last() == before);
}

/// The settings file that `init` makes sets every setting to its default, and
/// has no entry that cannot be used.
#[verifier::spinoff_prover]
#[verifier::rlimit(50)]
pub proof fn config_template_sets_the_defaults()
    ensures
        config::after_lines(text::lines_of(config::CONFIG_TEMPLATE@)) == config::default_config(),
        config::bad_lines(text::lines_of(config::CONFIG_TEMPLATE@)) == Seq::<Seq<char>>::empty(),
{
    let s = config::CONFIG_TEMPLATE@;
    reveal_strlit(
        "\
# backend — codegen backend to use.
# Values : llvm | cranelift
# Default: cranelift
# Note   : cranelift is only active when running with 'nightly' keyword.
#          On stable, llvm is always used regardless of this setting.

backend=cranelift

# linker — linker to use for faster linking.
# Values : lld | mold | wild
# Default: mold

linker=mold

# allocator — global memory allocator for the compiler.
# Values : jemalloc | mimalloc | tcmalloc
# Default: jemalloc
# Note   : jemalloc is the compiler default allocator on Linux
#          mimalloc and tcmalloc require the shared
#          library to be installed on the system.

allocator=jemalloc
",
    );
    assert(s.take(0) =~= Seq::<char>::empty());
    assert(text::lines_of(s.take(0)) =~= Seq::<Seq<char>>::empty());
    assert(is_line(s, 0, 35)) by {
        reveal_with_fuel(has_no_feed, 8);
    }
    lemma_config_comment(s, 0, 35);
    assert(is_line(s, 36, 63)) by {
        reveal_with_fuel(has_no_feed, 7);
    }
    lemma_config_comment(s, 36, 63);
    assert(is_line(s, 64, 84)) by {
        reveal_with_fuel(has_no_feed, 7);
    }
    lemma_config_comment(s, 64, 84);
    assert(is_line(s, 85, 157)) by {
        reveal_with_fuel(has_no_feed, 10);
    }
    lemma_config_comment(s, 85, 157);
    assert(is_line(s, 158, 227)) by {
        reveal_with_fuel(has_no_feed, 14);
    }
    lemma_config_comment(s, 158, 227);
    assert(is_line(s, 228, 228)) by {
        reveal_with_fuel(has_no_feed, 1);
    }
    lemma_config_comment(s, 228, 228);
    assert(is_line(s, 229, 246)) by {
        reveal_with_fuel(has_no_feed, 4);
    }
    reveal_strlit("backend");
    reveal_strlit("cranelift");
    assert(s.subrange(229, 246) =~= "backend"@ + seq!['='] + "cranelift"@);
    lemma_config_entry(s, 229, 246, "backend"@, "cranelift"@);
    assert(is_line(s, 247, 247)) by {
        reveal_with_fuel(has_no_feed, 1);
    }
    lemma_config_comment(s, 247, 247);
    assert(is_line(s, 248, 292)) by {
        reveal_with_fuel(has_no_feed, 10);
    }
    lemma_config_comment(s, 248, 292);
    assert(is_line(s, 293, 321)) by {
        reveal_with_fuel(has_no_feed, 8);
    }
    lemma_config_comment(s, 293, 321);
    assert(is_line(s, 322, 337)) by {
        reveal_with_fuel(has_no_feed, 9);
    }
    lemma_config_comment(s, 322, 337);
    assert(is_line(s, 338, 338)) by {
        reveal_with_fuel(has_no_feed, 1);
    }
    lemma_config_comment(s, 338, 338);
    assert(is_line(s, 339, 350)) by {
        reveal_with_fuel(has_no_feed, 5);
    }
    reveal_strlit("linker");
    reveal_strlit("mold");
    assert(s.subrange(339, 350) =~= "linker"@ + seq!['='] + "mold"@);
    lemma_config_entry(s, 339, 350, "linker"@, "mold"@);
    assert(is_line(s, 351, 351)) by {
        reveal_with_fuel(has_no_feed, 1);
    }
    lemma_config_comment(s, 351, 351);
    assert(is_line(s, 352, 407)) by {
        reveal_with_fuel(has_no_feed, 14);
    }
    lemma_config_comment(s, 352, 407);
    assert(is_line(s, 408, 449)) by {
        reveal_with_fuel(has_no_feed, 7);
    }
    lemma_config_comment(s, 408, 449);
    assert(is_line(s, 450, 469)) by {
        reveal_with_fuel(has_no_feed, 6);
    }
    lemma_config_comment(s, 450, 469);
    assert(is_line(s, 470, 532)) by {
        reveal_with_fuel(has_no_feed, 14);
    }
    lemma_config_comment(s, 470, 532);
    assert(is_line(s, 533, 584)) by {
        reveal_with_fuel(has_no_feed, 10);
    }
    lemma_config_comment(s, 533, 584);
    assert(is_line(s, 585, 634)) by {
        reveal_with_fuel(has_no_feed, 8);
    }
    lemma_config_comment(s, 585, 634);
    assert(is_line(s, 635, 635)) by {
        reveal_with_fuel(has_no_feed, 1);
    }
    lemma_config_comment(s, 635, 635);
    assert(is_line(s, 636, 654)) by {
        reveal_with_fuel(has_no_feed, 5);
    }
    reveal_strlit("allocator");
    reveal_strlit("jemalloc");
    assert(s.subrange(636, 654) =~= "allocator"@ + seq!['='] + "jemalloc"@);
    lemma_config_entry(s, 636, 654, "allocator"@, "jemalloc"@);
    assert(s.take(655) =~= s);
}

} // verus!
