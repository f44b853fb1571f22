//! What holds of the settings file and of the flags that follow from it.

use crate::config;
use crate::config::ConfigView;
use crate::text;
use crate::text_laws;
use vstd::prelude::*;

verus! {

/// Where nothing is read, the code generator is Cranelift, the linker mold and the
/// allocator jemalloc, on stable, and no entry is complained of.
pub proof fn nothing_sets_the_defaults()
    ensures
        config::after_lines(Seq::<Seq<char>>::empty()).backend == "cranelift"@,
        config::after_lines(Seq::<Seq<char>>::empty()).linker == "mold"@,
        config::after_lines(Seq::<Seq<char>>::empty()).allocator == "jemalloc"@,
        !config::after_lines(Seq::<Seq<char>>::empty()).nightly,
        config::bad_lines(Seq::<Seq<char>>::empty()) == Seq::<Seq<char>>::empty(),
        config::config_lines(None) == Seq::<Seq<char>>::empty(),
        forall|s: Seq<char>| #[trigger] config::config_lines(Some(s)) == text::lines_of(s),
{
}

/// Whether a key and a value are an entry that can be used.
pub open spec fn is_usable(k: Seq<char>, v: Seq<char>) -> bool {
    ||| k == "backend"@ && (v == "llvm"@ || v == "cranelift"@)
    ||| k == "linker"@ && (v == "lld"@ || v == "mold"@ || v == "wild"@)
    ||| k == "allocator"@ && (v == "jemalloc"@ || v == "mimalloc"@ || v == "tcmalloc"@)
}

/// A line with `=` in it, with white space around it or not, sets the one setting
/// that it names to the value that it gives, where there is such a setting and it
/// can have that value; any other entry changes nothing and is complained of.
pub proof fn an_entry_sets_what_it_names(
    lines: Seq<Seq<char>>,
    a: Seq<char>,
    x: Seq<char>,
    y: Seq<char>,
    b: Seq<char>,
)
    requires
        text_laws::is_blank(a),
        text_laws::is_blank(b),
        text_laws::has_solid_ends(x + seq!['='] + y),
        !x.contains('='),
        x.len() > 0 ==> x[0] != '#',
    ensures
        ({
            let t = x + seq!['='] + y;
            let k = text::trimmed(x);
            let v = text::trimmed(y);
            let old_settings = config::after_lines(lines);
            let settings = config::after_lines(lines.push(a + t + b));
            let bad = config::bad_lines(lines.push(a + t + b));
            &&& settings.nightly == old_settings.nightly
            &&& settings.backend == if is_usable(k, v) && k == "backend"@ {
                v
            } else {
                old_settings.backend
            }
            &&& settings.linker == if is_usable(k, v) && k == "linker"@ {
                v
            } else {
                old_settings.linker
            }
            &&& settings.allocator == if is_usable(k, v) && k == "allocator"@ {
                v
            } else {
                old_settings.allocator
            }
            &&& bad == if is_usable(k, v) {
                config::bad_lines(lines)
            } else {
                config::bad_lines(lines).push(t)
            }
        }),
{
    let t = x + seq!['='] + y;
    let line = a + t + b;
    text_laws::trimming_takes_off_white_space(a, t, b);
    assert(lines.push(line).drop_last() =~= lines);
    let i = x.len() as int;
    assert(t[i] == '=');
    assert forall|j: int| 0 <= j < i implies t[j] != '=' by {
        assert(x.contains(x[j]));
    }
    text::lemma_find_char_is(t, '=', i);
    assert(t.take(i) =~= x);
    assert(t.skip(i + 1) =~= y);
    if x.len() > 0 {
        assert(t[0] == x[0]);
    }
    reveal_strlit("backend");
    reveal_strlit("linker");
    reveal_strlit("allocator");
    assert("backend"@.len() != "linker"@.len() && "backend"@.len() != "allocator"@.len());
    assert("linker"@.len() != "allocator"@.len());
}

/// A blank line, a comment and a line without `=` change nothing, and are not
/// complained of.
pub proof fn other_lines_set_nothing(
    lines: Seq<Seq<char>>,
    a: Seq<char>,
    t: Seq<char>,
    b: Seq<char>,
)
    requires
        text_laws::is_blank(a),
        text_laws::is_blank(b),
        text_laws::has_solid_ends(t),
        t.len() == 0 || t[0] == '#' || !t.contains('='),
    ensures
        config::after_lines(lines.push(a + t + b)) == config::after_lines(lines),
        config::bad_lines(lines.push(a + t + b)) == config::bad_lines(lines),
{
    text_laws::trimming_takes_off_white_space(a, t, b);
    assert(lines.push(a + t + b).drop_last() =~= lines);
    text::lemma_find_char(t, '=');
    if text::find_char(t, '=') < t.len() {
        assert(t.contains(t[text::find_char(t, '=')]));
    }
}

/// The words of the flags of the settings: those of every compilation, then, with a
/// nightly compiler alone, those of a nightly compiler and of the code generator,
/// then those of the linker.
pub proof fn words_of_the_settings(c: ConfigView, linker: Option<Seq<char>>)
    ensures
        text::words(config::config_flags(c, linker)) == text::words(config::BASE_FLAGS_STABLE@) + (
        if c.nightly {
            text::words(config::BASE_FLAGS_NIGHTLY@) + text::words(
                if c.backend == "cranelift"@ {
                    "-Zcodegen-backend=cranelift"@
                } else {
                    "-Cno-prepopulate-passes"@
                },
            )
        } else {
            seq![]
        }) + (match linker {
            Some(f) => text::words(f),
            None => seq![],
        }),
{
    reveal_strlit(" ");
    assert(" "@ =~= seq![' ']);
    let s = config::BASE_FLAGS_STABLE@;
    let n = config::BASE_FLAGS_NIGHTLY@;
    let g = config::flags_of_backend(c.backend);
    let base = config::config_flags(c, None);
    if c.nightly {
        text_laws::white_space_parts_words(s, ' ', n);
        text_laws::white_space_parts_words(s + seq![' '] + n, ' ', g);
        assert(base =~= s + seq![' '] + n + seq![' '] + g);
        assert(text::words(s) + text::words(n) + text::words(g) =~= text::words(s) + (text::words(n)
            + text::words(g)));
    } else {
        assert(text::words(s) + Seq::<Seq<char>>::empty() =~= text::words(s));
    }
    if let Some(f) = linker {
        text_laws::white_space_parts_words(base, ' ', f);
        assert(config::config_flags(c, linker) =~= base + seq![' '] + f);
    } else {
        assert(text::words(base) + Seq::<Seq<char>>::empty() =~= text::words(base));
    }
}

/// Each linker is looked for by its own program and chosen by its own flags, where
/// it is installed; one that is not known is neither.
pub proof fn linkers_have_their_own_flags(name: Seq<char>, installed: bool)
    ensures
        name == "lld"@ ==> config::linker_choice(name, true) == Some("-Clink-arg=-fuse-ld=lld"@),
        name == "mold"@ ==> config::linker_choice(name, true) == Some("-Clink-arg=-fuse-ld=mold"@),
        name == "wild"@ ==> config::linker_choice(name, true) == Some(
            "-Clinker=clang -Clink-args=--ld-path=wild"@,
        ),
        name == "lld"@ ==> (config::linker_entry(name)->0).0 == "ld.lld"@,
        name == "mold"@ ==> (config::linker_entry(name)->0).0 == "mold"@,
        name == "wild"@ ==> (config::linker_entry(name)->0).0 == "wild"@,
        name != "lld"@ && name != "mold"@ && name != "wild"@ ==> config::linker_choice(
            name,
            installed,
        ) is None && config::linker_entry(name) is None,
        config::linker_choice(name, false) is None,
{
    reveal_strlit("lld");
    reveal_strlit("mold");
    reveal_strlit("wild");
    assert("lld"@.len() == 3 && "mold"@.len() == 4 && "wild"@.len() == 4);
    assert("mold"@[0] == 'm' && "wild"@[0] == 'w');
}

} // verus!
