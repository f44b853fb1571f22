//! `Cargo.toml` and `Cargo.lock` as lines of text.

use crate::compose;
use crate::list;
use crate::search;
use crate::text;
use vstd::prelude::*;
use vstd::string::*;

verus! {

// ---- Cargo.toml

/// Whether a trimmed line is the header of a section.
pub open spec fn is_header(t: Seq<char>) -> bool {
    t.len() > 0 && t[0] == '['
}

/// Whether a trimmed line is the header of a section of dependencies.
pub open spec fn is_dependency_header(t: Seq<char>) -> bool {
    t == "[dependencies]"@ || t == "[dev-dependencies]"@ || t == "[build-dependencies]"@
}

/// Whether what follows the lines stands in a section of dependencies.
pub open spec fn in_dependencies(lines: Seq<Seq<char>>) -> bool
    decreases lines.len(),
{
    if lines.len() == 0 {
        false
    } else {
        let t = text::trimmed(lines.last());
        if is_header(t) {
            is_dependency_header(t)
        } else {
            in_dependencies(lines.drop_last())
        }
    }
}

/// Whether a line is kept, in a section of dependencies or elsewhere.
pub open spec fn is_kept(line: Seq<char>, in_deps: bool) -> bool {
    let t = text::trimmed(line);
    is_header(t) || !in_deps || t.len() == 0
}

/// The lines that are left when the dependencies are taken out.
pub open spec fn kept_lines(lines: Seq<Seq<char>>) -> Seq<Seq<char>>
    decreases lines.len(),
{
    if lines.len() == 0 {
        seq![]
    } else {
        let front = lines.drop_last();
        if is_kept(lines.last(), in_dependencies(front)) {
            kept_lines(front).push(lines.last())
        } else {
            kept_lines(front)
        }
    }
}

/// A manifest without its dependencies.
pub open spec fn cleaned(content: Seq<char>) -> Seq<char> {
    compose::joined(kept_lines(text::lines_of(content)), "\n"@)
}

/// The manifest without its dependencies.
pub fn clean_cargo_toml(content: &str) -> (r: String)
    ensures
        r@ == cleaned(content@),
{
    let source = text::chars_of(content);
    let lines = text::split_lines(source.as_slice());
    let ghost all = text::slices(lines@);
    let mut out: Vec<String> = Vec::new();
    let mut in_deps: bool = false;
    let mut i: usize = 0;
    assert(all.take(0) == Seq::<Seq<char>>::empty());
    assert(text::texts(out@) == kept_lines(all.take(0)));
    while i < lines.len()
        invariant
            i <= lines@.len(),
            all == text::slices(lines@),
            in_deps == in_dependencies(all.take(i as int)),
            text::texts(out@) == kept_lines(all.take(i as int)),
        decreases lines@.len() - i,
    {
        let line = lines[i];
        proof {
            let t = all.take(i + 1);
            assert(t.drop_last() == all.take(i as int));
            assert(t.last() == line@);
        }
        let ghost before = text::texts(out@);
        let t = text::trim(line);
        let header = t.len() > 0 && t[0] == '[';
        if header || !in_deps || t.len() == 0 {
            let s = text::string_of(line);
            out.push(s);
            assert(text::texts(out@) == before.push(s@));
        }
        if header {
            in_deps = text::same(t, "[dependencies]") || text::same(t, "[dev-dependencies]")
                || text::same(t, "[build-dependencies]");
        }
        i += 1;
    }
    assert(all.take(lines@.len() as int) == all);
    compose::join(&out, "\n")
}

proof fn lemma_kept_section(lines: Seq<Seq<char>>)
    ensures
        in_dependencies(kept_lines(lines)) == in_dependencies(lines),
    decreases lines.len(),
{
    if lines.len() > 0 {
        let front = lines.drop_last();
        lemma_kept_section(front);
        let k = kept_lines(front).push(lines.last());
        assert(k.drop_last() == kept_lines(front));
    }
}

/// Taking the dependencies out of lines a second time changes nothing.
pub proof fn cleaning_is_idempotent(lines: Seq<Seq<char>>)
    ensures
        kept_lines(kept_lines(lines)) == kept_lines(lines),
    decreases lines.len(),
{
    if lines.len() > 0 {
        let front = lines.drop_last();
        cleaning_is_idempotent(front);
        lemma_kept_section(front);
        let k = kept_lines(front).push(lines.last());
        assert(k.drop_last() == kept_lines(front));
    }
}

/// After cleaning, a section of dependencies holds nothing but blank lines.
pub proof fn cleaned_sections_are_empty(lines: Seq<Seq<char>>, i: int)
    requires
        0 <= i < kept_lines(lines).len(),
        in_dependencies(kept_lines(lines).take(i)),
        !is_header(text::trimmed(kept_lines(lines)[i])),
    ensures
        text::trimmed(kept_lines(lines)[i]).len() == 0,
    decreases lines.len(),
{
    if lines.len() > 0 {
        let front = lines.drop_last();
        let f = kept_lines(front);
        if i < f.len() {
            assert(kept_lines(lines).take(i) == f.take(i));
            cleaned_sections_are_empty(front, i);
        } else {
            assert(kept_lines(lines).take(i) == f);
            lemma_kept_section(front);
        }
    }
}

/// Whether the line at `i` stands outside the sections of dependencies, or is
/// itself a header.
pub open spec fn is_outside(lines: Seq<Seq<char>>, i: int) -> bool {
    is_header(text::trimmed(lines[i])) || !in_dependencies(lines.take(i))
}

/// Cleaning keeps every line outside the sections of dependencies, after what
/// it keeps of the lines before it.
pub proof fn cleaning_keeps_the_rest(lines: Seq<Seq<char>>, i: int)
    requires
        0 <= i < lines.len(),
        is_outside(lines, i),
    ensures
        kept_lines(lines.take(i)).len() < kept_lines(lines).len(),
        kept_lines(lines)[kept_lines(lines.take(i)).len() as int] == lines[i],
    decreases lines.len(),
{
    let front = lines.drop_last();
    if i < front.len() {
        assert(front.take(i) == lines.take(i));
        assert(front[i] == lines[i]);
        cleaning_keeps_the_rest(front, i);
    } else {
        assert(lines.take(i) == front);
    }
}

proof fn lemma_joined_lines(parts: Seq<Seq<char>>)
    requires
        parts.len() > 0,
    ensures
        compose::joined(parts, "\n"@) == list::unlined(parts.drop_last()) + parts.last(),
    decreases parts.len(),
{
    reveal_strlit("\n");
    let front = parts.drop_last();
    if parts.len() == 1 {
        assert(list::unlined(front) + parts.last() =~= parts[0]);
    } else {
        lemma_joined_lines(front);
        assert(compose::joined(parts, "\n"@) =~= list::unlined(front) + parts.last());
    }
}

/// The lines of lines that have been put together are these lines, but for white
/// space and for an empty last one.
proof fn lemma_lines_of_joined(parts: Seq<Seq<char>>)
    requires
        forall|i: int| 0 <= i < parts.len() ==> !(#[trigger] parts[i]).contains('\n'),
    ensures
        ({
            let lines = text::lines_of(compose::joined(parts, "\n"@));
            &&& lines.len() <= parts.len()
            &&& forall|i: int|
                0 <= i < lines.len() ==> text::trimmed(#[trigger] lines[i]) == text::trimmed(
                    parts[i],
                )
        }),
{
    let all = text::lines_of(compose::joined(parts, "\n"@));
    if parts.len() > 0 {
        let front = parts.drop_last();
        let last = parts.last();
        let head = list::unlined(front);
        lemma_joined_lines(parts);
        assert forall|i: int| 0 <= i < front.len() implies !(#[trigger] front[i]).contains('\n') by {
            assert(front[i] == parts[i]);
        }
        list::lemma_lines_of_unlined(front);
        list::lemma_lines_add(head, last);
        assert(!parts[parts.len() - 1].contains('\n'));
        text::lemma_find_char(last, '\n');
        if text::find_char(last, '\n') < last.len() {
            assert(last.contains(last[text::find_char(last, '\n')]));
        }
        let lines = text::lines_of(head);
        assert(list::all_trimmed(lines).len() == lines.len());
        assert(list::all_trimmed(front).len() == front.len());
        assert forall|i: int| 0 <= i < all.len() implies text::trimmed(#[trigger] all[i])
            == text::trimmed(parts[i]) by {
            if i < lines.len() {
                assert(all[i] == lines[i]);
                assert(list::all_trimmed(lines)[i] == text::trimmed(lines[i]));
                assert(list::all_trimmed(front)[i] == text::trimmed(front[i]));
            }
        }
    }
}

proof fn lemma_same_sections(a: Seq<Seq<char>>, b: Seq<Seq<char>>, n: int)
    requires
        0 <= n <= a.len(),
        n <= b.len(),
        forall|i: int| 0 <= i < n ==> text::trimmed(#[trigger] a[i]) == text::trimmed(b[i]),
    ensures
        in_dependencies(a.take(n)) == in_dependencies(b.take(n)),
    decreases n,
{
    if n > 0 {
        lemma_same_sections(a, b, n - 1);
        assert(a.take(n).drop_last() == a.take(n - 1));
        assert(b.take(n).drop_last() == b.take(n - 1));
        assert(a.take(n).last() == a[n - 1]);
        assert(b.take(n).last() == b[n - 1]);
    }
}

proof fn lemma_kept_hold_no_feed(lines: Seq<Seq<char>>)
    requires
        forall|i: int| 0 <= i < lines.len() ==> !(#[trigger] lines[i]).contains('\n'),
    ensures
        forall|i: int|
            0 <= i < kept_lines(lines).len() ==> !(#[trigger] kept_lines(lines)[i]).contains('\n'),
    decreases lines.len(),
{
    if lines.len() > 0 {
        let front = lines.drop_last();
        assert forall|i: int| 0 <= i < front.len() implies !(#[trigger] front[i]).contains('\n') by {
            assert(front[i] == lines[i]);
        }
        lemma_kept_hold_no_feed(front);
        assert(!lines[lines.len() - 1].contains('\n'));
        let k = kept_lines(lines);
        assert forall|i: int| 0 <= i < k.len() implies !(#[trigger] k[i]).contains('\n') by {
            if i < kept_lines(front).len() {
                assert(k[i] == kept_lines(front)[i]);
            }
        }
    }
}

/// When a manifest that has been cleaned is read again, a section of dependencies
/// in it holds nothing but blank lines.
pub proof fn cleaned_manifest_has_no_dependencies(content: Seq<char>, i: int)
    requires
        0 <= i < text::lines_of(cleaned(content)).len(),
        in_dependencies(text::lines_of(cleaned(content)).take(i)),
        !is_header(text::trimmed(text::lines_of(cleaned(content))[i])),
    ensures
        text::trimmed(text::lines_of(cleaned(content))[i]).len() == 0,
{
    let lines = text::lines_of(content);
    let kept = kept_lines(lines);
    let again = text::lines_of(cleaned(content));
    list::lemma_lines_hold_no_feed(content);
    lemma_kept_hold_no_feed(lines);
    lemma_lines_of_joined(kept);
    assert(text::trimmed(again[i]) == text::trimmed(kept[i]));
    lemma_same_sections(again, kept, i);
    cleaned_sections_are_empty(lines, i);
}

proof fn lemma_kept_already(lines: Seq<Seq<char>>, n: int)
    requires
        0 <= n <= lines.len(),
        forall|i: int|
            0 <= i < lines.len() && in_dependencies(lines.take(i)) && !is_header(
                text::trimmed(#[trigger] lines[i]),
            ) ==> text::trimmed(lines[i]).len() == 0,
    ensures
        kept_lines(lines.take(n)) == lines.take(n),
    decreases n,
{
    if n > 0 {
        lemma_kept_already(lines, n - 1);
        assert(lines.take(n).drop_last() =~= lines.take(n - 1));
        assert(lines.take(n).last() == lines[n - 1]);
        assert(lines.take(n - 1).push(lines[n - 1]) =~= lines.take(n));
    } else {
        assert(lines.take(n) =~= Seq::<Seq<char>>::empty());
    }
}

proof fn lemma_joined_first(first: Seq<char>, rest: Seq<Seq<char>>)
    requires
        rest.len() > 0,
    ensures
        compose::joined(seq![first] + rest, "\n"@) == first.push('\n') + compose::joined(
            rest,
            "\n"@,
        ),
    decreases rest.len(),
{
    reveal_strlit("\n");
    let all = seq![first] + rest;
    assert(all.drop_last() =~= seq![first] + rest.drop_last());
    if rest.len() == 1 {
        assert(all.drop_last() =~= seq![first]);
        assert(compose::joined(seq![first], "\n"@) == first);
        assert(all.last() == rest[0]);
        assert(compose::joined(all, "\n"@) =~= first.push('\n') + compose::joined(rest, "\n"@));
    } else {
        lemma_joined_first(first, rest.drop_last());
        assert(all.last() == rest.last());
        assert(compose::joined(all, "\n"@) =~= first.push('\n') + compose::joined(rest, "\n"@));
    }
}

/// Whether a carriage return stands before a line feed in a text.
pub open spec fn has_return_before_feed(s: Seq<char>) -> bool {
    exists|i: int| 0 <= i < s.len() - 1 && #[trigger] s[i] == '\r' && s[i + 1] == '\n'
}

/// A text without the line feed that it ends with, if it does.
pub open spec fn without_last_feed(s: Seq<char>) -> Seq<char> {
    if s.len() > 0 && s.last() == '\n' {
        s.drop_last()
    } else {
        s
    }
}

/// The lines of a text that has no carriage return before a line feed are put
/// together to that text, but for a line feed at its end.
proof fn lemma_joined_back(s: Seq<char>)
    requires
        !has_return_before_feed(s),
    ensures
        compose::joined(text::lines_of(s), "\n"@) == without_last_feed(s),
    decreases s.len(),
{
    if s.len() > 0 {
        let i = text::find_char(s, '\n');
        text::lemma_find_char(s, '\n');
        if i < s.len() {
            let first = s.take(i);
            let rest = s.skip(i + 1);
            if first.len() > 0 && first.last() == '\r' {
                assert(s[i - 1] == '\r');
            }
            if rest.len() == 0 {
                assert(text::lines_of(rest) =~= Seq::<Seq<char>>::empty());
                assert(text::lines_of(s) =~= seq![first]);
                assert(s.drop_last() =~= first);
            } else {
                assert(rest.last() == s.last());
                assert forall|j: int| 0 <= j < rest.len() - 1 && #[trigger] rest[j] == '\r' implies rest[j
                    + 1] != '\n' by {
                    assert(s[j + i + 1] == '\r');
                }
                lemma_joined_back(rest);
                assert(text::lines_of(rest).len() > 0);
                lemma_joined_first(first, text::lines_of(rest));
                assert(without_last_feed(s) =~= first.push('\n') + without_last_feed(rest));
            }
        }
    }
}

/// Cleaning a manifest a second time takes at most a line feed off its end, where
/// what the first time left has no carriage return before a line feed.
pub proof fn cleaning_again_takes_off_one_feed(content: Seq<char>)
    requires
        !has_return_before_feed(cleaned(content)),
    ensures
        cleaned(cleaned(content)) == without_last_feed(cleaned(content)),
{
    let t = cleaned(content);
    let lines = text::lines_of(t);
    assert forall|i: int|
        0 <= i < lines.len() && in_dependencies(lines.take(i)) && !is_header(
            text::trimmed(#[trigger] lines[i]),
        ) implies text::trimmed(lines[i]).len() == 0 by {
        cleaned_manifest_has_no_dependencies(content, i);
    }
    lemma_kept_already(lines, lines.len() as int);
    assert(lines.take(lines.len() as int) =~= lines);
    lemma_joined_back(t);
}

proof fn lemma_kept_from(lines: Seq<Seq<char>>, k: int)
    requires
        0 <= k < kept_lines(lines).len(),
    ensures
        lines.contains(kept_lines(lines)[k]),
    decreases lines.len(),
{
    let front = lines.drop_last();
    if k < kept_lines(front).len() {
        lemma_kept_from(front, k);
        let i = choose|i: int| 0 <= i < front.len() && front[i] == kept_lines(front)[k];
        assert(lines[i] == kept_lines(lines)[k]);
    } else {
        assert(lines[lines.len() - 1] == kept_lines(lines)[k]);
    }
}

proof fn lemma_joined_without(parts: Seq<Seq<char>>, c: char)
    requires
        forall|i: int| 0 <= i < parts.len() ==> !(#[trigger] parts[i]).contains(c),
        c != '\n',
    ensures
        !compose::joined(parts, "\n"@).contains(c),
    decreases parts.len(),
{
    reveal_strlit("\n");
    let all = compose::joined(parts, "\n"@);
    if parts.len() == 1 {
        assert(!parts[0].contains(c));
    } else if parts.len() > 1 {
        let front = parts.drop_last();
        assert forall|i: int| 0 <= i < front.len() implies !(#[trigger] front[i]).contains(c) by {
            assert(!parts[i].contains(c));
        }
        lemma_joined_without(front, c);
        let head = compose::joined(front, "\n"@);
        let last = parts[parts.len() - 1];
        assert(!last.contains(c));
        if all.contains(c) {
            let k = choose|k: int| 0 <= k < all.len() && all[k] == c;
            if k < head.len() {
                assert(head[k] == c);
            } else if k == head.len() {
                assert(all[k] == '\n');
            } else {
                assert(last[k - head.len() - 1] == c);
            }
        }
    }
}

proof fn lemma_lines_without(s: Seq<char>, c: char)
    requires
        !s.contains(c),
    ensures
        forall|i: int| 0 <= i < text::lines_of(s).len() ==> !(#[trigger] text::lines_of(s)[i]).contains(c),
    decreases s.len(),
{
    if s.len() > 0 {
        let i = text::find_char(s, '\n');
        text::lemma_find_char(s, '\n');
        if i < s.len() {
            let first = text::without_cr(s.take(i));
            let rest = s.skip(i + 1);
            if first.contains(c) {
                let k = choose|k: int| 0 <= k < first.len() && first[k] == c;
                assert(s[k] == c);
            }
            if rest.contains(c) {
                let k = choose|k: int| 0 <= k < rest.len() && rest[k] == c;
                assert(s[k + i + 1] == c);
            }
            lemma_lines_without(rest, c);
            let all = text::lines_of(s);
            assert forall|j: int| 0 <= j < all.len() implies !(#[trigger] all[j]).contains(c) by {
                if j > 0 {
                    assert(all[j] == text::lines_of(rest)[j - 1]);
                }
            }
        }
    }
}

/// Cleaning a manifest without carriage returns a second time takes at most a line
/// feed off its end.
pub proof fn cleaning_without_returns_again(content: Seq<char>)
    requires
        !content.contains('\r'),
    ensures
        cleaned(cleaned(content)) == without_last_feed(cleaned(content)),
{
    let lines = text::lines_of(content);
    let kept = kept_lines(lines);
    lemma_lines_without(content, '\r');
    assert forall|k: int| 0 <= k < kept.len() implies !(#[trigger] kept[k]).contains('\r') by {
        lemma_kept_from(lines, k);
        let i = choose|i: int| 0 <= i < lines.len() && lines[i] == kept[k];
        assert(!lines[i].contains('\r'));
    }
    lemma_joined_without(kept, '\r');
    let t = cleaned(content);
    if has_return_before_feed(t) {
        let i = choose|i: int| 0 <= i < t.len() - 1 && #[trigger] t[i] == '\r' && t[i + 1] == '\n';
        assert(t.contains(t[i]));
    }
    cleaning_again_takes_off_one_feed(content);
}

// ---- Cargo.lock

/// The value of a line `prefix"value"`.
pub open spec fn quoted_value(line: Seq<char>, prefix: Seq<char>) -> Seq<char> {
    search::without_trailing(
        search::without_leading(search::without_prefixes(line, prefix), '"'),
        '"',
    )
}

/// Whether a package name in the lock file is the name of the library, with
/// hyphens and underscores as written, all hyphens or all underscores.
pub open spec fn is_name_of(name: Seq<char>, lib: Seq<char>) -> bool {
    name == lib || name == search::replaced(lib, '_', '-') || name == search::replaced(
        lib,
        '-',
        '_',
    )
}

/// Whether the line at `j` stands in the block of a package: after a
/// `[[package]]` line, with no empty line in between.
pub open spec fn in_package(lines: Seq<Seq<char>>, j: int) -> bool
    decreases j,
{
    if j <= 0 {
        false
    } else if lines[j - 1] == "[[package]]"@ {
        true
    } else {
        in_package(lines, j - 1) && lines[j - 1].len() > 0
    }
}

/// Whether the last name that the package of the line at `j` has been given
/// before that line is that of the library.
pub open spec fn is_named(lines: Seq<Seq<char>>, lib: Seq<char>, j: int) -> bool
    decreases j,
{
    if j <= 0 || lines[j - 1] == "[[package]]"@ {
        false
    } else if in_package(lines, j - 1) && text::has_prefix(lines[j - 1], "name = "@) {
        is_name_of(quoted_value(lines[j - 1], "name = "@), lib)
    } else {
        is_named(lines, lib, j - 1)
    }
}

/// Whether the line at `j` gives the version of the library.
pub open spec fn gives_version(lines: Seq<Seq<char>>, lib: Seq<char>, j: int) -> bool {
    &&& 0 <= j < lines.len()
    &&& in_package(lines, j)
    &&& is_named(lines, lib, j)
    &&& text::has_prefix(lines[j], "version = "@)
}

/// Whether the line at `j` is the first that gives the version of the library.
pub open spec fn gives_version_first(lines: Seq<Seq<char>>, lib: Seq<char>, j: int) -> bool {
    gives_version(lines, lib, j) && forall|k: int| 0 <= k < j ==> !gives_version(lines, lib, k)
}

/// The version of the library that the lines of a lock file give; `0.0.0` if
/// they give none.
pub open spec fn version_in(lines: Seq<Seq<char>>, lib: Seq<char>) -> Seq<char> {
    if exists|j: int| gives_version(lines, lib, j) {
        let j = choose|j: int| gives_version_first(lines, lib, j);
        quoted_value(lines[j], "version = "@)
    } else {
        "0.0.0"@
    }
}

/// The lines of the lock file; none if it could not be read.
pub open spec fn lock_lines(content: Option<Seq<char>>) -> Seq<Seq<char>> {
    match content {
        Some(s) => text::lines_of(s),
        None => seq![],
    }
}

/// Where a package is described by its name and then its version, and no
/// package of that name comes before it, its version is what the lock file gives.
pub proof fn first_package_of_a_name_counts(lines: Seq<Seq<char>>, lib: Seq<char>, i: int)
    requires
        0 <= i,
        i + 2 < lines.len(),
        lines[i] == "[[package]]"@,
        text::has_prefix(lines[i + 1], "name = "@),
        is_name_of(quoted_value(lines[i + 1], "name = "@), lib),
        text::has_prefix(lines[i + 2], "version = "@),
        forall|k: int| 0 <= k < i ==> !gives_version(lines, lib, k),
    ensures
        version_in(lines, lib) == quoted_value(lines[i + 2], "version = "@),
{
    lemma_markers();
    assert(in_package(lines, i + 1));
    assert(lines[i + 1].len() > 0);
    assert(in_package(lines, i + 2));
    assert(is_named(lines, lib, i + 2));
    assert(gives_version(lines, lib, i + 2));
    assert(gives_version_first(lines, lib, i + 2)) by {
        assert(!gives_version(lines, lib, i));
        assert(!gives_version(lines, lib, i + 1));
    }
    let j = choose|j: int| gives_version_first(lines, lib, j);
    if j < i + 2 {
        assert(!gives_version(lines, lib, j));
    } else if i + 2 < j {
        assert(!gives_version(lines, lib, i + 2));
    }
}

proof fn lemma_named_alike(lines: Seq<Seq<char>>, a: Seq<char>, b: Seq<char>, j: int)
    requires
        forall|name: Seq<char>| #[trigger] is_name_of(name, a) <==> is_name_of(name, b),
    ensures
        is_named(lines, a, j) == is_named(lines, b, j),
    decreases j,
{
    if j > 0 {
        lemma_named_alike(lines, a, b, j - 1);
    }
}

/// The version of a library is the same whether its name is written with hyphens
/// or with underscores.
pub proof fn version_ignores_hyphens(lines: Seq<Seq<char>>, lib: Seq<char>)
    requires
        !lib.contains('_'),
    ensures
        version_in(lines, search::replaced(lib, '-', '_')) == version_in(lines, lib),
{
    let other = search::replaced(lib, '-', '_');
    assert forall|i: int| 0 <= i < lib.len() implies #[trigger] lib[i] != '_' by {
        assert(lib.contains(lib[i]));
    }
    assert(search::replaced(lib, '_', '-') =~= lib);
    assert(search::replaced(other, '_', '-') =~= lib);
    assert(search::replaced(other, '-', '_') =~= other);
    assert forall|j: int|
        #![trigger gives_version(lines, other, j)]
        #![trigger gives_version(lines, lib, j)]
        gives_version(lines, other, j) == gives_version(lines, lib, j) by {
        lemma_named_alike(lines, other, lib, j);
    }
    assert forall|j: int|
        #![trigger gives_version_first(lines, other, j)]
        #![trigger gives_version_first(lines, lib, j)]
        gives_version_first(lines, other, j) == gives_version_first(lines, lib, j) by {}
    if exists|j: int| gives_version(lines, lib, j) {
        let j = choose|j: int| gives_version(lines, lib, j);
        let a = lemma_first(lines, lib, j);
        let b = choose|b: int| gives_version_first(lines, lib, b);
        let c = choose|c: int| gives_version_first(lines, other, c);
        assert(gives_version_first(lines, other, a));
        assert(gives_version(lines, other, j));
        assert(gives_version_first(lines, lib, c));
        if b < c {
            assert(!gives_version(lines, lib, b));
        } else if c < b {
            assert(!gives_version(lines, lib, c));
        }
    } else if exists|j: int| gives_version(lines, other, j) {
        let j = choose|j: int| gives_version(lines, other, j);
        assert(gives_version(lines, lib, j));
    }
}

proof fn lemma_first(lines: Seq<Seq<char>>, lib: Seq<char>, j: int) -> (r: int)
    requires
        gives_version(lines, lib, j),
    ensures
        gives_version_first(lines, lib, r),
    decreases j,
{
    if gives_version_first(lines, lib, j) {
        j
    } else {
        let k = choose|k: int| 0 <= k < j && gives_version(lines, lib, k);
        lemma_first(lines, lib, k)
    }
}

proof fn lemma_markers()
    ensures
        "name = "@.len() > 0,
        "version = "@.len() > 0,
        !text::has_prefix("[[package]]"@, "name = "@),
        !text::has_prefix("[[package]]"@, "version = "@),
        forall|s: Seq<char>| #[trigger]
            text::has_prefix(s, "name = "@) ==> !text::has_prefix(s, "version = "@),
{
    reveal_strlit("name = ");
    reveal_strlit("version = ");
    reveal_strlit("[[package]]");
    assert("[[package]]"@.take(7)[0] != "name = "@[0]);
    assert("[[package]]"@.take(10)[0] != "version = "@[0]);
    assert forall|s: Seq<char>| #[trigger] text::has_prefix(s, "name = "@) implies !text::has_prefix(
        s,
        "version = "@,
    ) by {
        assert(s.take(7)[0] == s[0]);
        if text::has_prefix(s, "version = "@) {
            assert(s.take(10)[0] == s[0]);
        }
    }
}

fn read_value(line: &[char], prefix: &str) -> (r: String)
    requires
        prefix@.len() > 0,
    ensures
        r@ == quoted_value(line@, prefix@),
{
    text::string_of(search::strip_char(search::strip_prefixes(line, prefix), '"'))
}

/// The version of the library that the lock file gives; `0.0.0` if it gives
/// none or, with `None`, if it could not be read.
pub fn get_lib_version(lock: Option<&str>, lib_name: &str) -> (r: String)
    ensures
        r@ == version_in(
            lock_lines(
                match lock {
                    Some(s) => Some(s@),
                    None => None,
                },
            ),
            lib_name@,
        ),
{
    let source = match lock {
        Some(s) => text::chars_of(s),
        None => Vec::new(),
    };
    let lines = text::split_lines(source.as_slice());
    let ghost all = text::slices(lines@);
    proof {
        lemma_markers();
        assert(text::lines_of(Seq::<char>::empty()) == Seq::<Seq<char>>::empty());
        assert(all == lock_lines(
            match lock {
                Some(s) => Some(s@),
                None => None,
            },
        ));
    }
    let hyphens = search::replace_char(lib_name, '_', '-');
    let underscores = search::replace_char(lib_name, '-', '_');
    let mut in_block: bool = false;
    let mut found: bool = false;
    let mut i: usize = 0;
    while i < lines.len()
        invariant
            i <= lines@.len(),
            all == text::slices(lines@),
            all.len() == lines@.len(),
            "name = "@.len() > 0,
            "version = "@.len() > 0,
            !text::has_prefix("[[package]]"@, "name = "@),
            !text::has_prefix("[[package]]"@, "version = "@),
            forall|s: Seq<char>| #[trigger]
                text::has_prefix(s, "name = "@) ==> !text::has_prefix(s, "version = "@),
            hyphens@ == search::replaced(lib_name@, '_', '-'),
            underscores@ == search::replaced(lib_name@, '-', '_'),
            in_block == in_package(all, i as int),
            in_block ==> found == is_named(all, lib_name@, i as int),
            forall|k: int| 0 <= k < i ==> !gives_version(all, lib_name@, k),
            all == lock_lines(
                match lock {
                    Some(s) => Some(s@),
                    None => None,
                },
            ),
        decreases lines@.len() - i,
    {
        let line = lines[i];
        assert(all[i as int] == line@);
        assert(text::has_prefix(line@, "name = "@) ==> line@.len() > 0);
        if text::same(line, "[[package]]") {
            in_block = true;
            found = false;
        } else if in_block {
            if text::starts_with(line, "name = ") {
                let name = read_value(line, "name = ");
                found = text::same_str(name.as_str(), lib_name) || text::same_str(
                    name.as_str(),
                    hyphens.as_str(),
                ) || text::same_str(name.as_str(), underscores.as_str());
            } else if found && text::starts_with(line, "version = ") {
                proof {
                    assert(gives_version_first(all, lib_name@, i as int));
                    let j = choose|j: int| gives_version_first(all, lib_name@, j);
                    assert(gives_version_first(all, lib_name@, j));
                    if j < i {
                        assert(!gives_version(all, lib_name@, j));
                    } else if i < j {
                        assert(!gives_version(all, lib_name@, i as int));
                    }
                }
                return read_value(line, "version = ");
            } else if line.len() == 0 {
                in_block = false;
            }
        }
        i += 1;
    }
    assert forall|j: int| !gives_version(all, lib_name@, j) by {
        if 0 <= j < all.len() {
            assert(!gives_version(all, lib_name@, j));
        }
    }
    "0.0.0".to_owned()
}

} // verus!
