//! How manifests are cleaned and lock files are read, line by line.

use crate::compose;
use crate::manifest;
use crate::search;
use crate::text;
use crate::text_laws;
use vstd::prelude::*;

verus! {

// ---- manifests

/// A header begins a section, of dependencies or not; every other line belongs to the
/// section of the line before it.
pub proof fn a_header_begins_a_section(lines: Seq<Seq<char>>, line: Seq<char>)
    ensures
        !manifest::in_dependencies(Seq::<Seq<char>>::empty()),
        ({
            let t = text::trimmed(line);
            let after = manifest::in_dependencies(lines.push(line));
            if t.len() > 0 && t[0] == '[' {
                after <==> t == "[dependencies]"@ || t == "[dev-dependencies]"@ || t
                    == "[build-dependencies]"@
            } else {
                after == manifest::in_dependencies(lines)
            }
        }),
{
    assert(lines.push(line).drop_last() =~= lines);
}

/// A line is left out if and only if it stands in a section of dependencies and is
/// neither a header nor empty; every other line is kept as it is, in its place.
pub proof fn only_dependencies_are_left_out(lines: Seq<Seq<char>>, line: Seq<char>)
    ensures
        manifest::kept_lines(Seq::<Seq<char>>::empty()) == Seq::<Seq<char>>::empty(),
        ({
            let t = text::trimmed(line);
            let after = manifest::kept_lines(lines.push(line));
            let front = manifest::kept_lines(lines);
            if manifest::in_dependencies(lines) && t.len() > 0 && t[0] != '[' {
                after == front
            } else {
                after == front.push(line)
            }
        }),
{
    assert(lines.push(line).drop_last() =~= lines);
}

/// A cleaned manifest is made of the lines that are kept, with a line feed between any
/// two.
pub proof fn kept_lines_make_the_manifest(content: Seq<char>)
    ensures
        manifest::cleaned(content) == compose::joined(
            manifest::kept_lines(text::lines_of(content)),
            seq!['\n'],
        ),
{
    reveal_strlit("\n");
    assert("\n"@ =~= seq!['\n']);
}

// ---- lock files

/// The value of a line with a name or a version is what stands in the quotes.
pub proof fn a_value_stands_in_quotes(v: Seq<char>)
    requires
        v.len() > 0 ==> v[0] != '"' && v[v.len() - 1] != '"',
    ensures
        manifest::quoted_value("name = \""@ + v + "\""@, "name = "@) == v,
        manifest::quoted_value("version = \""@ + v + "\""@, "version = "@) == v,
        text::has_prefix("name = \""@ + v + "\""@, "name = "@),
        text::has_prefix("version = \""@ + v + "\""@, "version = "@),
{
    reveal_strlit("name = \"");
    reveal_strlit("version = \"");
    reveal_strlit("name = ");
    reveal_strlit("version = ");
    reveal_strlit("\"");
    let rest = seq!['"'] + v + seq!['"'];
    assert("name = \""@ + v + "\""@ =~= "name = "@ + rest);
    assert("version = \""@ + v + "\""@ =~= "version = "@ + rest);
    lemma_quoted(rest, v, "name = "@);
    lemma_quoted(rest, v, "version = "@);
}

proof fn lemma_quoted(rest: Seq<char>, v: Seq<char>, p: Seq<char>)
    requires
        v.len() > 0 ==> v[0] != '"' && v[v.len() - 1] != '"',
        rest == seq!['"'] + v + seq!['"'],
        p.len() > 0,
        p[0] != '"',
    ensures
        manifest::quoted_value(p + rest, p) == v,
        text::has_prefix(p + rest, p),
{
    text_laws::prefix_and_rest(p + rest, p, rest);
    text_laws::all_prefixes_are_taken_off(rest, p);
    if text::has_prefix(rest, p) {
        assert(rest.take(p.len() as int)[0] == '"');
    }
    text_laws::a_character_is_taken_off_both_ends(seq!['"'], v, seq!['"'], '"');
}

/// A package in the lock file has the name of a library where they are the same, or
/// where they differ only in that all underscores of the library are hyphens, or all
/// hyphens underscores.
pub proof fn names_may_differ_in_hyphens(name: Seq<char>, lib: Seq<char>)
    ensures
        manifest::is_name_of(name, lib) <==> {
            ||| name == lib
            ||| name.len() == lib.len() && forall|i: int|
                0 <= i < lib.len() ==> #[trigger] name[i] == (if lib[i] == '_' {
                    '-'
                } else {
                    lib[i]
                })
            ||| name.len() == lib.len() && forall|i: int|
                0 <= i < lib.len() ==> #[trigger] name[i] == (if lib[i] == '-' {
                    '_'
                } else {
                    lib[i]
                })
        },
{
    let a = search::replaced(lib, '_', '-');
    let b = search::replaced(lib, '-', '_');
    if name.len() == lib.len() && forall|i: int|
        0 <= i < lib.len() ==> #[trigger] name[i] == (if lib[i] == '_' {
            '-'
        } else {
            lib[i]
        }) {
        assert(name =~= a);
    }
    if name.len() == lib.len() && forall|i: int|
        0 <= i < lib.len() ==> #[trigger] name[i] == (if lib[i] == '-' {
            '_'
        } else {
            lib[i]
        }) {
        assert(name =~= b);
    }
}

/// The block of a package begins after a line `[[package]]`, and ends at an empty line.
/// In it a line with a name says whether it is the library; until then it is not.
pub proof fn a_block_describes_a_package(
    lines: Seq<Seq<char>>,
    lib: Seq<char>,
    j: int,
    name: Seq<char>,
)
    requires
        0 <= j < lines.len(),
        name.len() > 0 ==> name[0] != '"' && name[name.len() - 1] != '"',
    ensures
        !manifest::in_package(lines, 0),
        !manifest::is_named(lines, lib, 0),
        ({
            let inside = manifest::in_package(lines, j);
            let inside_after = manifest::in_package(lines, j + 1);
            let named = manifest::is_named(lines, lib, j);
            let named_after = manifest::is_named(lines, lib, j + 1);
            let begins = lines[j] == "[[package]]"@;
            &&& begins ==> inside_after && !named_after
            &&& !begins && lines[j].len() == 0 ==> !inside_after
            &&& !begins && lines[j].len() > 0 ==> inside_after == inside
            &&& !begins && !(inside && text::has_prefix(lines[j], "name = "@)) ==> named_after
                == named
            &&& inside && lines[j] == "name = \""@ + name + "\""@ ==> named_after
                == manifest::is_name_of(name, lib)
        }),
{
    a_value_stands_in_quotes(name);
    reveal_strlit("name = \"");
    reveal_strlit("[[package]]");
    assert("[[package]]"@[0] == '[');
    assert("name = \""@[0] == 'n');
    if lines[j] == "name = \""@ + name + "\""@ {
        assert(lines[j][0] == 'n');
    }
}

/// The first line with a version in a block of the library gives the version; where
/// there is none, it is `0.0.0`.
pub proof fn the_first_version_counts(
    lines: Seq<Seq<char>>,
    lib: Seq<char>,
    j: int,
    version: Seq<char>,
)
    requires
        version.len() > 0 ==> version[0] != '"' && version[version.len() - 1] != '"',
        0 <= j <= lines.len(),
        forall|k: int|
            0 <= k < j ==> !(text::has_prefix(#[trigger] lines[k], "version = "@)
                && manifest::in_package(lines, k) && manifest::is_named(lines, lib, k)),
    ensures
        j < lines.len() && manifest::in_package(lines, j) && manifest::is_named(lines, lib, j)
            && lines[j] == "version = \""@ + version + "\""@ ==> manifest::version_in(lines, lib)
            == version,
        j == lines.len() ==> manifest::version_in(lines, lib) == "0.0.0"@,
{
    a_value_stands_in_quotes(version);
    assert forall|k: int| 0 <= k < j implies !manifest::gives_version(lines, lib, k) by {
        let l = lines[k];
    }
    if j < lines.len() && manifest::in_package(lines, j) && manifest::is_named(lines, lib, j)
        && lines[j] == "version = \""@ + version + "\""@ {
        assert(manifest::gives_version(lines, lib, j));
        assert(manifest::gives_version_first(lines, lib, j));
        let f = choose|f: int| manifest::gives_version_first(lines, lib, f);
        if f < j {
            assert(!manifest::gives_version(lines, lib, f));
        } else if j < f {
            assert(!manifest::gives_version(lines, lib, j));
        }
    }
    if j == lines.len() {
        assert(forall|k: int| !manifest::gives_version(lines, lib, k));
    }
}

} // verus!
