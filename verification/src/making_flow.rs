//! What a compilation does, from the request to the registry.

use crate::artifacts;
use crate::compose;
use crate::dialog::{AnswerView, AskView, LineView, PlaceView, ProgramView};
use crate::making;
use crate::making::{BuildView, MadeView};
use crate::manifest;
use crate::order;
use crate::registry::EntryView;
use crate::request;
use crate::request::RequestView;
use crate::text;
use crate::text_laws;
use vstd::prelude::*;

verus! {

// ---- the way to the compilation

/// The lines of a text, none where it could not be read.
pub open spec fn lines_read(content: Result<Seq<char>, Seq<char>>) -> Seq<Seq<char>> {
    match content {
        Ok(s) => text::lines_of(s),
        Err(_) => seq![],
    }
}

/// A compilation begins with `~/.rlib`, asks for its project, makes it where it is
/// not there, and goes on to its manifest; what fails ends it with a message.
pub proof fn a_project_is_found_or_made(
    r: RequestView,
    made: Result<(), Seq<char>>,
    end: Result<Option<i32>, Seq<char>>,
)
    ensures
        ({
            let s0 = BuildView::MakeBase(r);
            let n1 = making::next(s0, AnswerView::Done(made));
            let there = making::next(BuildView::FindProject(r), AnswerView::Flag(true));
            let not_there = making::next(BuildView::FindProject(r), AnswerView::Flag(false));
            let n3 = making::next(not_there.0, AnswerView::Exited(end));
            let clearing = LineView::Out("[rlib] Clearing old dependencies from Cargo.toml..."@);
            &&& making::question(s0) == AskView::MakeDirs(PlaceView::Base)
            &&& match made {
                Ok(_) => n1 == (BuildView::FindProject(r), Seq::<LineView>::empty()),
                Err(e) => making::question(n1.0) == AskView::Exit(1) && n1.1 == seq![
                    LineView::Warn("[rlib] Failed to create ~/.rlib: "@ + e),
                ],
            }
            &&& making::question(BuildView::FindProject(r)) == AskView::Exists(PlaceView::Project)
            &&& there == (BuildView::ReadManifest(r), seq![clearing])
            &&& making::question(not_there.0) == AskView::Launch(
                ProgramView {
                    name: "cargo"@,
                    args: seq!["new"@, "--lib"@, "rlib_gen"@],
                    dir: Some(PlaceView::Base),
                    env: seq![],
                },
            )
            &&& not_there.1 == seq![LineView::Out("[rlib] Creating rlib_gen project..."@)]
            &&& end == Ok::<Option<i32>, Seq<char>>(Some(0)) ==> n3 == (
                BuildView::ReadManifest(r),
                seq![clearing],
            )
            &&& end != Ok::<Option<i32>, Seq<char>>(Some(0)) ==> making::question(n3.0)
                == AskView::Exit(1) && n3.1 == seq![
                LineView::Warn(
                    match end {
                        Ok(_) => "[rlib] cargo new failed"@,
                        Err(e) => "[rlib] Failed to run cargo new: "@ + e,
                    },
                ),
            ]
        }),
{
    assert("[rlib] "@ + "cargo new"@ + " failed"@ =~= "[rlib] cargo new failed"@) by {
        reveal_strlit("[rlib] ");
        reveal_strlit("cargo new");
        reveal_strlit(" failed");
        reveal_strlit("[rlib] cargo new failed");
    }
    assert("[rlib] Failed to run "@ + "cargo new"@ + ": "@ =~= "[rlib] Failed to run cargo new: "@) by {
        reveal_strlit("[rlib] Failed to run ");
        reveal_strlit("cargo new");
        reveal_strlit(": ");
        reveal_strlit("[rlib] Failed to run cargo new: ");
    }
}

/// The manifest of the project is cleaned of its dependencies and written back where
/// it could be read, and a failure is only told; then what is left of an earlier
/// compilation is removed, which must not fail.
pub proof fn a_project_is_cleared(
    r: RequestView,
    content: Result<Seq<char>, Seq<char>>,
    done: Result<(), Seq<char>>,
)
    ensures
        ({
            let s0 = BuildView::ReadManifest(r);
            let n1 = making::next(s0, AnswerView::Text(content));
            let target = BuildView::FindTarget(r);
            let there = making::next(target, AnswerView::Flag(true));
            let not_there = making::next(target, AnswerView::Flag(false));
            let n3 = making::next(there.0, AnswerView::Done(done));
            let adding = LineView::Out("[rlib] Adding dependency via cargo..."@);
            &&& making::question(s0) == AskView::Read(PlaceView::ProjectManifest)
            &&& match content {
                Err(e) => n1 == (
                    target,
                    seq![LineView::Warn("[rlib] Failed to read Cargo.toml: "@ + e)],
                ),
                Ok(text) => {
                    let n2 = making::next(n1.0, AnswerView::Done(done));
                    &&& making::question(n1.0) == (AskView::Write {
                        place: PlaceView::ProjectManifest,
                        text: compose::joined(
                            manifest::kept_lines(text::lines_of(text)),
                            "\n"@,
                        ),
                    })
                    &&& n1.1 == Seq::<LineView>::empty()
                    &&& n2.0 == target
                    &&& n2.1 == match done {
                        Ok(_) => seq![],
                        Err(e) => seq![LineView::Warn("[rlib] Failed to write Cargo.toml: "@ + e)],
                    }
                },
            }
            &&& making::question(target) == AskView::Exists(PlaceView::ProjectTarget)
            &&& not_there == (BuildView::AddLibrary(r), seq![adding])
            &&& making::question(there.0) == AskView::RemoveDirs(PlaceView::ProjectTarget)
            &&& there.1 == seq![LineView::Out("[rlib] Removing target directory..."@)]
            &&& match done {
                Ok(_) => n3 == (BuildView::AddLibrary(r), seq![adding]),
                Err(e) => making::question(n3.0) == AskView::Exit(1) && n3.1 == seq![
                    LineView::Warn("[rlib] Failed to remove target directory: "@ + e),
                ],
            }
        }),
{
}

/// The library is added to the project with what `cargo add` is given for the request,
/// and the project is compiled; the compilation goes on only if both succeed.
pub proof fn a_library_is_added_and_compiled(
    r: RequestView,
    end: Result<Option<i32>, Seq<char>>,
)
    ensures
        ({
            let add = BuildView::AddLibrary(r);
            let compile = BuildView::Compile(r);
            let n1 = making::next(add, AnswerView::Exited(end));
            let n2 = making::next(compile, AnswerView::Exited(end));
            let good = end == Ok::<Option<i32>, Seq<char>>(Some(0));
            &&& making::question(add) == AskView::Launch(
                ProgramView {
                    name: "cargo"@,
                    args: request::add_args(r),
                    dir: Some(PlaceView::Project),
                    env: seq![],
                },
            )
            &&& good ==> n1 == (compile, seq![LineView::Out("[rlib] Building release..."@)])
            &&& !good ==> making::question(n1.0) == AskView::Exit(1) && n1.1 == seq![
                LineView::Warn(
                    match end {
                        Ok(_) => "[rlib] "@ + "cargo add"@ + " failed"@,
                        Err(e) => "[rlib] Failed to run "@ + "cargo add"@ + ": "@ + e,
                    },
                ),
            ]
            &&& making::question(compile) == AskView::Launch(
                ProgramView {
                    name: "cargo"@,
                    args: seq!["build"@, "--release"@],
                    dir: Some(PlaceView::Project),
                    env: seq![],
                },
            )
            &&& good ==> making::question(n2.0) == AskView::Read(PlaceView::ProjectLock) && n2.1
                == Seq::<LineView>::empty() && n2.0 == BuildView::ReadLock(r)
            &&& !good ==> making::question(n2.0) == AskView::Exit(1) && n2.1 == seq![
                LineView::Warn(
                    match end {
                        Ok(_) => "[rlib] "@ + "cargo build --release"@ + " failed"@,
                        Err(e) => "[rlib] Failed to run "@ + "cargo build --release"@ + ": "@ + e,
                    },
                ),
            ]
        }),
{
}

// ---- from the compilation to the registry

/// The folder of a library is the one with its key: it is made, and everything that
/// was compiled is copied into it, file by file from the first to the last.
pub proof fn everything_is_copied_to_the_folder(
    r: RequestView,
    lock: Result<Seq<char>, Seq<char>>,
    made: Result<(), Seq<char>>,
    dir: Seq<char>,
    files: Result<Seq<Seq<char>>, Seq<char>>,
    deps: Seq<char>,
)
    ensures
        ({
            let version = manifest::version_in(lines_read(lock), r.lib_name);
            let key = request::key_of(r.lib_name, version, r.features);
            let folder = PlaceView::Library(key);
            let n1 = making::next(BuildView::ReadLock(r), AnswerView::Text(lock));
            let n2 = making::next(n1.0, AnswerView::Done(made));
            let ok2 = making::next(n1.0, AnswerView::Done(Ok(()))).0;
            let n3 = making::next(ok2, AnswerView::Located(dir));
            let n4 = making::next(n3.0, AnswerView::Flag(true));
            let n5 = making::next(n4.0, AnswerView::Names(files));
            let m4 = making::next(n3.0, AnswerView::Flag(false));
            let m5 = making::next(m4.0, AnswerView::Located(deps));
            let m = MadeView { request: r, version, key, dir };
            &&& making::question(n1.0) == AskView::MakeDirs(folder) && n1.1.len() == 0
            &&& match made {
                Ok(_) => making::question(n2.0) == AskView::Locate(folder) && n2.1.len() == 0,
                Err(e) => making::question(n2.0) == AskView::Exit(1) && n2.1 == seq![
                    LineView::Warn("[rlib] Failed to create output directory: "@ + e),
                ],
            }
            &&& making::question(n3.0) == AskView::Exists(PlaceView::ProjectDeps)
            &&& n3.1 == seq![LineView::Out("[rlib] Copying deps to "@ + dir + "..."@)]
            &&& making::question(n4.0) == AskView::Files(PlaceView::ProjectDeps) && n4.1.len() == 0
            &&& match files {
                Err(e) => n5 == (
                    BuildView::ListOutput(m),
                    seq![LineView::Warn("[rlib] Failed to read deps directory: "@ + e)],
                ),
                Ok(v) => n5.1.len() == 0 && n5.0 == (if v.len() == 0 {
                    BuildView::ListOutput(m)
                } else {
                    BuildView::CopyDep { made: m, files: v, index: 0 }
                }),
            }
            &&& making::question(m4.0) == AskView::Locate(PlaceView::ProjectDeps) && m4.1.len() == 0
            &&& m5 == (
                BuildView::ListOutput(m),
                seq![LineView::Warn("[rlib] deps directory not found: "@ + deps)],
            )
        }),
{
}

/// Each file is copied into the folder of the library; a failure is told, and the next
/// file follows. After the last one the folder is listed.
pub proof fn each_file_is_copied(
    m: MadeView,
    files: Seq<Seq<char>>,
    index: int,
    done: Result<(), Seq<char>>,
)
    requires
        0 <= index < files.len(),
    ensures
        ({
            let s = BuildView::CopyDep { made: m, files, index };
            let n = making::next(s, AnswerView::Done(done));
            &&& making::question(s) == (AskView::Copy { index, to: PlaceView::Library(m.key) })
            &&& n.0 == (if index + 1 == files.len() {
                BuildView::ListOutput(m)
            } else {
                BuildView::CopyDep { made: m, files, index: index + 1 }
            })
            &&& n.1 == match done {
                Ok(_) => seq![],
                Err(e) => seq![
                    LineView::Warn("[rlib] Failed to copy "@ + files[index] + ": "@ + e),
                ],
            }
            &&& making::question(BuildView::ListOutput(m)) == AskView::Names(
                PlaceView::Library(m.key),
            )
        }),
{
}

/// The registry that is stored has, under the key of the library, an entry with the
/// name and all the features of the request in their order, the version, and the flags
/// for the files of its folder; every other entry stays as it was.
pub proof fn the_whole_library_is_recorded(
    m: MadeView,
    names: Result<Seq<Seq<char>>, Seq<char>>,
    index: Map<Seq<char>, EntryView>,
    other: Seq<char>,
    done: Result<(), Seq<char>>,
)
    ensures
        ({
            let n1 = making::next(BuildView::ListOutput(m), AnswerView::Names(names));
            let n2 = making::next(n1.0, AnswerView::Known(index));
            let n3 = making::next(n2.0, AnswerView::Done(done));
            let files = match names {
                Ok(v) => v,
                Err(_) => seq![],
            };
            &&& making::question(n1.0) == AskView::LoadRegistry && n1.1.len() == 0
            &&& n2.1.len() == 0
            &&& match making::question(n2.0) {
                AskView::SaveRegistry(stored) => {
                    &&& stored.contains_key(m.key)
                    &&& stored[m.key].name == m.request.lib_name
                    &&& stored[m.key].version == m.version
                    &&& stored[m.key].features == m.request.features
                    &&& stored[m.key].flags == artifacts::flags_for(m.dir, files)
                    &&& other != m.key ==> stored.contains_key(other) == index.contains_key(other)
                    &&& other != m.key && index.contains_key(other) ==> stored[other] == index[other]
                },
                _ => false,
            }
            &&& making::question(n3.0) == AskView::Return
            &&& n3.1 == (match done {
                Ok(_) => seq![],
                Err(_) => seq![LineView::Warn("[rlib] Failed to write list.json"@)],
            }) + seq![
                LineView::Clear,
                LineView::Out("[rlib] Done. Saved '"@ + m.key + "' to ~/.rlib/list.json"@),
            ]
        }),
{
}

// ---- the flags of a folder

/// A file name is `lib`, the crate, a hyphen with something behind it or not, and
/// `.rlib`: the crate is what stands before the last hyphen.
pub proof fn library_files_name_their_crates(name: Seq<char>, hash: Seq<char>, other: Seq<char>)
    ensures
        !name.contains('-') ==> artifacts::crate_of("lib"@ + name + ".rlib"@) == Some(name),
        !hash.contains('-') ==> artifacts::crate_of("lib"@ + (name + seq!['-'] + hash) + ".rlib"@)
            == Some(name),
        !text::has_prefix(other, "lib"@) ==> artifacts::crate_of(other) is None,
        !text::has_suffix(text::after_prefix(other, "lib"@), ".rlib"@) ==> artifacts::crate_of(other)
            is None,
{
    reveal_strlit("-");
    let stem = name + seq!['-'] + hash;
    lemma_stem(name);
    lemma_stem(stem);
    if !name.contains('-') {
        assert forall|j: int| -1 < j < name.len() implies name[j] != '-' by {
            assert(name.contains(name[j]));
        }
        lemma_no_last(name, '-');
    }
    if !hash.contains('-') {
        artifacts::hashed_file_names_its_crate(name, hash);
        assert("-"@ =~= seq!['-']);
        assert("lib"@ + name + "-"@ + hash + ".rlib"@ =~= "lib"@ + stem + ".rlib"@);
    }
}

proof fn lemma_no_last(s: Seq<char>, c: char)
    requires
        !s.contains(c),
    ensures
        artifacts::find_last_char(s, c) == -1,
    decreases s.len(),
{
    if s.len() > 0 {
        assert(s.contains(s.last()));
        let t = s.drop_last();
        if t.contains(c) {
            let i = choose|i: int| 0 <= i < t.len() && t[i] == c;
            assert(s[i] == c);
        }
        lemma_no_last(t, c);
    }
}

proof fn lemma_last_is(a: Seq<char>, c: char, b: Seq<char>)
    requires
        !b.contains(c),
    ensures
        artifacts::find_last_char(a + seq![c] + b, c) == a.len(),
    decreases b.len(),
{
    let s = a + seq![c] + b;
    if b.len() > 0 {
        assert(b.contains(b.last()));
        let t = b.drop_last();
        if t.contains(c) {
            let i = choose|i: int| 0 <= i < t.len() && t[i] == c;
            assert(b[i] == c);
        }
        lemma_last_is(a, c, t);
        assert(s.drop_last() =~= a + seq![c] + t);
    }
}

proof fn lemma_stem(stem: Seq<char>)
    ensures
        text::has_prefix("lib"@ + stem + ".rlib"@, "lib"@),
        text::has_suffix(text::after_prefix("lib"@ + stem + ".rlib"@, "lib"@), ".rlib"@),
        text::before_suffix(text::after_prefix("lib"@ + stem + ".rlib"@, "lib"@), ".rlib"@) == stem,
{
    let s = "lib"@ + stem + ".rlib"@;
    assert(s =~= "lib"@ + (stem + ".rlib"@));
    text_laws::prefix_and_rest(s, "lib"@, stem + ".rlib"@);
    text_laws::suffix_and_rest(stem + ".rlib"@, ".rlib"@, stem);
}

/// The extension of a file name is what stands behind its last dot, where something
/// stands before it.
pub proof fn the_extension_is_behind_the_last_dot(a: Seq<char>, b: Seq<char>, ext: Seq<char>)
    requires
        !b.contains('.'),
    ensures
        artifacts::has_extension(a + seq!['.'] + b, ext) <==> a.len() > 0 && b == ext,
        !artifacts::has_extension(b, ext),
{
    lemma_last_is(a, '.', b);
    assert((a + seq!['.'] + b).skip(a.len() as int + 1) =~= b);
    lemma_no_last(b, '.');
}

/// The flags of a folder, read one by one: first the folder; then one flag for each
/// library file, with its crate, the folder and the file, and no other.
pub proof fn flags_of_a_folder(dir: Seq<char>, names: Seq<Seq<char>>, i: int, k: int)
    requires
        0 <= i < names.len(),
        1 <= k < artifacts::single_flags(dir, names).len(),
    ensures
        artifacts::flags_for(dir, names) == compose::joined(
            artifacts::single_flags(dir, names),
            " "@,
        ),
        artifacts::single_flags(dir, names)[0] == "-L "@ + dir,
        ({
            let lib = artifacts::sorted_by_name(artifacts::libraries(names))[k - 1];
            artifacts::single_flags(dir, names)[k] == "--extern "@ + lib.0 + "="@ + dir + "/"@
                + lib.1
        }),
        artifacts::has_extension(names[i], "rlib"@) && artifacts::crate_of(names[i]) is Some
            ==> artifacts::single_flags(dir, names).contains(
            "--extern "@ + artifacts::crate_of(names[i])->0 + "="@ + dir + "/"@ + names[i],
        ),
        exists|j: int|
            0 <= j < names.len() && artifacts::has_extension(#[trigger] names[j], "rlib"@)
                && artifacts::crate_of(names[j]) is Some && artifacts::single_flags(dir, names)[k]
                == "--extern "@ + artifacts::crate_of(names[j])->0 + "="@ + dir + "/"@ + names[j],
{
    if artifacts::has_extension(names[i], "rlib"@) && artifacts::crate_of(names[i]) is Some {
        artifacts::every_library_file_has_its_flag(dir, names, i);
    }
    artifacts::every_flag_is_of_a_library_file(dir, names, k);
}

/// There are as many flags as library files, and one for the folder; their crates are
/// in alphabetical order.
pub proof fn flags_are_in_order(dir: Seq<char>, names: Seq<Seq<char>>, name: Seq<char>)
    ensures
        artifacts::single_flags(dir, Seq::<Seq<char>>::empty()).len() == 1,
        artifacts::has_extension(name, "rlib"@) && artifacts::crate_of(name) is Some
            ==> artifacts::single_flags(dir, names.push(name)).len() == artifacts::single_flags(
            dir,
            names,
        ).len() + 1,
        !(artifacts::has_extension(name, "rlib"@) && artifacts::crate_of(name) is Some)
            ==> artifacts::single_flags(dir, names.push(name)) == artifacts::single_flags(
            dir,
            names,
        ),
        artifacts::libraries(Seq::<Seq<char>>::empty()).len() == 0,
        artifacts::libraries(names.push(name)) == (if artifacts::has_extension(name, "rlib"@)
            && artifacts::crate_of(name) is Some {
            artifacts::libraries(names).push((artifacts::crate_of(name)->0, name))
        } else {
            artifacts::libraries(names)
        }),
        artifacts::single_flags(dir, names).len() == artifacts::sorted_by_name(
            artifacts::libraries(names),
        ).len() + 1,
        forall|a: int, b: int|
            0 <= a <= b < artifacts::sorted_by_name(artifacts::libraries(names)).len()
                ==> order::lex_le(
                (#[trigger] artifacts::sorted_by_name(artifacts::libraries(names))[a]).0,
                (#[trigger] artifacts::sorted_by_name(artifacts::libraries(names))[b]).0,
            ),
{
    let none = Seq::<Seq<char>>::empty();
    artifacts::sorting_keeps_the_number(artifacts::libraries(none));
    artifacts::sorting_keeps_the_number(artifacts::libraries(names));
    artifacts::sorting_keeps_the_number(artifacts::libraries(names.push(name)));
    assert(names.push(name).drop_last() =~= names);
}

} // verus!
