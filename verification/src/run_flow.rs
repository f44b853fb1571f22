//! What a run does, from the command line to the program.

use crate::compose;
use crate::config;
use crate::config::ConfigView;
use crate::config_laws;
use crate::dialog;
use crate::dialog::{AnswerView, AskView, LineView, OutputView, PlaceView, ProgramView};
use crate::list;
use crate::registry::EntryView;
use crate::run;
use crate::run::{PlanView, RunView};
use crate::search;
use crate::text;
use crate::text_laws;
use vstd::prelude::*;

verus! {

// ---- the command line

/// The words of the command are the words behind the list file that are not
/// `nightly`, in their order; another word is added if it is another.
pub proof fn a_word_is_added_to_the_command(args: Seq<Seq<char>>, w: Seq<char>)
    requires
        args.len() >= 2,
    ensures
        run::plan_of(args.push(w)).list == args[1],
        run::plan_of(args.push(w)).nightly == (w == "nightly"@ || exists|i: int|
            0 <= i < args.len() && #[trigger] args[i] == "nightly"@),
        w != "nightly"@ ==> run::plan_of(args.push(w)).command == run::plan_of(args).command.push(
            w,
        ),
        w == "nightly"@ ==> run::plan_of(args.push(w)).command == run::plan_of(args).command,
        args.len() == 2 ==> run::plan_of(args).command == Seq::<Seq<char>>::empty(),
{
    let more = args.push(w);
    assert(more.skip(2) =~= args.skip(2).push(w));
    assert(args.skip(2).push(w).drop_last() =~= args.skip(2));
    reveal(Seq::filter);
    if args.len() == 2 {
        assert(args.skip(2) =~= Seq::<Seq<char>>::empty());
        assert(run::without_nightly(args.skip(2)) =~= Seq::<Seq<char>>::empty());
    }
    if more.contains("nightly"@) {
        let i = choose|i: int| 0 <= i < more.len() && more[i] == "nightly"@;
        if i < args.len() {
            assert(args[i] == "nightly"@);
        }
    }
    if w == "nightly"@ {
        assert(more[args.len() as int] == "nightly"@);
    }
    if exists|i: int| 0 <= i < args.len() && #[trigger] args[i] == "nightly"@ {
        let i = choose|i: int| 0 <= i < args.len() && #[trigger] args[i] == "nightly"@;
        assert(more[i] == "nightly"@);
    }
}

/// A run begins with its list file, or is refused for want of words.
pub proof fn a_run_begins_with_its_list(args: Seq<Seq<char>>)
    ensures
        args.len() >= 3 ==> run::question(run::first(args).0) == AskView::Read(
            PlaceView::Path(args[1]),
        ) && run::first(args).1 == Seq::<LineView>::empty(),
        args.len() < 3 ==> run::question(run::first(args).0) == AskView::Exit(1) && run::first(args).1
            == seq![
            LineView::Warn("[rlib] Usage: rlib <rlib.list> <cargo sub-command...> [nightly]"@),
        ],
{
}

/// What a run says and asks once its list file has been read: the failure, that
/// there are no keys, how it is used, or the registry.
pub proof fn a_list_is_read(plan: PlanView, content: Result<Seq<char>, Seq<char>>)
    ensures
        ({
            let n = run::next(RunView::ReadList(plan), AnswerView::Text(content));
            match content {
                Err(e) => run::question(n.0) == AskView::Exit(1) && n.1 == seq![
                    LineView::Warn(
                        "[rlib] Failed to read list file '"@ + plan.list + "': "@ + e,
                    ),
                ],
                Ok(s) => if list::active(s).len() == 0 {
                    run::question(n.0) == AskView::Exit(1) && n.1 == seq![
                        LineView::Warn("[rlib] The list file has no active entries."@),
                    ]
                } else if plan.command.len() == 0 {
                    run::question(n.0) == AskView::Exit(1) && n.1 == seq![
                        LineView::Warn(
                            "[rlib] Usage: rlib <rlib.list> <cargo sub-command...> [nightly]"@,
                        ),
                    ]
                } else {
                    run::question(n.0) == AskView::LoadRegistry && n.1 == Seq::<LineView>::empty()
                        && n.0 == (RunView::LoadIndex { plan, keys: list::active(s) })
                },
            }
        }),
{
}

/// Between the registry and the linker a run reads its settings file, and keeps what
/// it knows.
pub proof fn a_registry_is_loaded(
    plan: PlanView,
    keys: Seq<Seq<char>>,
    m: Map<Seq<char>, EntryView>,
)
    ensures
        ({
            let n = run::next(RunView::LoadIndex { plan, keys }, AnswerView::Known(m));
            &&& run::question(n.0) == AskView::Read(PlaceView::Path("rlib.config"@))
            &&& n.1 == Seq::<LineView>::empty()
            &&& n.0 == (RunView::ReadConfig { plan, keys, index: m })
        }),
{
}

// ---- the flags

/// The words of the libraries are, key by key, the words of the flags that the
/// registry has for the key, and none for a key that it does not have.
pub proof fn a_key_adds_its_words(
    keys: Seq<Seq<char>>,
    key: Seq<char>,
    m: Map<Seq<char>, EntryView>,
)
    ensures
        run::library_words(Seq::<Seq<char>>::empty(), m) == Seq::<Seq<char>>::empty(),
        m.contains_key(key) ==> run::library_words(keys.push(key), m) == run::library_words(keys, m)
            + text::words(m[key].flags),
        !m.contains_key(key) ==> run::library_words(keys.push(key), m) == run::library_words(
            keys,
            m,
        ),
        run::missing_lines(Seq::<Seq<char>>::empty(), m) == Seq::<LineView>::empty(),
        m.contains_key(key) ==> run::missing_lines(keys.push(key), m) == run::missing_lines(keys, m),
        !m.contains_key(key) ==> run::missing_lines(keys.push(key), m) == run::missing_lines(
            keys,
            m,
        ).push(
            LineView::Warn("[rlib] Warning: '"@ + key + "' not found in list.json — skipping."@),
        ),
{
    assert(keys.push(key).drop_last() =~= keys);
}

proof fn lemma_library_words(keys: Seq<Seq<char>>, m: Map<Seq<char>, EntryView>, i: int)
    requires
        0 <= i < run::library_words(keys, m).len(),
    ensures
        text_laws::is_word(run::library_words(keys, m)[i]),
    decreases keys.len(),
{
    let front = run::library_words(keys.drop_last(), m);
    if i < front.len() {
        lemma_library_words(keys.drop_last(), m, i);
    } else {
        text_laws::words_are_words(m[keys.last()].flags, i - front.len());
    }
}

/// Read word by word, the flags that the compiler gets are the words of the settings
/// and then those of the libraries.
pub proof fn flags_are_these_words(
    settings: Seq<char>,
    keys: Seq<Seq<char>>,
    m: Map<Seq<char>, EntryView>,
)
    ensures
        text::words(run::rustflags(settings, keys, m)) == text::words(settings)
            + run::library_words(keys, m),
{
    let all = text::words(settings) + run::library_words(keys, m);
    assert forall|i: int| 0 <= i < all.len() implies text_laws::is_word(#[trigger] all[i]) by {
        if i < text::words(settings).len() {
            text_laws::words_are_words(settings, i);
        } else {
            lemma_library_words(keys, m, i - text::words(settings).len());
        }
    }
    text_laws::joined_words_are_read_back(all);
}

// ---- the settings

/// The settings of a run are those of the settings file: the linker and the
/// allocator as they are, and the code generator too, but for Cranelift on stable.
pub proof fn settings_of_a_run(c: ConfigView, nightly: bool)
    ensures
        run::effective(c, nightly).linker == c.linker,
        run::effective(c, nightly).allocator == c.allocator,
        run::effective(c, nightly).nightly == nightly,
        nightly || c.backend != "cranelift"@ ==> run::effective(c, nightly).backend == c.backend,
        !nightly && c.backend == "cranelift"@ ==> run::effective(c, nightly).backend == "llvm"@,
{
}

/// What the settings file holds, read from the answer to the question for it.
pub open spec fn settings_read(content: Result<Seq<char>, Seq<char>>) -> ConfigView {
    config::after_lines(
        match content {
            Ok(s) => text::lines_of(s),
            Err(_) => seq![],
        },
    )
}

/// The linker that is looked for is the one that the settings file sets, and every
/// entry that cannot be used is named.
pub proof fn the_linker_that_is_set_is_looked_for(
    plan: PlanView,
    keys: Seq<Seq<char>>,
    index: Map<Seq<char>, EntryView>,
    content: Result<Seq<char>, Seq<char>>,
    i: int,
)
    ensures
        ({
            let n = run::next(
                RunView::ReadConfig { plan, keys, index },
                AnswerView::Text(content),
            );
            let linker = settings_read(content).linker;
            let bad = config::bad_lines(
                match content {
                    Ok(s) => text::lines_of(s),
                    Err(_) => seq![],
                },
            );
            &&& linker == "lld"@ || linker == "mold"@ || linker == "wild"@
            &&& linker == "lld"@ ==> run::question(n.0) == AskView::Probe("ld.lld"@)
            &&& linker == "mold"@ ==> run::question(n.0) == AskView::Probe("mold"@)
            &&& linker == "wild"@ ==> run::question(n.0) == AskView::Probe("wild"@)
            &&& n.1.len() == bad.len()
            &&& 0 <= i < bad.len() ==> n.1[i] == LineView::Warn(
                "[rlib] Unknown or invalid config entry ignored: "@ + bad[i],
            )
        }),
{
    let lines = match content {
        Ok(s) => text::lines_of(s),
        Err(_) => seq![],
    };
    config::settings_are_valid(lines);
    config_laws::linkers_have_their_own_flags(settings_read(content).linker, true);
}

// ---- the program

/// The state in which a run asks for its linker.
pub open spec fn before_the_linker(
    plan: PlanView,
    keys: Seq<Seq<char>>,
    m: Map<Seq<char>, EntryView>,
    content: Result<Seq<char>, Seq<char>>,
) -> RunView {
    let s = run::next(RunView::LoadIndex { plan, keys }, AnswerView::Known(m)).0;
    run::next(s, AnswerView::Text(content)).0
}

/// The program that a run is about to start.
pub open spec fn about_to_start(s: RunView) -> ProgramView {
    match s {
        RunView::FindLibrary { program, .. } => program,
        RunView::CheckLibrary { program, .. } => program,
        RunView::Launch(program) => program,
        _ => dialog::plain_program(seq![], seq![], None),
    }
}

/// The program of a run is the command, in the current directory, with the flags, the
/// level of optimisation, and, with Cranelift on nightly alone, the word that the
/// compiler keeps what it knows of itself. The flags, word by word, are those of
/// every compilation, those of nightly and of the code generator on nightly, those of
/// the linker that is set where it is installed, and those of the libraries.
pub proof fn the_program_of_a_run(
    plan: PlanView,
    keys: Seq<Seq<char>>,
    m: Map<Seq<char>, EntryView>,
    content: Result<Seq<char>, Seq<char>>,
    installed: bool,
)
    requires
        plan.command.len() > 0,
    ensures
        ({
            let c = settings_read(content);
            let n = run::next(
                before_the_linker(plan, keys, m, content),
                AnswerView::Flag(installed),
            );
            let p = about_to_start(n.0);
            let flags = p.env[0].1;
            &&& p.name == plan.command[0]
            &&& p.args == plan.command.skip(1)
            &&& p.dir is None
            &&& p.env == seq![
                ("RUSTFLAGS"@, flags),
                ("CARGO_PROFILE_DEV_BUILD_OVERRIDE_OPT_LEVEL"@, "3"@),
            ] + (if plan.nightly && c.backend == "cranelift"@ {
                seq![("CARGO_CACHE_RUSTC_INFO"@, "1"@)]
            } else {
                seq![]
            })
            &&& text::words(flags) == text::words(config::BASE_FLAGS_STABLE@) + (if plan.nightly {
                text::words(config::BASE_FLAGS_NIGHTLY@) + text::words(
                    if c.backend == "cranelift"@ {
                        "-Zcodegen-backend=cranelift"@
                    } else {
                        "-Cno-prepopulate-passes"@
                    },
                )
            } else {
                seq![]
            }) + (if !installed {
                seq![]
            } else if c.linker == "lld"@ {
                text::words("-Clink-arg=-fuse-ld=lld"@)
            } else if c.linker == "mold"@ {
                text::words("-Clink-arg=-fuse-ld=mold"@)
            } else {
                text::words("-Clinker=clang -Clink-args=--ld-path=wild"@)
            }) + run::library_words(keys, m)
        }),
{
    let c = settings_read(content);
    let lines = match content {
        Ok(s) => text::lines_of(s),
        Err(_) => seq![],
    };
    config::settings_are_valid(lines);
    let e = run::effective(c, plan.nightly);
    settings_of_a_run(c, plan.nightly);
    config_laws::linkers_have_their_own_flags(c.linker, installed);
    let choice = config::linker_choice(c.linker, installed);
    config_laws::words_of_the_settings(e, choice);
    flags_are_these_words(config::config_flags(e, choice), keys, m);
    reveal_strlit("llvm");
    reveal_strlit("cranelift");
    assert("llvm"@.len() != "cranelift"@.len());
    let n = run::next(before_the_linker(plan, keys, m, content), AnswerView::Flag(installed));
    let p = about_to_start(n.0);
    assert(p.env =~= seq![
        ("RUSTFLAGS"@, p.env[0].1),
        ("CARGO_PROFILE_DEV_BUILD_OVERRIDE_OPT_LEVEL"@, "3"@),
    ] + (if plan.nightly && c.backend == "cranelift"@ {
        seq![("CARGO_CACHE_RUSTC_INFO"@, "1"@)]
    } else {
        seq![]
    }));
}

/// What a run says before its program: that the linker is missing, if it is, which
/// keys are unknown, which keys there are, and the settings.
pub proof fn what_a_run_says(
    plan: PlanView,
    keys: Seq<Seq<char>>,
    m: Map<Seq<char>, EntryView>,
    content: Result<Seq<char>, Seq<char>>,
    installed: bool,
)
    ensures
        ({
            let c = settings_read(content);
            let n = run::next(
                before_the_linker(plan, keys, m, content),
                AnswerView::Flag(installed),
            );
            n.1 == (if installed {
                seq![]
            } else {
                seq![
                    LineView::Warn(
                        "[rlib] Linker '"@ + c.linker + "' not found, skipping linker flag."@,
                    ),
                ]
            }) + run::missing_lines(keys, m) + seq![
                LineView::Out("[rlib] Passing RUSTFLAGS for: "@ + compose::joined(keys, ", "@)),
                LineView::Out(
                    "[rlib] Backend: "@ + (if plan.nightly || c.backend != "cranelift"@ {
                        c.backend
                    } else {
                        "llvm"@
                    }) + ", Linker: "@ + c.linker + ", Allocator: "@ + c.allocator + ", Channel: "@
                        + (if plan.nightly {
                        "nightly"@
                    } else {
                        "stable"@
                    }),
                ),
            ]
        }),
{
    settings_of_a_run(settings_read(content), plan.nightly);
}

// ---- the allocator

/// Only for mimalloc and tcmalloc a shared library is looked for, each under its own
/// name; otherwise the program is started at once.
pub proof fn an_allocator_is_looked_for(
    plan: PlanView,
    keys: Seq<Seq<char>>,
    m: Map<Seq<char>, EntryView>,
    content: Result<Seq<char>, Seq<char>>,
    installed: bool,
)
    ensures
        ({
            let c = settings_read(content);
            let s = run::next(
                before_the_linker(plan, keys, m, content),
                AnswerView::Flag(installed),
            ).0;
            let listing = AskView::Capture {
                program: ProgramView { name: "ldconfig"@, args: seq!["-p"@], dir: None, env: seq![] },
                pause: false,
            };
            &&& c.allocator == "mimalloc"@ ==> run::question(s) == listing && s
                == (RunView::FindLibrary {
                program: about_to_start(s),
                library: "libmimalloc.so"@,
            })
            &&& c.allocator == "tcmalloc"@ ==> run::question(s) == listing && s
                == (RunView::FindLibrary {
                program: about_to_start(s),
                library: "libtcmalloc.so"@,
            })
            &&& c.allocator == "jemalloc"@ ==> run::question(s) == AskView::Launch(
                about_to_start(s),
            )
        }),
{
    settings_of_a_run(settings_read(content), plan.nightly);
    reveal_strlit("mimalloc");
    reveal_strlit("tcmalloc");
    reveal_strlit("jemalloc");
    assert("mimalloc"@[0] == 'm' && "tcmalloc"@[0] == 't' && "jemalloc"@[0] == 'j');
}

/// A line of the list of shared libraries gives a path if and only if it holds the
/// name of the library and an arrow: what stands behind the last arrow, trimmed.
pub proof fn a_line_gives_a_path(a: Seq<char>, b: Seq<char>, name: Seq<char>, line: Seq<char>)
    ensures
        search::occurs(a + "=>"@ + b, name) && !search::occurs("=>"@.skip(1) + b, "=>"@)
            ==> run::path_in_line(a + "=>"@ + b, name) == Some(text::trimmed(b)),
        !search::occurs(line, name) || !search::occurs(line, "=>"@) ==> run::path_in_line(
            line,
            name,
        ) is None,
{
    reveal_strlit("=>");
    let arrow = "=>"@;
    let s = a + arrow + b;
    if search::occurs(s, name) && !search::occurs(arrow.skip(1) + b, arrow) {
        text_laws::occurring_is_standing_between(s, a, arrow, b);
        let i = a.len() as int;
        assert forall|j: int| i < j implies !search::occurs_at(s, arrow, j) by {
            if search::occurs_at(s, arrow, j) {
                let rest = arrow.skip(1) + b;
                assert(rest.subrange(j - i - 1, j - i + 1) =~= s.subrange(j, j + 2));
                assert(search::occurs_at(rest, arrow, j - i - 1));
            }
        }
        assert(search::is_last_at(s, arrow, i));
        let l = search::last_at(s, arrow);
        if l < i {
            assert(!search::occurs_at(s, arrow, i));
        }
        assert(l == i);
        assert(s.skip(i + 2) =~= b);
    }
}

/// The paths of several lines are those of each, in their order.
pub proof fn lines_give_paths_in_order(lines: Seq<Seq<char>>, line: Seq<char>, name: Seq<char>)
    ensures
        run::paths_in(Seq::<Seq<char>>::empty(), name) == Seq::<Seq<char>>::empty(),
        match run::path_in_line(line, name) {
            Some(p) => run::paths_in(lines.push(line), name) == run::paths_in(lines, name).push(p),
            None => run::paths_in(lines.push(line), name) == run::paths_in(lines, name),
        },
{
    assert(lines.push(line).drop_last() =~= lines);
}

/// Where the list of shared libraries gives no path, or could not be had, the program
/// is started as it is, and that is told; otherwise the first path is looked at.
pub proof fn paths_are_looked_at_from_the_first(
    program: ProgramView,
    library: Seq<char>,
    output: Result<OutputView, Seq<char>>,
)
    ensures
        ({
            let n = run::next(
                RunView::FindLibrary { program, library },
                AnswerView::Captured(output),
            );
            let paths = match output {
                Ok(o) => if o.code == Some(0i32) {
                    run::paths_in(text::lines_of(o.out), library)
                } else {
                    seq![]
                },
                Err(_) => seq![],
            };
            &&& paths.len() == 0 ==> run::question(n.0) == AskView::Launch(program) && n.1 == seq![
                LineView::Warn("[rlib] "@ + library + " not found, using default allocator."@),
            ]
            &&& paths.len() > 0 ==> run::question(n.0) == AskView::Exists(
                PlaceView::Path(paths[0]),
            ) && n.1 == Seq::<LineView>::empty() && n.0 == (RunView::CheckLibrary {
                program,
                library,
                paths,
                at: 0,
            })
        }),
{
}

/// A path that is there, at whatever place of the list it stands, is loaded first
/// into the program, and nothing is said. One that is not leads to the next path;
/// only after the last one the default allocator is used, and that is told.
pub proof fn the_first_path_that_is_there_is_loaded(
    program: ProgramView,
    library: Seq<char>,
    paths: Seq<Seq<char>>,
    at: int,
)
    requires
        0 <= at < paths.len(),
    ensures
        ({
            let s = RunView::CheckLibrary { program, library, paths, at };
            let yes = run::next(s, AnswerView::Flag(true));
            let no = run::next(s, AnswerView::Flag(false));
            &&& run::question(s) == AskView::Exists(PlaceView::Path(paths[at]))
            &&& run::question(yes.0) == AskView::Launch(
                ProgramView { env: program.env.push(("LD_PRELOAD"@, paths[at])), ..program },
            )
            &&& yes.1 == Seq::<LineView>::empty()
            &&& at + 1 < paths.len() ==> run::question(no.0) == AskView::Exists(
                PlaceView::Path(paths[at + 1]),
            ) && no.1 == Seq::<LineView>::empty() && no.0 == (RunView::CheckLibrary {
                program,
                library,
                paths,
                at: at + 1,
            })
            &&& at + 1 == paths.len() ==> run::question(no.0) == AskView::Launch(program) && no.1
                == seq![
                LineView::Warn("[rlib] "@ + library + " not found, using default allocator."@),
            ]
        }),
{
}

/// A run ends with the exit code of its program, with 1 where it has none, and with 1
/// and a message where the program cannot be run.
pub proof fn a_run_ends_as_its_program(program: ProgramView, end: Result<Option<i32>, Seq<char>>)
    ensures
        ({
            let n = run::next(RunView::Launch(program), AnswerView::Exited(end));
            match end {
                Ok(Some(code)) => run::question(n.0) == AskView::Exit(code) && n.1.len() == 0,
                Ok(None) => run::question(n.0) == AskView::Exit(1) && n.1.len() == 0,
                Err(e) => run::question(n.0) == AskView::Exit(1) && n.1 == seq![
                    LineView::Warn("[rlib] Failed to run '"@ + program.name + "': "@ + e),
                ],
            }
        }),
{
}

} // verus!
