//! What holds of every run.

use crate::compose;
use crate::config;
use crate::config::ConfigView;
use crate::dialog;
use crate::dialog::{AnswerView, LineView, ProgramView};
use crate::list;
use crate::registry::EntryView;
use crate::run;
use crate::run::RunView;
use crate::text;
use crate::upkeep;
use vstd::prelude::*;

verus! {

proof fn lemma_joined_covers_first(parts: Seq<Seq<char>>, sep: Seq<char>)
    requires
        parts.len() > 0,
    ensures
        compose::joined(parts, sep).len() >= parts[0].len(),
    decreases parts.len(),
{
    if parts.len() > 1 {
        lemma_joined_covers_first(parts.drop_last(), sep);
    }
}

/// The compiler always gets some flags: those of the settings are never empty,
/// whatever libraries are asked for.
pub proof fn flags_are_never_empty(
    settings: ConfigView,
    linker: Option<Seq<char>>,
    keys: Seq<Seq<char>>,
    m: Map<Seq<char>, EntryView>,
)
    ensures
        run::rustflags(config::config_flags(settings, linker), keys, m).len() > 0,
{
    let f = config::config_flags(settings, linker);
    reveal_strlit(
        "-C debuginfo=0 -C prefer-dynamic -C metadata=dev -C embed-bitcode=no -C debug-assertions=no",
    );
    assert(f[0] == config::BASE_FLAGS_STABLE@[0]);
    assert(f[0] == '-');
    assert(!text::white(f[0]));
    assert(text::trim_left(f) == f);
    text::lemma_word_end(f);
    assert(text::word_end(f) >= 1);
    let all = text::words(f) + run::library_words(keys, m);
    assert(all[0] == f.take(text::word_end(f)));
    lemma_joined_covers_first(all, " "@);
}

/// The words of the flags of every listed library that is known are passed on,
/// in one piece, behind those of the libraries listed before it.
pub proof fn every_known_library_is_passed(
    keys: Seq<Seq<char>>,
    m: Map<Seq<char>, EntryView>,
    i: int,
)
    requires
        0 <= i < keys.len(),
        m.contains_key(keys[i]),
    ensures
        ({
            let all = run::library_words(keys, m);
            let own = text::words(m[keys[i]].flags);
            let at = run::library_words(keys.take(i), m).len();
            at + own.len() <= all.len() && all.subrange(at as int, (at + own.len()) as int) == own
        }),
    decreases keys.len(),
{
    let front = keys.drop_last();
    let all = run::library_words(keys, m);
    let own = text::words(m[keys[i]].flags);
    let at = run::library_words(keys.take(i), m).len();
    if i < front.len() {
        every_known_library_is_passed(front, m, i);
        assert(front.take(i) == keys.take(i));
        assert(front[i] == keys[i]);
        let before = run::library_words(front, m);
        assert(all.take(before.len() as int) == before);
        assert(all.subrange(at as int, (at + own.len()) as int) == before.subrange(
            at as int,
            (at + own.len()) as int,
        ));
    } else {
        assert(keys.take(i) == front);
        assert(all.subrange(at as int, (at + own.len()) as int) == own);
    }
}

/// A key that is not in the registry adds no flags; there is a message for it.
pub proof fn unknown_libraries_are_skipped(
    keys: Seq<Seq<char>>,
    m: Map<Seq<char>, EntryView>,
    key: Seq<char>,
)
    requires
        !m.contains_key(key),
    ensures
        run::library_words(keys.push(key), m) == run::library_words(keys, m),
        run::missing_lines(keys.push(key), m) == run::missing_lines(keys, m).push(
            upkeep::skipped(key),
        ),
{
    assert(keys.push(key).drop_last() == keys);
}

/// On stable, LLVM is used whatever the settings file says, and the flags of the
/// settings are those of every compilation and those of the linker.
pub proof fn stable_always_uses_llvm(c: ConfigView, linker: Option<Seq<char>>)
    requires
        config::is_valid(c),
    ensures
        run::effective(c, false).backend == "llvm"@,
        config::config_flags(run::effective(c, false), linker) == config::BASE_FLAGS_STABLE@ + (
        match linker {
            Some(f) => " "@ + f,
            None => seq![],
        }),
{
    if let Some(f) = linker {
        assert(config::BASE_FLAGS_STABLE@ + " "@ + f =~= config::BASE_FLAGS_STABLE@ + (" "@ + f));
    } else {
        assert(config::BASE_FLAGS_STABLE@ + Seq::<char>::empty() =~= config::BASE_FLAGS_STABLE@);
    }
}

/// The program of a state that is about to run it.
pub open spec fn program_in(s: RunView) -> Option<ProgramView> {
    match s {
        RunView::FindLibrary { program, .. } => Some(program),
        RunView::CheckLibrary { program, .. } => Some(program),
        RunView::Launch(program) => Some(program),
        _ => None,
    }
}

/// Whether a program is run with a variable.
pub open spec fn has_variable(p: ProgramView, name: Seq<char>, value: Seq<char>) -> bool {
    p.env.contains((name, value))
}

/// From the list file, the registry and the settings file to the program: it is
/// the command that was asked for, run with the flags of the settings and of the
/// libraries of the list file.
pub proof fn command_gets_its_libraries(
    args: Seq<Seq<char>>,
    content: Seq<char>,
    m: Map<Seq<char>, EntryView>,
    settings: Result<Seq<char>, Seq<char>>,
    installed: bool,
)
    requires
        args.len() >= 3,
        list::active(content).len() > 0,
        run::command_in(args).len() > 0,
    ensures
        ({
            let s1 = run::next(run::first(args).0, AnswerView::Text(Ok(content))).0;
            let s2 = run::next(s1, AnswerView::Known(m)).0;
            let s3 = run::next(s2, AnswerView::Text(settings)).0;
            let s4 = run::next(s3, AnswerView::Flag(installed)).0;
            let c = run::effective(
                config::after_lines(
                    config::config_lines(
                        match settings {
                            Ok(t) => Some(t),
                            Err(_) => None,
                        },
                    ),
                ),
                args.contains("nightly"@),
            );
            let flags = run::rustflags(
                config::config_flags(c, config::linker_choice(c.linker, installed)),
                list::active(content),
                m,
            );
            &&& program_in(s4) is Some
            &&& program_in(s4)->0.name == run::command_in(args)[0]
            &&& program_in(s4)->0.args == run::command_in(args).skip(1)
            &&& has_variable(program_in(s4)->0, "RUSTFLAGS"@, flags)
        }),
{
    let s1 = run::next(run::first(args).0, AnswerView::Text(Ok(content))).0;
    let s2 = run::next(s1, AnswerView::Known(m)).0;
    let s3 = run::next(s2, AnswerView::Text(settings)).0;
    let s4 = run::next(s3, AnswerView::Flag(installed)).0;
    let p = program_in(s4)->0;
    assert(p.env[0].0 == "RUSTFLAGS"@);
    assert(p.env.contains(p.env[0]));
}

/// What follows until the program is run changes nothing but that a shared
/// library may be loaded into it first.
pub proof fn program_is_kept(s: RunView, a: AnswerView)
    requires
        dialog::fits(run::question(s), a),
        run::is_sound(s),
        program_in(s) is Some,
        s !is Launch,
    ensures
        match program_in(run::next(s, a).0) {
            Some(p) => p == program_in(s)->0 || exists|path: Seq<char>|
                p == #[trigger] dialog::with_variable(program_in(s)->0, "LD_PRELOAD"@, path),
            None => false,
        },
{
    if let (
        RunView::CheckLibrary { program, library, paths, at },
        AnswerView::Flag(there),
    ) = (s, a) {
        if there {
            assert(program_in(run::next(s, a).0)->0 == dialog::with_variable(
                program,
                "LD_PRELOAD"@,
                paths[at],
            ));
        }
    }
}

/// How far a state is along the way.
pub open spec fn rank(s: RunView) -> int {
    match s {
        RunView::ReadList(_) => 0,
        RunView::LoadIndex { .. } => 1,
        RunView::ReadConfig { .. } => 2,
        RunView::ProbeLinker { .. } => 3,
        RunView::FindLibrary { .. } => 4,
        RunView::CheckLibrary { .. } => 5,
        RunView::Launch(_) => 6,
        RunView::Stopped(_) => 7,
    }
}

/// Every answer leads forward: to a later state, or to the next of the paths of
/// a shared library. So a run comes to an end.
pub proof fn goes_forward(s: RunView, a: AnswerView)
    requires
        dialog::fits(run::question(s), a),
    ensures
        rank(s) < rank(run::next(s, a).0) || (match (s, run::next(s, a).0) {
            (
                RunView::CheckLibrary { paths, at, .. },
                RunView::CheckLibrary { paths: paths2, at: at2, .. },
            ) => paths2 == paths && at2 == at + 1 && at2 < paths.len(),
            _ => false,
        }),
{
}

/// The exit code of the program is that of the run.
pub proof fn exit_code_is_passed_on(p: ProgramView, code: i32)
    ensures
        run::next(RunView::Launch(p), AnswerView::Exited(Ok(Some(code)))) == (
            RunView::Stopped(code),
            Seq::<LineView>::empty(),
        ),
{
}

/// A run that ends without running the program exits with the code 1, after a
/// message.
pub proof fn stops_with_a_message(s: RunView, a: AnswerView)
    requires
        dialog::fits(run::question(s), a),
        run::next(s, a).0 is Stopped,
        s !is Launch,
    ensures
        run::next(s, a).0 == RunView::Stopped(1),
        run::next(s, a).1.len() == 1,
        run::next(s, a).1[0] is Warn,
{
}

} // verus!
