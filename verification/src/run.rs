//! Running a command with the compiled libraries of a list file.

use crate::compose;
use crate::config;
use crate::config::{ConfigView, RlibConfig};
use crate::dialog;
use crate::dialog::{
    Answer, AnswerView, Ask, AskView, Line, LineView, OutputView, Output, Place, PlaceView,
    Program, ProgramView,
};
use crate::list;
use crate::registry::{EntryView, Registry};
use crate::request;
use crate::search;
use crate::text;
use crate::upkeep;
use vstd::prelude::*;
use vstd::slice::slice_subrange;
use vstd::string::*;

verus! {

// ---- the command line

/// Whether a command line asks for a nightly compiler.
pub open spec fn asks_nightly(args: Seq<Seq<char>>) -> bool {
    args.contains("nightly"@)
}

/// The command to run: what follows the list file, without `nightly`.
pub open spec fn command_in(args: Seq<Seq<char>>) -> Seq<Seq<char>> {
    without_nightly(args.skip(2))
}

/// The texts that are not `nightly`.
pub open spec fn without_nightly(v: Seq<Seq<char>>) -> Seq<Seq<char>> {
    v.filter(|a: Seq<char>| a != "nightly"@)
}

/// A command that is to be run.
#[derive(Debug)]
pub struct Plan {
    pub list: String,
    pub nightly: bool,
    pub command: Vec<String>,
}

/// The texts of a `Plan`.
pub struct PlanView {
    pub list: Seq<char>,
    pub nightly: bool,
    pub command: Seq<Seq<char>>,
}

impl View for Plan {
    type V = PlanView;

    open spec fn view(&self) -> PlanView {
        PlanView {
            list: self.list@,
            nightly: self.nightly,
            command: text::texts(self.command@),
        }
    }
}

/// The command that a command line asks to run.
pub open spec fn plan_of(args: Seq<Seq<char>>) -> PlanView {
    PlanView { list: args[1], nightly: asks_nightly(args), command: command_in(args) }
}

/// The command that a command line asks to run.
pub fn read_plan(args: &Vec<String>) -> (r: Plan)
    requires
        args@.len() >= 2,
    ensures
        r@ == plan_of(text::texts(args@)),
{
    let ghost all = text::texts(args@).skip(2);
    let nightly = list::has_string(args, "nightly");
    let mut command: Vec<String> = Vec::new();
    let mut i: usize = 2;
    proof {
        reveal(Seq::filter);
        assert(all.take(0) =~= Seq::<Seq<char>>::empty());
        assert(text::texts(command@) =~= without_nightly(all.take(0)));
    }
    while i < args.len()
        invariant
            2 <= i <= args@.len(),
            all == text::texts(args@).skip(2),
            text::texts(command@) == without_nightly(all.take(i - 2)),
        decreases args@.len() - i,
    {
        proof {
            reveal(Seq::filter);
            assert(all.take(i - 1).drop_last() =~= all.take(i - 2));
            assert(all.take(i - 1).last() == args@[i as int]@);
        }
        if !text::same_str(args[i].as_str(), "nightly") {
            request::add_text(&mut command, args[i].as_str());
        }
        i += 1;
    }
    assert(all.take(args@.len() - 2) =~= all);
    Plan { list: args[1].clone(), nightly, command }
}

// ---- the flags

/// The words of the flags of the keys that are in the registry.
pub open spec fn library_words(keys: Seq<Seq<char>>, m: Map<Seq<char>, EntryView>) -> Seq<
    Seq<char>,
>
    decreases keys.len(),
{
    if keys.len() == 0 {
        seq![]
    } else {
        let front = library_words(keys.drop_last(), m);
        if m.contains_key(keys.last()) {
            front + text::words(m[keys.last()].flags)
        } else {
            front
        }
    }
}

/// The messages for the keys that are not in the registry.
pub open spec fn missing_lines(keys: Seq<Seq<char>>, m: Map<Seq<char>, EntryView>) -> Seq<LineView>
    decreases keys.len(),
{
    if keys.len() == 0 {
        seq![]
    } else {
        let front = missing_lines(keys.drop_last(), m);
        if m.contains_key(keys.last()) {
            front
        } else {
            front.push(upkeep::skipped(keys.last()))
        }
    }
}

/// The flags that the compiler gets: those of the settings, then those of the
/// libraries, with one space between any two words.
pub open spec fn rustflags(
    settings: Seq<char>,
    keys: Seq<Seq<char>>,
    m: Map<Seq<char>, EntryView>,
) -> Seq<char> {
    compose::joined(text::words(settings) + library_words(keys, m), " "@)
}

/// Adds the words of a text to a list.
pub fn add_words(v: &mut Vec<String>, s: &str)
    ensures
        text::texts(final(v)@) == text::texts(old(v)@) + text::words(s@),
{
    let source = text::chars_of(s);
    let ws = text::split_words(source.as_slice());
    let ghost before = text::texts(v@);
    let ghost all = text::words(s@);
    let mut i: usize = 0;
    assert(before + all.take(0) =~= before);
    while i < ws.len()
        invariant
            i <= ws@.len(),
            text::slices(ws@) == all,
            text::texts(v@) == before + all.take(i as int),
        decreases ws@.len() - i,
    {
        let w = text::string_of(ws[i]);
        assert((before + all.take(i as int)).push(all[i as int]) =~= before + all.take(i + 1));
        request::add_text(v, w.as_str());
        i += 1;
    }
    assert(all.take(ws@.len() as int) =~= all);
}

/// Adds the words of the flags of the keys that are in the registry. The
/// result is the messages for those that are not.
pub fn add_library_words(v: &mut Vec<String>, keys: &Vec<String>, registry: &Registry) -> (r: Vec<
    Line,
>)
    ensures
        text::texts(final(v)@) == text::texts(old(v)@) + library_words(
            text::texts(keys@),
            registry@,
        ),
        dialog::said(r@) == missing_lines(text::texts(keys@), registry@),
{
    let ghost before = text::texts(v@);
    let ghost all = text::texts(keys@);
    let mut r = dialog::say_nothing();
    let mut i: usize = 0;
    proof {
        assert(all.take(0) =~= Seq::<Seq<char>>::empty());
        assert(before + library_words(all.take(0), registry@) =~= before);
    }
    while i < keys.len()
        invariant
            i <= keys@.len(),
            all == text::texts(keys@),
            text::texts(v@) == before + library_words(all.take(i as int), registry@),
            dialog::said(r@) == missing_lines(all.take(i as int), registry@),
        decreases keys@.len() - i,
    {
        let key = keys[i].as_str();
        proof {
            assert(all.take(i + 1).drop_last() =~= all.take(i as int));
            assert(all.take(i + 1).last() == key@);
        }
        match registry.get(key) {
            Some(e) => {
                add_words(v, e.flags.as_str());
                assert(text::texts(v@) =~= before + library_words(all.take(i + 1), registry@));
            },
            None => {
                dialog::say_more(
                    &mut r,
                    Line::Warn(
                        compose::cat3(
                            "[rlib] Warning: '",
                            key,
                            "' not found in list.json — skipping.",
                        ),
                    ),
                );
            },
        }
        i += 1;
    }
    assert(all.take(keys@.len() as int) =~= all);
    r
}

// ---- the allocator

/// The shared library of an allocator; `None` for the one that the compiler
/// has of itself.
pub open spec fn allocator_library(allocator: Seq<char>) -> Option<Seq<char>> {
    if allocator == "mimalloc"@ {
        Some("libmimalloc.so"@)
    } else if allocator == "tcmalloc"@ {
        Some("libtcmalloc.so"@)
    } else {
        None
    }
}

/// The path that a line of the list of shared libraries gives for a library.
pub open spec fn path_in_line(line: Seq<char>, name: Seq<char>) -> Option<Seq<char>> {
    if search::occurs(line, name) && search::occurs(line, "=>"@) {
        Some(text::trimmed(line.skip(search::last_at(line, "=>"@) + 2)))
    } else {
        None
    }
}

/// The paths that the lines of the list of shared libraries give for a library.
pub open spec fn paths_in(lines: Seq<Seq<char>>, name: Seq<char>) -> Seq<Seq<char>>
    decreases lines.len(),
{
    if lines.len() == 0 {
        seq![]
    } else {
        let front = paths_in(lines.drop_last(), name);
        match path_in_line(lines.last(), name) {
            Some(p) => front.push(p),
            None => front,
        }
    }
}

/// The paths at which a shared library may be found, given what the list of
/// shared libraries says.
pub open spec fn candidates(output: Result<OutputView, Seq<char>>, name: Seq<char>) -> Seq<
    Seq<char>,
> {
    match output {
        Ok(o) => if dialog::succeeded(o.code) {
            paths_in(text::lines_of(o.out), name)
        } else {
            seq![]
        },
        Err(_) => seq![],
    }
}

/// The paths at which a shared library may be found, given what the list of
/// shared libraries says.
pub fn find_shared_lib(output: &Result<Output, String>, name: &str) -> (r: Vec<String>)
    ensures
        text::texts(r@) == candidates(dialog::output_result(*output), name@),
{
    let mut r: Vec<String> = Vec::new();
    assert(text::texts(r@) =~= Seq::<Seq<char>>::empty());
    match output {
        Err(_) => r,
        Ok(o) => {
            if !dialog::is_success(o.code) {
                return r;
            }
            let source = text::chars_of(o.out.as_str());
            let lines = text::split_lines(source.as_slice());
            let ghost all = text::slices(lines@);
            let mut i: usize = 0;
            assert(all.take(0) =~= Seq::<Seq<char>>::empty());
            proof {
                reveal_strlit("=>");
            }
            while i < lines.len()
                invariant
                    i <= lines@.len(),
                    all == text::slices(lines@),
                    "=>"@.len() == 2,
                    text::texts(r@) == paths_in(all.take(i as int), name@),
                decreases lines@.len() - i,
            {
                let line = lines[i];
                let n: usize = line.len();
                proof {
                    assert(all.take(i + 1).drop_last() =~= all.take(i as int));
                    assert(all.take(i + 1).last() == line@);
                }
                if search::contains(line, name) {
                    if let Some(k) = search::rfind(line, "=>") {
                        assert(line@.subrange(k + 2, n as int) =~= line@.skip(k + 2));
                        let p = text::string_of(text::trim(slice_subrange(line, k + 2, n)));
                        request::add_text(&mut r, p.as_str());
                    }
                }
                i += 1;
            }
            assert(all.take(lines@.len() as int) =~= all);
            r
        },
    }
}

// ---- the states

/// The state of a run.
#[derive(Debug)]
pub enum Run {
    Stopped(i32),
    ReadList(Plan),
    LoadIndex { plan: Plan, keys: Vec<String> },
    ReadConfig { plan: Plan, keys: Vec<String>, index: Registry },
    ProbeLinker { plan: Plan, keys: Vec<String>, index: Registry, settings: RlibConfig },
    FindLibrary { program: Program, library: String },
    CheckLibrary { program: Program, library: String, paths: Vec<String>, at: usize },
    Launch(Program),
}

/// The texts of a `Run`.
pub enum RunView {
    Stopped(i32),
    ReadList(PlanView),
    LoadIndex { plan: PlanView, keys: Seq<Seq<char>> },
    ReadConfig { plan: PlanView, keys: Seq<Seq<char>>, index: Map<Seq<char>, EntryView> },
    ProbeLinker {
        plan: PlanView,
        keys: Seq<Seq<char>>,
        index: Map<Seq<char>, EntryView>,
        settings: ConfigView,
    },
    FindLibrary { program: ProgramView, library: Seq<char> },
    CheckLibrary { program: ProgramView, library: Seq<char>, paths: Seq<Seq<char>>, at: int },
    Launch(ProgramView),
}

impl View for Run {
    type V = RunView;

    open spec fn view(&self) -> RunView {
        match self {
            Run::Stopped(c) => RunView::Stopped(*c),
            Run::ReadList(plan) => RunView::ReadList(plan@),
            Run::LoadIndex { plan, keys } => RunView::LoadIndex {
                plan: plan@,
                keys: text::texts(keys@),
            },
            Run::ReadConfig { plan, keys, index } => RunView::ReadConfig {
                plan: plan@,
                keys: text::texts(keys@),
                index: index@,
            },
            Run::ProbeLinker { plan, keys, index, settings } => RunView::ProbeLinker {
                plan: plan@,
                keys: text::texts(keys@),
                index: index@,
                settings: settings@,
            },
            Run::FindLibrary { program, library } => RunView::FindLibrary {
                program: program@,
                library: library@,
            },
            Run::CheckLibrary { program, library, paths, at } => RunView::CheckLibrary {
                program: program@,
                library: library@,
                paths: text::texts(paths@),
                at: *at as int,
            },
            Run::Launch(program) => RunView::Launch(program@),
        }
    }
}

/// The program that lists the shared libraries of the system.
pub open spec fn list_libraries() -> ProgramView {
    dialog::plain_program("ldconfig"@, seq!["-p"@], None)
}

/// The question that a state asks.
pub open spec fn question(s: RunView) -> AskView {
    match s {
        RunView::Stopped(c) => AskView::Exit(c),
        RunView::ReadList(plan) => AskView::Read(PlaceView::Path(plan.list)),
        RunView::LoadIndex { .. } => AskView::LoadRegistry,
        RunView::ReadConfig { .. } => AskView::Read(PlaceView::Path("rlib.config"@)),
        RunView::ProbeLinker { settings, .. } => AskView::Probe(
            (config::linker_entry(settings.linker)->0).0,
        ),
        RunView::FindLibrary { .. } => AskView::Capture { program: list_libraries(), pause: false },
        RunView::CheckLibrary { paths, at, .. } => AskView::Exists(PlaceView::Path(paths[at])),
        RunView::Launch(program) => AskView::Launch(program),
    }
}

/// Whether a state is one that a run can be in: there is a command, the linker is
/// a known one, and there is a path to check.
pub open spec fn is_sound(s: RunView) -> bool {
    match s {
        RunView::LoadIndex { plan, .. } => plan.command.len() > 0,
        RunView::ReadConfig { plan, .. } => plan.command.len() > 0,
        RunView::ProbeLinker { plan, settings, .. } => plan.command.len() > 0 && config::is_valid(
            settings,
        ),
        RunView::CheckLibrary { paths, at, .. } => 0 <= at < paths.len(),
        _ => true,
    }
}

// ---- what follows an answer

/// The message that tells how a command is run.
pub open spec fn usage() -> LineView {
    LineView::Warn("[rlib] Usage: rlib <rlib.list> <cargo sub-command...> [nightly]"@)
}

/// The first state of a run, and what is said at once.
pub open spec fn first(args: Seq<Seq<char>>) -> (RunView, Seq<LineView>) {
    if args.len() < 3 {
        (RunView::Stopped(1), seq![usage()])
    } else {
        (RunView::ReadList(plan_of(args)), seq![])
    }
}

/// After the list file has been read. It must have a key, and there must be
/// something to run besides the word `nightly`.
pub open spec fn after_read_list(plan: PlanView, content: Result<Seq<char>, Seq<char>>) -> (
    RunView,
    Seq<LineView>,
) {
    match content {
        Err(e) => (
            RunView::Stopped(1),
            seq![
                LineView::Warn(
                    "[rlib] Failed to read list file '"@ + plan.list + "': "@ + e,
                ),
            ],
        ),
        Ok(s) => if list::active(s).len() == 0 {
            (
                RunView::Stopped(1),
                seq![LineView::Warn("[rlib] The list file has no active entries."@)],
            )
        } else if plan.command.len() == 0 {
            (RunView::Stopped(1), seq![usage()])
        } else {
            (RunView::LoadIndex { plan, keys: list::active(s) }, seq![])
        },
    }
}

/// The settings of a run: those of the settings file, but Cranelift only with a
/// nightly compiler.
pub open spec fn effective(c: ConfigView, nightly: bool) -> ConfigView {
    ConfigView {
        backend: if !nightly && c.backend == "cranelift"@ {
            "llvm"@
        } else {
            c.backend
        },
        nightly,
        ..c
    }
}

/// The messages for entries of the settings file that cannot be used.
pub open spec fn ignored_lines(bad: Seq<Seq<char>>) -> Seq<LineView> {
    bad.map_values(
        |l: Seq<char>| LineView::Warn("[rlib] Unknown or invalid config entry ignored: "@ + l),
    )
}

/// After the settings file has been read.
pub open spec fn after_read_config(
    plan: PlanView,
    keys: Seq<Seq<char>>,
    index: Map<Seq<char>, EntryView>,
    content: Result<Seq<char>, Seq<char>>,
) -> (RunView, Seq<LineView>) {
    let lines = config::config_lines(
        match content {
            Ok(s) => Some(s),
            Err(_) => None,
        },
    );
    (
        RunView::ProbeLinker {
            plan,
            keys,
            index,
            settings: effective(config::after_lines(lines), plan.nightly),
        },
        ignored_lines(config::bad_lines(lines)),
    )
}

/// The program that is run, before the allocator is chosen.
pub open spec fn program_for(plan: PlanView, settings: ConfigView, flags: Seq<char>) -> ProgramView
    recommends
        plan.command.len() > 0,
{
    let p = dialog::with_variable(
        dialog::with_variable(
            dialog::plain_program(plan.command[0], plan.command.skip(1), None),
            "RUSTFLAGS"@,
            flags,
        ),
        "CARGO_PROFILE_DEV_BUILD_OVERRIDE_OPT_LEVEL"@,
        "3"@,
    );
    if settings.nightly && settings.backend == "cranelift"@ {
        dialog::with_variable(p, "CARGO_CACHE_RUSTC_INFO"@, "1"@)
    } else {
        p
    }
}

/// The two lines that tell what is run.
pub open spec fn banner(keys: Seq<Seq<char>>, settings: ConfigView) -> Seq<LineView> {
    seq![
        LineView::Out("[rlib] Passing RUSTFLAGS for: "@ + compose::joined(keys, ", "@)),
        LineView::Out(
            "[rlib] Backend: "@ + settings.backend + ", Linker: "@ + settings.linker
                + ", Allocator: "@ + settings.allocator + ", Channel: "@ + (
            if settings.nightly {
                "nightly"@
            } else {
                "stable"@
            }),
        ),
    ]
}

/// The message that a linker is not installed.
pub open spec fn linker_lines(linker: Seq<char>, installed: bool) -> Seq<LineView> {
    if installed {
        seq![]
    } else {
        seq![
            LineView::Warn(
                "[rlib] Linker '"@ + linker + "' not found, skipping linker flag."@,
            ),
        ]
    }
}

/// After the question whether the linker is installed.
pub open spec fn after_probe(
    plan: PlanView,
    keys: Seq<Seq<char>>,
    index: Map<Seq<char>, EntryView>,
    settings: ConfigView,
    installed: bool,
) -> (RunView, Seq<LineView>) {
    let flags = rustflags(
        config::config_flags(settings, config::linker_choice(settings.linker, installed)),
        keys,
        index,
    );
    let program = program_for(plan, settings, flags);
    (
        match allocator_library(settings.allocator) {
            Some(library) => RunView::FindLibrary { program, library },
            None => RunView::Launch(program),
        },
        linker_lines(settings.linker, installed) + missing_lines(keys, index) + banner(
            keys,
            settings,
        ),
    )
}

/// The message that a shared library cannot be found.
pub open spec fn no_library(library: Seq<char>) -> Seq<LineView> {
    seq![LineView::Warn("[rlib] "@ + library + " not found, using default allocator."@)]
}

/// After the shared libraries of the system have been listed.
pub open spec fn after_find_library(
    program: ProgramView,
    library: Seq<char>,
    output: Result<OutputView, Seq<char>>,
) -> (RunView, Seq<LineView>) {
    let paths = candidates(output, library);
    if paths.len() == 0 {
        (RunView::Launch(program), no_library(library))
    } else {
        (RunView::CheckLibrary { program, library, paths, at: 0 }, seq![])
    }
}

/// After the question whether there is a shared library at a path: the first
/// that is there is used.
pub open spec fn after_check_library(
    program: ProgramView,
    library: Seq<char>,
    paths: Seq<Seq<char>>,
    at: int,
    there: bool,
) -> (RunView, Seq<LineView>) {
    if there {
        (RunView::Launch(dialog::with_variable(program, "LD_PRELOAD"@, paths[at])), seq![])
    } else if at + 1 < paths.len() {
        (RunView::CheckLibrary { program, library, paths, at: at + 1 }, seq![])
    } else {
        (RunView::Launch(program), no_library(library))
    }
}

/// After the program has ended: its exit code is passed on.
pub open spec fn after_launch(program: ProgramView, end: Result<Option<i32>, Seq<char>>) -> (
    RunView,
    Seq<LineView>,
) {
    match end {
        Err(e) => (
            RunView::Stopped(1),
            seq![LineView::Warn("[rlib] Failed to run '"@ + program.name + "': "@ + e)],
        ),
        Ok(code) => (RunView::Stopped(dialog::passed_on(code)), seq![]),
    }
}

/// The state that an answer leads to, and what is said on the way. An answer
/// that does not fit the question leaves the state as it is.
pub open spec fn next(s: RunView, a: AnswerView) -> (RunView, Seq<LineView>) {
    match (s, a) {
        (RunView::ReadList(plan), AnswerView::Text(content)) => after_read_list(plan, content),
        (RunView::LoadIndex { plan, keys }, AnswerView::Known(index)) => (
            RunView::ReadConfig { plan, keys, index },
            seq![],
        ),
        (RunView::ReadConfig { plan, keys, index }, AnswerView::Text(content)) => after_read_config(
            plan,
            keys,
            index,
            content,
        ),
        (
            RunView::ProbeLinker { plan, keys, index, settings },
            AnswerView::Flag(installed),
        ) => after_probe(plan, keys, index, settings, installed),
        (
            RunView::FindLibrary { program, library },
            AnswerView::Captured(output),
        ) => after_find_library(program, library, output),
        (
            RunView::CheckLibrary { program, library, paths, at },
            AnswerView::Flag(there),
        ) => after_check_library(program, library, paths, at, there),
        (RunView::Launch(program), AnswerView::Exited(end)) => after_launch(program, end),
        _ => (s, seq![]),
    }
}

// ---- the dialog

fn stop(message: String) -> (r: (Run, Vec<Line>))
    ensures
        r.0@ == RunView::Stopped(1),
        dialog::said(r.1@) == seq![LineView::Warn(message@)],
{
    (Run::Stopped(1), dialog::say(Line::Warn(message)))
}

fn go_on(s: Run) -> (r: (Run, Vec<Line>))
    ensures
        r.0@ == s@,
        dialog::said(r.1@) == Seq::<LineView>::empty(),
{
    (s, dialog::say_nothing())
}

fn stop_with_usage() -> (r: (Run, Vec<Line>))
    ensures
        r.0@ == RunView::Stopped(1),
        dialog::said(r.1@) == seq![usage()],
{
    stop("[rlib] Usage: rlib <rlib.list> <cargo sub-command...> [nightly]".to_owned())
}

fn list_read(plan: Plan, content: Result<String, String>) -> (n: (Run, Vec<Line>))
    ensures
        (n.0@, dialog::said(n.1@)) == after_read_list(plan@, dialog::text_result(content)),
{
    match content {
        Err(e) => stop(
            compose::cat4(
                "[rlib] Failed to read list file '",
                plan.list.as_str(),
                "': ",
                e.as_str(),
            ),
        ),
        Ok(s) => {
            let keys = list::active_lines(s.as_str());
            assert(text::texts(keys@).len() == keys@.len());
            assert(plan@.command.len() == plan.command@.len());
            if keys.len() == 0 {
                stop("[rlib] The list file has no active entries.".to_owned())
            } else if plan.command.len() == 0 {
                stop_with_usage()
            } else {
                go_on(Run::LoadIndex { plan, keys })
            }
        },
    }
}

fn say_ignored(bad: &Vec<String>) -> (r: Vec<Line>)
    ensures
        dialog::said(r@) == ignored_lines(text::texts(bad@)),
{
    let ghost all = ignored_lines(text::texts(bad@));
    let mut r = dialog::say_nothing();
    let mut i: usize = 0;
    assert(all.take(0) =~= Seq::<LineView>::empty());
    while i < bad.len()
        invariant
            i <= bad@.len(),
            all == ignored_lines(text::texts(bad@)),
            dialog::said(r@) == all.take(i as int),
        decreases bad@.len() - i,
    {
        let l = Line::Warn(
            compose::cat2(
                "[rlib] Unknown or invalid config entry ignored: ",
                bad[i].as_str(),
            ),
        );
        assert(all[i as int] == l@);
        assert(all.take(i + 1) =~= all.take(i as int).push(l@));
        dialog::say_more(&mut r, l);
        i += 1;
    }
    assert(all.take(bad@.len() as int) =~= all);
    r
}

fn make_effective(config: RlibConfig, nightly: bool) -> (r: RlibConfig)
    ensures
        r@ == effective(config@, nightly),
{
    let backend = if !nightly && text::same_str(config.backend.as_str(), "cranelift") {
        "llvm".to_owned()
    } else {
        config.backend
    };
    RlibConfig { backend, linker: config.linker, allocator: config.allocator, nightly }
}

fn config_read(
    plan: Plan,
    keys: Vec<String>,
    index: Registry,
    content: Result<String, String>,
) -> (n: (Run, Vec<Line>))
    ensures
        (n.0@, dialog::said(n.1@)) == after_read_config(
            plan@,
            text::texts(keys@),
            index@,
            dialog::text_result(content),
        ),
{
    let loaded = match &content {
        Ok(s) => config::load_rlib_config(Some(s.as_str())),
        Err(_) => config::load_rlib_config(None),
    };
    let lines = say_ignored(&loaded.ignored);
    let settings = make_effective(loaded.config, plan.nightly);
    (Run::ProbeLinker { plan, keys, index, settings }, lines)
}

fn make_program(plan: Plan, settings: &RlibConfig, flags: &str) -> (r: Program)
    requires
        plan@.command.len() > 0,
    ensures
        r@ == program_for(plan@, settings@, flags@),
{
    let mut args = plan.command;
    let ghost all = text::texts(args@);
    let name = args.remove(0);
    assert(text::texts(args@) =~= all.skip(1));
    let mut p = dialog::program(name.as_str(), args, None);
    dialog::set_variable(&mut p, "RUSTFLAGS", flags);
    dialog::set_variable(&mut p, "CARGO_PROFILE_DEV_BUILD_OVERRIDE_OPT_LEVEL", "3");
    if settings.nightly && text::same_str(settings.backend.as_str(), "cranelift") {
        dialog::set_variable(&mut p, "CARGO_CACHE_RUSTC_INFO", "1");
    }
    p
}

fn find_allocator_library(allocator: &str) -> (r: Option<String>)
    ensures
        request::opt_text(r) == allocator_library(allocator@),
{
    if text::same_str(allocator, "mimalloc") {
        Some("libmimalloc.so".to_owned())
    } else if text::same_str(allocator, "tcmalloc") {
        Some("libtcmalloc.so".to_owned())
    } else {
        None
    }
}

fn say_banner(lines: &mut Vec<Line>, keys: &Vec<String>, settings: &RlibConfig)
    ensures
        dialog::said(final(lines)@) == dialog::said(old(lines)@) + banner(
            text::texts(keys@),
            settings@,
        ),
{
    let names = compose::join(keys, ", ");
    dialog::say_more(
        lines,
        Line::Out(compose::cat2("[rlib] Passing RUSTFLAGS for: ", names.as_str())),
    );
    let head = compose::cat4(
        "[rlib] Backend: ",
        settings.backend.as_str(),
        ", Linker: ",
        settings.linker.as_str(),
    );
    let channel = if settings.nightly {
        "nightly"
    } else {
        "stable"
    };
    dialog::say_more(
        lines,
        Line::Out(
            compose::cat5(
                head.as_str(),
                ", Allocator: ",
                settings.allocator.as_str(),
                ", Channel: ",
                channel,
            ),
        ),
    );
    assert(dialog::said(lines@) =~= dialog::said(old(lines)@) + banner(
        text::texts(keys@),
        settings@,
    ));
}

fn linker_probed(
    plan: Plan,
    keys: Vec<String>,
    index: Registry,
    settings: RlibConfig,
    installed: bool,
) -> (n: (Run, Vec<Line>))
    requires
        plan@.command.len() > 0,
    ensures
        (n.0@, dialog::said(n.1@)) == after_probe(
            plan@,
            text::texts(keys@),
            index@,
            settings@,
            installed,
        ),
{
    let mut lines = if installed {
        dialog::say_nothing()
    } else {
        dialog::say(
            Line::Warn(
                compose::cat3(
                    "[rlib] Linker '",
                    settings.linker.as_str(),
                    "' not found, skipping linker flag.",
                ),
            ),
        )
    };
    let linker = config::resolve_linker_flags(settings.linker.as_str(), installed);
    let own = config::build_config_flags(&settings, linker);
    let mut parts: Vec<String> = Vec::new();
    assert(text::texts(parts@) =~= Seq::<Seq<char>>::empty());
    add_words(&mut parts, own.as_str());
    let mut missing = add_library_words(&mut parts, &keys, &index);
    let ghost first = dialog::said(lines@);
    let ghost second = dialog::said(missing@);
    lines.append(&mut missing);
    assert(dialog::said(lines@) =~= first + second);
    let flags = compose::join(&parts, " ");
    proof {
        assert(text::texts(parts@) =~= text::words(own@) + library_words(
            text::texts(keys@),
            index@,
        ));
    }
    say_banner(&mut lines, &keys, &settings);
    let program = make_program(plan, &settings, flags.as_str());
    match find_allocator_library(settings.allocator.as_str()) {
        Some(library) => (Run::FindLibrary { program, library }, lines),
        None => (Run::Launch(program), lines),
    }
}

fn say_no_library(library: &str) -> (r: Vec<Line>)
    ensures
        dialog::said(r@) == no_library(library@),
{
    dialog::say(
        Line::Warn(compose::cat3("[rlib] ", library, " not found, using default allocator.")),
    )
}

fn libraries_listed(program: Program, library: String, output: Result<Output, String>) -> (n: (
    Run,
    Vec<Line>,
))
    ensures
        (n.0@, dialog::said(n.1@)) == after_find_library(
            program@,
            library@,
            dialog::output_result(output),
        ),
{
    let paths = find_shared_lib(&output, library.as_str());
    assert(text::texts(paths@).len() == paths@.len());
    if paths.len() == 0 {
        (Run::Launch(program), say_no_library(library.as_str()))
    } else {
        go_on(Run::CheckLibrary { program, library, paths, at: 0 })
    }
}

fn library_checked(
    program: Program,
    library: String,
    paths: Vec<String>,
    at: usize,
    there: bool,
) -> (n: (Run, Vec<Line>))
    requires
        at < paths@.len(),
    ensures
        (n.0@, dialog::said(n.1@)) == after_check_library(
            program@,
            library@,
            text::texts(paths@),
            at as int,
            there,
        ),
{
    let count: usize = paths.len();
    if there {
        let mut p = program;
        dialog::set_variable(&mut p, "LD_PRELOAD", paths[at].as_str());
        go_on(Run::Launch(p))
    } else if at + 1 < count {
        go_on(Run::CheckLibrary { program, library, paths, at: at + 1 })
    } else {
        (Run::Launch(program), say_no_library(library.as_str()))
    }
}

fn launched(program: Program, end: Result<Option<i32>, String>) -> (n: (Run, Vec<Line>))
    ensures
        (n.0@, dialog::said(n.1@)) == after_launch(program@, dialog::exit_result(end)),
{
    match end {
        Err(e) => stop(
            compose::cat4("[rlib] Failed to run '", program.name.as_str(), "': ", e.as_str()),
        ),
        Ok(code) => go_on(Run::Stopped(dialog::pass_on(code))),
    }
}

/// The first state of a run, and what is said at once.
pub fn cmd_run(args: &Vec<String>) -> (n: (Run, Vec<Line>))
    ensures
        (n.0@, dialog::said(n.1@)) == first(text::texts(args@)),
        is_sound(n.0@),
{
    if args.len() < 3 {
        stop_with_usage()
    } else {
        go_on(Run::ReadList(read_plan(args)))
    }
}

impl Run {
    /// The question that the state asks.
    pub fn ask(&self) -> (r: Ask)
        requires
            is_sound(self@),
        ensures
            r@ == question(self@),
    {
        match self {
            Run::Stopped(c) => Ask::Exit(*c),
            Run::ReadList(plan) => Ask::Read(Place::Path(plan.list.clone())),
            Run::LoadIndex { .. } => Ask::LoadRegistry,
            Run::ReadConfig { .. } => Ask::Read(Place::Path("rlib.config".to_owned())),
            Run::ProbeLinker { settings, .. } => {
                let name = config::linker_program(settings.linker.as_str());
                Ask::Probe(name.unwrap().to_owned())
            },
            Run::FindLibrary { .. } => {
                let mut args: Vec<String> = Vec::new();
                request::add_text(&mut args, "-p");
                assert(text::texts(args@) =~= seq!["-p"@]);
                Ask::Capture { program: dialog::program("ldconfig", args, None), pause: false }
            },
            Run::CheckLibrary { paths, at, .. } => Ask::Exists(Place::Path(paths[*at].clone())),
            Run::Launch(program) => Ask::Launch(program.copy()),
        }
    }

    /// The state that an answer leads to, and what is said on the way.
    pub fn advance(self, answer: Answer) -> (n: (Run, Vec<Line>))
        requires
            is_sound(self@),
        ensures
            (n.0@, dialog::said(n.1@)) == next(self@, answer@),
            is_sound(n.0@),
    {
        proof {
            next_is_sound(self@, answer@);
        }
        match answer {
            Answer::Text(content) => match self {
                Run::ReadList(plan) => list_read(plan, content),
                Run::ReadConfig { plan, keys, index } => config_read(plan, keys, index, content),
                s => go_on(s),
            },
            Answer::Known(index) => match self {
                Run::LoadIndex { plan, keys } => go_on(Run::ReadConfig { plan, keys, index }),
                s => go_on(s),
            },
            Answer::Flag(b) => match self {
                Run::ProbeLinker { plan, keys, index, settings } => linker_probed(
                    plan,
                    keys,
                    index,
                    settings,
                    b,
                ),
                Run::CheckLibrary { program, library, paths, at } => library_checked(
                    program,
                    library,
                    paths,
                    at,
                    b,
                ),
                s => go_on(s),
            },
            Answer::Captured(output) => match self {
                Run::FindLibrary { program, library } => libraries_listed(program, library, output),
                s => go_on(s),
            },
            Answer::Exited(end) => match self {
                Run::Launch(program) => launched(program, end),
                s => go_on(s),
            },
            _ => go_on(self),
        }
    }
}

// ---- laws

/// Whatever the answer, a run is led to a state that it can be in. So the linker
/// that is looked for is always a known one.
pub proof fn next_is_sound(s: RunView, a: AnswerView)
    requires
        is_sound(s),
    ensures
        is_sound(next(s, a).0),
{
    if let (RunView::ReadConfig { plan, keys, index }, AnswerView::Text(content)) = (s, a) {
        config::settings_are_valid(
            config::config_lines(
                match content {
                    Ok(t) => Some(t),
                    Err(_) => None,
                },
            ),
        );
    }
}

} // verus!
