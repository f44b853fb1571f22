//! What an evaluation does, step by step.

use crate::compose;
use crate::comptime;
use crate::comptime::Pass;
use crate::comptime_laws;
use crate::dialog::{
    AnswerView, AskView, CompilationView, LineView, OutputView, PlaceView, ProgramView,
    SourceEntryView,
};
use crate::help;
use crate::list;
use crate::registry::EntryView;
use crate::run;
use crate::testing;
use crate::testing::{BenchView, JobView, Kind, TestingView};
use crate::text;
use vstd::prelude::*;

verus! {

// ---- the command line

/// A command line that is too short, or that asks for help, is answered with the help;
/// `init config` writes the file of settings; with anything else the list file is read.
pub proof fn an_evaluation_begins_with_its_list(
    args: Seq<Seq<char>>,
    windows: bool,
    done: Result<(), Seq<char>>,
)
    ensures
        ({
            let n = testing::first(args, windows);
            let q = testing::question(n.0);
            let after = testing::next(n.0, AnswerView::Done(done));
            if args.len() < 3 {
                q == AskView::Exit(1) && n.1 == seq![LineView::Out(help::HELP@)]
            } else if args[2] == "-h"@ || args[2] == "--help"@ {
                q == AskView::Exit(0) && n.1 == seq![LineView::Out(help::HELP@)]
            } else if args[2] == "init"@ {
                if args.len() >= 4 && args[3] == "config"@ {
                    &&& q == (AskView::Write {
                        place: PlaceView::Path("comptime.config"@),
                        text: comptime::COMPTIME_TEMPLATE@,
                    })
                    &&& n.1.len() == 0
                    &&& testing::question(after.0) == AskView::Exit(0)
                    &&& after.1.len() == 0
                } else {
                    q == AskView::Exit(1) && n.1.len() == 0
                }
            } else {
                q == AskView::Read(PlaceView::Path(args[1])) && n.1.len() == 0 && n.0
                    == TestingView::ReadFlags(testing::job_of(args, windows))
            }
        }),
{
}

/// A job has the list file and the command of the command line; what follows the
/// command is passed on, but for the words that are about the evaluation.
pub proof fn a_job_is_what_is_asked_for(args: Seq<Seq<char>>, windows: bool)
    requires
        args.len() >= 3,
    ensures
        ({
            let job = testing::job_of(args, windows);
            let verb = args[2] == "check"@ || args[2] == "run"@ || args[2] == "build"@;
            let nested = args.len() >= 5 && args[3] == "nested"@ && args[4] == "raw"@;
            &&& job.list == args[1]
            &&& job.verb == args[2]
            &&& job.windows == windows
            &&& job.flags.len() == 0
            &&& job.cargo <==> exists|i: int| 0 <= i < args.len() && args[i] == "cargo"@
            &&& job.kind == Kind::Script <==> !verb
            &&& job.kind == Kind::Nested <==> verb && nested
            &&& job.kind == Kind::Plain <==> verb && !nested
            &&& verb && nested ==> job.rest == testing::passed_args(args.skip(5))
            &&& !(verb && nested) ==> job.rest == testing::passed_args(args.skip(3))
        }),
{
}

/// Every argument is passed on in its place, but for `nightly` and `cargo`.
pub proof fn an_argument_is_passed_on(args: Seq<Seq<char>>, a: Seq<char>)
    ensures
        testing::passed_args(Seq::<Seq<char>>::empty()) == Seq::<Seq<char>>::empty(),
        a == "nightly"@ || a == "cargo"@ ==> testing::passed_args(args.push(a))
            == testing::passed_args(args),
        a != "nightly"@ && a != "cargo"@ ==> testing::passed_args(args.push(a))
            == testing::passed_args(args).push(a),
{
    reveal(Seq::filter);
    assert(args.push(a).drop_last() =~= args);
}

// ---- the flags and the sources

/// The words of the libraries of a list file, none where it could not be read.
pub open spec fn words_of(
    content: Result<Seq<char>, Seq<char>>,
    m: Map<Seq<char>, EntryView>,
) -> Seq<Seq<char>> {
    match content {
        Ok(t) => run::library_words(list::active(t), m),
        Err(_) => seq![],
    }
}

/// The flags of a job are the words of the libraries of its list file; then the
/// sources are gone through from `src`.
pub proof fn a_job_gets_its_flags(
    job: JobView,
    content: Result<Seq<char>, Seq<char>>,
    m: Map<Seq<char>, EntryView>,
)
    ensures
        ({
            let n1 = testing::next(TestingView::ReadFlags(job), AnswerView::Text(content));
            let n2 = if content is Ok {
                testing::next(n1.0, AnswerView::Known(m))
            } else {
                n1
            };
            &&& testing::question(TestingView::ReadFlags(job)) == AskView::Read(
                PlaceView::Path(job.list),
            )
            &&& content is Ok ==> testing::question(n1.0) == AskView::LoadRegistry
            &&& n1.1.len() == 0
            &&& n2.1.len() == 0
            &&& testing::question(n2.0) == AskView::Scan("src"@)
            &&& n2.0 == (TestingView::Scan {
                job: JobView { flags: compose::joined(words_of(content, m), " "@), ..job },
                stack: seq![],
                at: "src"@,
                latest: 0,
            })
        }),
{
}

/// The sources are gone through directory by directory, the one that was found last
/// first, until none is left; what cannot be read is passed over.
pub proof fn directories_are_gone_through(
    job: JobView,
    stack: Seq<Seq<char>>,
    at: Seq<char>,
    latest: u64,
    entries: Option<Seq<SourceEntryView>>,
)
    ensures
        ({
            let s = TestingView::Scan { job, stack, at, latest };
            let n = testing::next(s, AnswerView::Scanned(entries));
            let all = match entries {
                Some(v) => stack + comptime::dirs_among(v),
                None => stack,
            };
            let found = match entries {
                Some(v) => comptime::latest_among(latest, v),
                None => latest,
            };
            &&& testing::question(s) == AskView::Scan(at)
            &&& n.1.len() == 0
            &&& all.len() == 0 ==> testing::question(n.0) == AskView::Read(
                PlaceView::Path("target/.comptime_last_test"@),
            ) && n.0 == (TestingView::ReadStamp { job, latest: found })
            &&& all.len() > 0 ==> n.0 == (TestingView::Scan {
                job,
                stack: all.take(all.len() - 1),
                at: all[all.len() - 1],
                latest: found,
            })
        }),
{
}

// ---- whether there is an evaluation, and with what

/// The question with which an evaluation begins: `cargo` compiles the tests before a
/// script and where it is asked for; else the list file is read for the compiler.
pub open spec fn evaluation_begins(job: JobView) -> AskView {
    if job.kind == Kind::Script || (job.cargo && job.kind == Kind::Plain) {
        AskView::Compile(comptime::compile_tests(Pass::Single))
    } else if job.cargo {
        AskView::Compile(comptime::compile_tests(Pass::Raw))
    } else {
        AskView::Read(PlaceView::Path(job.list))
    }
}

/// The question with which what follows the evaluation begins.
pub open spec fn rest_begins(job: JobView) -> AskView {
    if job.kind == Kind::Script {
        AskView::Exists(PlaceView::Path(job.verb))
    } else {
        AskView::FineClock
    }
}

/// There is an evaluation where a source file is newer than the last one, or where
/// there are no results; else what follows it comes at once.
pub proof fn an_evaluation_is_due_or_not(
    job: JobView,
    latest: u64,
    last: u64,
    content: Result<Seq<char>, Seq<char>>,
    has_results: bool,
)
    ensures
        ({
            let n1 = testing::next(
                TestingView::ReadStamp { job, latest },
                AnswerView::Text(content),
            );
            let stamp = comptime::stamp_in(content);
            let s = TestingView::FindResults { job, latest, last };
            let n2 = testing::next(s, AnswerView::Flag(has_results));
            &&& n1.1.len() == 0
            &&& latest > stamp ==> testing::question(n1.0) == evaluation_begins(job)
            &&& latest <= stamp ==> testing::question(n1.0) == AskView::HasEntries(
                PlaceView::Path("comptime"@),
            ) && n1.0 == (TestingView::FindResults { job, latest, last: stamp })
            &&& n2.1.len() == 0
            &&& latest > last || !has_results ==> testing::question(n2.0) == evaluation_begins(job)
            &&& latest <= last && has_results ==> testing::question(n2.0) == rest_begins(job)
        }),
{
}

// ---- with cargo


/// Where `cargo` has compiled the tests, the program that it named last is run; where
/// they do not compile, or there are none, `cargo` shows why, and that is the end.
pub proof fn cargo_gives_a_program(
    job: JobView,
    pass: Pass,
    c: CompilationView,
    e: Seq<char>,
    end: Result<Option<i32>, Seq<char>>,
)
    ensures
        ({
            let s = TestingView::CargoCompile { job, pass };
            let n = testing::next(s, AnswerView::Compiled(Ok(c)));
            let after = testing::next(n.0, AnswerView::Exited(end));
            let failed = testing::next(s, AnswerView::Compiled(Err(e)));
            let good = c.code == Some(0i32);
            let binary = comptime::last_executable(c.lines);
            &&& testing::question(s) == AskView::Compile(comptime::compile_tests(pass))
            &&& testing::question(failed.0) == AskView::Panic("Failed to compile tests"@)
            &&& failed.1.len() == 0
            &&& n.1.len() == 0
            &&& good && binary is Some ==> n.0 == (TestingView::CargoTry {
                job,
                pass,
                binary: binary->0,
                again: false,
            })
            &&& !good ==> testing::question(n.0) == AskView::Launch(comptime::show_errors(pass))
            &&& good && binary is None ==> testing::question(n.0) == AskView::Launch(
                comptime::show_tests(pass),
            )
            &&& !good || binary is None ==> testing::question(after.0) == AskView::Exit(1)
                && after.1.len() == 0
        }),
{
}

/// The tests are run as they are, after a pause where they are run again. What they
/// print decides, and on its own a pass that succeeds is done; of two passes the second
/// follows the first. A pass on its own that fails shows what the tests printed.
pub proof fn tests_of_cargo_are_run(
    job: JobView,
    pass: Pass,
    binary: Seq<char>,
    again: bool,
    o: OutputView,
    e: Seq<char>,
)
    ensures
        ({
            let s = TestingView::CargoTry { job, pass, binary, again };
            let n = testing::next(s, AnswerView::Captured(Ok(o)));
            let failed = testing::next(s, AnswerView::Captured(Err(e)));
            let program = ProgramView { name: binary, args: seq![], dir: None, env: seq![] };
            &&& testing::question(s) == (AskView::Capture { program, pause: again })
            &&& testing::question(failed.0) == AskView::Panic("Failed to execute test binary"@)
            &&& failed.1.len() == 0
            &&& if pass == Pass::Single && o.code == Some(0i32) {
                testing::question(n.0) == AskView::Clock && n.1.len() == 0
            } else if comptime::is_unsettled(pass, o) {
                testing::question(n.0) == (AskView::Capture { program, pause: true }) && n.1.len()
                    == 0
            } else if pass == Pass::Single {
                testing::question(n.0) == AskView::Exit(1) && n.1 == seq![
                    LineView::WarnText(o.out),
                    LineView::WarnText(o.err),
                ]
            } else if pass == Pass::Raw {
                testing::question(n.0) == AskView::Compile(comptime::compile_tests(Pass::Ready))
                    && n.1.len() == 0
            } else {
                testing::question(n.0) == AskView::Clock && n.1.len() == 0
            }
        }),
{
}

// ---- with the compiler

/// A program with these words at the end of its arguments.
pub open spec fn ends_with_words(ask: AskView, words: Seq<Seq<char>>) -> bool {
    match ask {
        AskView::Launch(p) => {
            &&& p.name == "rustc"@
            &&& p.args.len() >= words.len()
            &&& p.args.skip(p.args.len() - words.len()) == words
        },
        _ => false,
    }
}

/// The compiler is run with the words of the libraries of the list file at the end of
/// its arguments. Of two passes both are: the second follows the first with the same
/// words.
pub proof fn every_pass_gets_the_words_of_the_list(
    job: JobView,
    content: Result<Seq<char>, Seq<char>>,
    m: Map<Seq<char>, EntryView>,
    has_lib: bool,
    made: Result<(), Seq<char>>,
    home: Result<OutputView, Seq<char>>,
    o: OutputView,
)
    requires
        job.kind != Kind::Script,
        !job.cargo,
        job.kind == Kind::Nested ==> !comptime::is_unsettled(Pass::Raw, o),
        job.kind == Kind::Plain ==> !comptime::is_unsettled(Pass::Single, o),
    ensures
        ({
            let words = words_of(content, m);
            let exe = if job.windows {
                "target/debug/deps/comptime_test.exe"@
            } else {
                "target/debug/deps/comptime_test"@
            };
            let s0 = TestingView::BenchFlags(job);
            let s1 = testing::next(s0, AnswerView::Text(content)).0;
            let s2 = if content is Ok {
                testing::next(s1, AnswerView::Known(m)).0
            } else {
                s1
            };
            let s3 = testing::next(s2, AnswerView::Flag(has_lib)).0;
            let s4 = testing::next(s3, AnswerView::Done(made)).0;
            let s5 = testing::next(s4, AnswerView::Exited(Ok(Some(0)))).0;
            let s6 = testing::next(s5, AnswerView::Captured(home)).0;
            let s7 = testing::next(s6, AnswerView::Captured(Ok(o))).0;
            let s8 = testing::next(s7, AnswerView::Exited(Ok(Some(0)))).0;
            let first = if job.kind == Kind::Nested {
                Pass::Raw
            } else {
                Pass::Single
            };
            &&& testing::question(s0) == AskView::Read(PlaceView::Path(job.list))
            &&& content is Ok ==> testing::question(s1) == AskView::LoadRegistry
            &&& testing::question(s2) == AskView::Exists(PlaceView::Path("src/lib.rs"@))
            &&& testing::question(s3) == AskView::MakeDirs(PlaceView::Path("target/debug/deps"@))
            &&& ends_with_words(testing::question(s4), words)
            &&& testing::question(s4) == AskView::Launch(
                comptime::compiler(first, has_lib, job.windows, words),
            )
            &&& testing::question(s5) == (AskView::Capture {
                program: ProgramView {
                    name: "rustc"@,
                    args: seq!["--print"@, "sysroot"@],
                    dir: None,
                    env: seq![],
                },
                pause: false,
            })
            &&& testing::question(s6) == (AskView::Capture {
                program: ProgramView {
                    name: exe,
                    args: seq![],
                    dir: None,
                    env: seq![("LD_LIBRARY_PATH"@, comptime::library_path(home))],
                },
                pause: false,
            })
            &&& job.kind == Kind::Plain ==> testing::question(s7) == AskView::Clock
            &&& job.kind == Kind::Nested ==> {
                &&& ends_with_words(testing::question(s7), words)
                &&& testing::question(s7) == AskView::Launch(
                    comptime::compiler(Pass::Ready, has_lib, job.windows, words),
                )
                &&& testing::question(s8) == (AskView::Capture {
                    program: ProgramView { name: exe, args: seq![], dir: None, env: seq![] },
                    pause: false,
                })
            }
        }),
{
    let words = words_of(content, m);
    comptime_laws::the_compiler_gets_every_word(Pass::Raw, has_lib, job.windows, words);
    comptime_laws::the_compiler_gets_every_word(Pass::Single, has_lib, job.windows, words);
    comptime_laws::the_compiler_gets_every_word(Pass::Ready, has_lib, job.windows, words);
    assert(Seq::<(Seq<char>, Seq<char>)>::empty().push(
        ("LD_LIBRARY_PATH"@, comptime::library_path(home)),
    ) =~= seq![("LD_LIBRARY_PATH"@, comptime::library_path(home))]);
}

/// What the compiler works on in a state.
pub open spec fn bench_in(s: TestingView) -> Option<BenchView> {
    match s {
        TestingView::BenchFindLib(b) => Some(b),
        TestingView::BenchMakeDirs(b) => Some(b),
        TestingView::BenchCompile(b) => Some(b),
        TestingView::BenchFindPath(b) => Some(b),
        TestingView::BenchTry { bench, .. } => Some(bench),
        _ => None,
    }
}

/// Whatever the answers are, the words are kept from the registry to the last run of
/// the tests, and whenever the compiler is run its arguments end with them.
pub proof fn words_are_kept(s: TestingView, a: AnswerView)
    requires
        bench_in(s) is Some,
    ensures
        bench_in(testing::next(s, a).0) is Some ==> bench_in(testing::next(s, a).0)->0.words
            == bench_in(s)->0.words && bench_in(testing::next(s, a).0)->0.job == bench_in(s)->0.job,
        s is BenchCompile ==> ends_with_words(testing::question(s), bench_in(s)->0.words),
{
    let b = bench_in(s)->0;
    comptime_laws::the_compiler_gets_every_word(b.pass, b.has_lib, b.job.windows, b.words);
}

/// A compiler that cannot be run is a fault, and one that fails is the end; neither
/// the folder of the program nor the home of the compiler has to be there.
pub proof fn the_compiler_must_succeed(b: BenchView, end: Result<Option<i32>, Seq<char>>)
    ensures
        ({
            let n = testing::next(TestingView::BenchCompile(b), AnswerView::Exited(end));
            &&& n.1.len() == 0
            &&& end is Err ==> testing::question(n.0) == AskView::Panic(
                match b.pass {
                    Pass::Single => "Failed to compile comptime with rustc"@,
                    Pass::Raw => "Failed to compile raw binary"@,
                    Pass::Ready => "Failed to compile ready binary"@,
                },
            )
            &&& end is Ok && end->Ok_0 != Some(0i32) ==> testing::question(n.0) == AskView::Exit(1)
            &&& end is Ok && end->Ok_0 == Some(0i32) ==> testing::question(n.0) is Capture
                && bench_in(n.0) == Some(b)
        }),
{
}

/// The tests of the compiler are run until what they print is settled, with a pause
/// before each further time; their exit code does not matter.
pub proof fn tests_of_the_compiler_are_run(b: BenchView, again: bool, o: OutputView, e: Seq<char>)
    ensures
        ({
            let s = TestingView::BenchTry { bench: b, again };
            let n = testing::next(s, AnswerView::Captured(Ok(o)));
            let failed = testing::next(s, AnswerView::Captured(Err(e)));
            let program = ProgramView {
                name: if b.job.windows {
                    "target/debug/deps/comptime_test.exe"@
                } else {
                    "target/debug/deps/comptime_test"@
                },
                args: seq![],
                dir: None,
                env: if b.pass == Pass::Ready {
                    seq![]
                } else {
                    seq![("LD_LIBRARY_PATH"@, b.path)]
                },
            };
            &&& testing::question(s) == (AskView::Capture { program, pause: again })
            &&& n.1.len() == 0
            &&& failed.1.len() == 0
            &&& testing::question(failed.0) == AskView::Panic(
                if b.pass == Pass::Ready {
                    "Failed to execute ready test binary"@
                } else {
                    "Failed to execute test binary"@
                },
            )
            &&& comptime::is_unsettled(b.pass, o) ==> testing::question(n.0) == (AskView::Capture {
                program,
                pause: true,
            }) && bench_in(n.0) == Some(b)
            &&& !comptime::is_unsettled(b.pass, o) && b.pass == Pass::Raw ==> ends_with_words(
                testing::question(n.0),
                b.words,
            ) && testing::question(n.0) == AskView::Launch(
                comptime::compiler(Pass::Ready, b.has_lib, b.job.windows, b.words),
            )
            &&& !comptime::is_unsettled(b.pass, o) && b.pass != Pass::Raw ==> testing::question(n.0)
                == AskView::Clock
        }),
{
    comptime_laws::the_compiler_gets_every_word(Pass::Ready, b.has_lib, b.job.windows, b.words);
    assert(Seq::<(Seq<char>, Seq<char>)>::empty().push(("LD_LIBRARY_PATH"@, b.path)) =~= seq![
        ("LD_LIBRARY_PATH"@, b.path),
    ]);
}

// ---- after the evaluation

/// The time after an evaluation is written down in decimal, and what follows comes
/// whether it could be written or not.
pub proof fn the_time_is_written_down(
    job: JobView,
    now: u64,
    made: Result<(), Seq<char>>,
    written: Result<(), Seq<char>>,
)
    ensures
        ({
            let s0 = TestingView::AskTime(job);
            let n1 = testing::next(s0, AnswerView::Seconds(now));
            let n2 = testing::next(n1.0, AnswerView::Done(made));
            let n3 = testing::next(n2.0, AnswerView::Done(written));
            &&& testing::question(s0) == AskView::Clock
            &&& testing::question(n1.0) == AskView::MakeDirs(PlaceView::Path("target"@))
            &&& testing::question(n2.0) == (AskView::Write {
                place: PlaceView::Path("target/.comptime_last_test"@),
                text: compose::decimal(now as nat),
            })
            &&& testing::question(n3.0) == rest_begins(job)
            &&& n1.1.len() == 0 && n2.1.len() == 0 && n3.1.len() == 0
        }),
{
}

/// At the end `cargo` gets the command and what is passed on, the time as a mark, the
/// flags of the libraries and the level of optimisation; its exit code is that of the
/// whole, and 1 stands for one that there is not.
pub proof fn cargo_has_the_last_word(
    job: JobView,
    nonce: u128,
    end: Result<Option<i32>, Seq<char>>,
)
    ensures
        ({
            let s0 = TestingView::AskNonce(job);
            let n1 = testing::next(s0, AnswerView::Nanos(nonce));
            let n2 = testing::next(n1.0, AnswerView::Exited(end));
            &&& testing::question(s0) == AskView::FineClock
            &&& match testing::question(n1.0) {
                AskView::Launch(p) => {
                    &&& p.name == "cargo"@
                    &&& p.args == seq![job.verb] + job.rest
                    &&& p.dir is None
                    &&& p.env == seq![
                        ("COMPTIME_NONCE"@, compose::decimal(nonce as nat)),
                        ("RUSTFLAGS"@, job.flags),
                        ("CARGO_PROFILE_DEV_BUILD_OVERRIDE_OPT_LEVEL"@, "3"@),
                    ]
                },
                _ => false,
            }
            &&& n1.1.len() == 0 && n2.1.len() == 0
            &&& testing::question(n2.0) == AskView::Exit(
                match end {
                    Ok(Some(c)) => c,
                    _ => 1,
                },
            )
        }),
{
}

/// A script is opened if it is there, and read line by line.
pub proof fn a_script_is_opened(
    job: JobView,
    there: bool,
    opened: Result<(), Seq<char>>,
    e: Seq<char>,
)
    ensures
        ({
            let s0 = TestingView::FindScript(job);
            let n1 = testing::next(s0, AnswerView::Flag(there));
            let n2 = testing::next(TestingView::OpenScript(job), AnswerView::Done(opened));
            let ended = testing::next(TestingView::ReadScript, AnswerView::NextLine(None));
            let failed = testing::next(
                TestingView::ReadScript,
                AnswerView::NextLine(Some(Err(e))),
            );
            &&& testing::question(s0) == AskView::Exists(PlaceView::Path(job.verb))
            &&& there ==> testing::question(n1.0) == AskView::OpenLines(job.verb) && n1.1.len() == 0
                && n1.0 == TestingView::OpenScript(job)
            &&& !there ==> testing::question(n1.0) == AskView::Exit(1) && n1.1 == seq![
                LineView::Warn("Error: Configuration file '"@ + job.verb + "' not found."@),
            ]
            &&& n2.1.len() == 0
            &&& testing::question(n2.0) == match opened {
                Ok(_) => AskView::ReadLine,
                Err(_) => AskView::Panic("Failed to open configuration file"@),
            }
            &&& testing::question(ended.0) == AskView::Exit(0) && ended.1.len() == 0
            &&& testing::question(failed.0) == AskView::Panic("Failed to read line"@)
                && failed.1.len() == 0
        }),
{
}

/// The first word of a line is the program and the others are its arguments. After a
/// success the next line is read; a failure ends the script with its exit code, and a
/// program that cannot be run is told.
pub proof fn a_line_of_a_script_is_run(line: Seq<char>, end: Result<Option<i32>, Seq<char>>)
    ensures
        ({
            let n1 = testing::next(
                TestingView::ReadScript,
                AnswerView::NextLine(Some(Ok(line))),
            );
            let n2 = testing::next(n1.0, AnswerView::Exited(end));
            &&& n1.1.len() == 0
            &&& match comptime::script_command(line) {
                None => testing::question(n1.0) == AskView::ReadLine,
                Some(words) => {
                    &&& testing::question(n1.0) == AskView::Launch(
                        ProgramView {
                            name: words[0],
                            args: words.skip(1),
                            dir: None,
                            env: seq![],
                        },
                    )
                    &&& match end {
                        Ok(Some(c)) => n2.1.len() == 0 && testing::question(n2.0) == (if c == 0 {
                            AskView::ReadLine
                        } else {
                            AskView::Exit(c)
                        }),
                        Ok(None) => n2.1.len() == 0 && testing::question(n2.0) == AskView::Exit(1),
                        Err(_) => testing::question(n2.0) == AskView::Exit(1) && n2.1 == seq![
                            LineView::Warn("Failed to run command: "@ + text::trimmed(line)),
                        ],
                    }
                },
            }
        }),
{
}

} // verus!
