//! Evaluating a project at compile time, and then building it.

use crate::compose;
use crate::comptime;
use crate::comptime::Pass;
use crate::config;
use crate::dialog;
use crate::dialog::{
    Answer, AnswerView, Ask, AskView, Compilation, CompilationView, Line, LineView, Output,
    OutputView, Place, PlaceView, Program, ProgramView, SourceEntry, SourceEntryView,
};
use crate::help;
use crate::list;
use crate::registry::{EntryView, Registry};
use crate::request;
use crate::run;
use crate::text;
use vstd::prelude::*;
use vstd::string::*;

verus! {

// ---- the command line

/// What is done after the evaluation: `cargo` is run, after one pass or after
/// two, or the commands of a script.
#[derive(Debug, PartialEq, Eq, Structural, Clone, Copy)]
pub enum Kind {
    Plain,
    Nested,
    Script,
}

/// What is to be done.
#[derive(Debug)]
pub struct Job {
    pub list: String,
    /// The command of `cargo`, or the script.
    pub verb: String,
    pub rest: Vec<String>,
    pub kind: Kind,
    /// Whether `cargo` compiles the tests, and not the compiler itself.
    pub cargo: bool,
    pub windows: bool,
    /// The flags of the libraries of the list file.
    pub flags: String,
}

/// The texts of a `Job`.
pub struct JobView {
    pub list: Seq<char>,
    pub verb: Seq<char>,
    pub rest: Seq<Seq<char>>,
    pub kind: Kind,
    pub cargo: bool,
    pub windows: bool,
    pub flags: Seq<char>,
}

impl View for Job {
    type V = JobView;

    open spec fn view(&self) -> JobView {
        JobView {
            list: self.list@,
            verb: self.verb@,
            rest: text::texts(self.rest@),
            kind: self.kind,
            cargo: self.cargo,
            windows: self.windows,
            flags: self.flags@,
        }
    }
}

/// Whether a word is one of the commands of `cargo` that can follow.
pub open spec fn is_cargo_verb(s: Seq<char>) -> bool {
    s == "check"@ || s == "run"@ || s == "build"@
}

/// Whether a command line asks for two passes.
pub open spec fn asks_nested(args: Seq<Seq<char>>) -> bool {
    args.len() >= 5 && args[3] == "nested"@ && args[4] == "raw"@
}

/// What follows the evaluation that a command line asks for.
pub open spec fn kind_of(args: Seq<Seq<char>>) -> Kind {
    if !is_cargo_verb(args[2]) {
        Kind::Script
    } else if asks_nested(args) {
        Kind::Nested
    } else {
        Kind::Plain
    }
}

/// The arguments that are passed on to `cargo`.
pub open spec fn passed_args(v: Seq<Seq<char>>) -> Seq<Seq<char>> {
    v.filter(|a: Seq<char>| a != "nightly"@ && a != "cargo"@)
}

/// What a command line asks to be done. It is made of the program, the list file,
/// the command and its arguments.
pub open spec fn job_of(args: Seq<Seq<char>>, windows: bool) -> JobView {
    JobView {
        list: args[1],
        verb: args[2],
        rest: match kind_of(args) {
            Kind::Nested => passed_args(args.skip(5)),
            _ => passed_args(args.skip(3)),
        },
        kind: kind_of(args),
        cargo: args.contains("cargo"@),
        windows,
        flags: seq![],
    }
}

fn pass_args(args: &Vec<String>, from: usize) -> (r: Vec<String>)
    requires
        from <= args@.len(),
    ensures
        text::texts(r@) == passed_args(text::texts(args@).skip(from as int)),
{
    let ghost all = text::texts(args@).skip(from as int);
    let mut r: Vec<String> = Vec::new();
    let mut i: usize = from;
    proof {
        reveal(Seq::filter);
        assert(all.take(0) =~= Seq::<Seq<char>>::empty());
        assert(text::texts(r@) =~= passed_args(all.take(0)));
    }
    while i < args.len()
        invariant
            from <= i <= args@.len(),
            all == text::texts(args@).skip(from as int),
            text::texts(r@) == passed_args(all.take(i - from)),
        decreases args@.len() - i,
    {
        proof {
            reveal(Seq::filter);
            assert(all.take(i - from + 1).drop_last() =~= all.take(i - from));
            assert(all.take(i - from + 1).last() == args@[i as int]@);
        }
        let a = args[i].as_str();
        if !text::same_str(a, "nightly") && !text::same_str(a, "cargo") {
            request::add_text(&mut r, a);
        }
        i += 1;
    }
    assert(all.take(args@.len() - from) =~= all);
    r
}

/// What a command line asks to be done.
pub fn read_job(args: &Vec<String>, windows: bool) -> (r: Job)
    requires
        args@.len() >= 3,
    ensures
        r@ == job_of(text::texts(args@), windows),
{
    let ghost t = text::texts(args@);
    assert(t[2] == args@[2]@);
    let verb = args[2].as_str();
    let is_verb = text::same_str(verb, "check") || text::same_str(verb, "run") || text::same_str(
        verb,
        "build",
    );
    let nested = args.len() >= 5 && text::same_str(args[3].as_str(), "nested") && text::same_str(
        args[4].as_str(),
        "raw",
    );
    let kind = if !is_verb {
        Kind::Script
    } else if nested {
        Kind::Nested
    } else {
        Kind::Plain
    };
    let rest = if is_verb && nested {
        pass_args(args, 5)
    } else {
        pass_args(args, 3)
    };
    Job {
        list: args[1].clone(),
        verb: args[2].clone(),
        rest,
        kind,
        cargo: list::has_string(args, "cargo"),
        windows,
        flags: String::new(),
    }
}

// ---- the states

/// A compilation of the tests with the compiler itself.
#[derive(Debug)]
pub struct Bench {
    pub job: Job,
    pub pass: Pass,
    /// The words of the flags of the libraries.
    pub words: Vec<String>,
    pub has_lib: bool,
    /// The path of the libraries of the compiler.
    pub path: String,
}

/// The texts of a `Bench`.
pub struct BenchView {
    pub job: JobView,
    pub pass: Pass,
    pub words: Seq<Seq<char>>,
    pub has_lib: bool,
    pub path: Seq<char>,
}

impl View for Bench {
    type V = BenchView;

    open spec fn view(&self) -> BenchView {
        BenchView {
            job: self.job@,
            pass: self.pass,
            words: text::texts(self.words@),
            has_lib: self.has_lib,
            path: self.path@,
        }
    }
}

/// The state of an evaluation.
#[derive(Debug)]
pub enum Testing {
    Stopped(i32),
    /// Something that must not fail has failed.
    Broken(String),
    WriteTemplate,
    ReadFlags(Job),
    LoadFlags { job: Job, keys: Vec<String> },
    Scan { job: Job, stack: Vec<String>, at: String, latest: u64 },
    ReadStamp { job: Job, latest: u64 },
    FindResults { job: Job, latest: u64, last: u64 },
    // with cargo
    CargoCompile { job: Job, pass: Pass },
    CargoComplain(Program),
    CargoTry { job: Job, pass: Pass, binary: String, again: bool },
    // with the compiler
    BenchFlags(Job),
    BenchLoad { job: Job, keys: Vec<String> },
    BenchFindLib(Bench),
    BenchMakeDirs(Bench),
    BenchCompile(Bench),
    BenchFindPath(Bench),
    BenchTry { bench: Bench, again: bool },
    // the time of the evaluation
    AskTime(Job),
    MakeTarget { job: Job, now: u64 },
    WriteStamp { job: Job, now: u64 },
    // what follows
    AskNonce(Job),
    LaunchCargo { job: Job, nonce: u128 },
    FindScript(Job),
    OpenScript(Job),
    ReadScript,
    RunScript { line: String, program: Program },
}

/// The texts of a `Testing`.
pub enum TestingView {
    Stopped(i32),
    Broken(Seq<char>),
    WriteTemplate,
    ReadFlags(JobView),
    LoadFlags { job: JobView, keys: Seq<Seq<char>> },
    Scan { job: JobView, stack: Seq<Seq<char>>, at: Seq<char>, latest: u64 },
    ReadStamp { job: JobView, latest: u64 },
    FindResults { job: JobView, latest: u64, last: u64 },
    CargoCompile { job: JobView, pass: Pass },
    CargoComplain(ProgramView),
    CargoTry { job: JobView, pass: Pass, binary: Seq<char>, again: bool },
    BenchFlags(JobView),
    BenchLoad { job: JobView, keys: Seq<Seq<char>> },
    BenchFindLib(BenchView),
    BenchMakeDirs(BenchView),
    BenchCompile(BenchView),
    BenchFindPath(BenchView),
    BenchTry { bench: BenchView, again: bool },
    AskTime(JobView),
    MakeTarget { job: JobView, now: u64 },
    WriteStamp { job: JobView, now: u64 },
    AskNonce(JobView),
    LaunchCargo { job: JobView, nonce: u128 },
    FindScript(JobView),
    OpenScript(JobView),
    ReadScript,
    RunScript { line: Seq<char>, program: ProgramView },
}

impl View for Testing {
    type V = TestingView;

    open spec fn view(&self) -> TestingView {
        match self {
            Testing::Stopped(c) => TestingView::Stopped(*c),
            Testing::Broken(s) => TestingView::Broken(s@),
            Testing::WriteTemplate => TestingView::WriteTemplate,
            Testing::ReadFlags(job) => TestingView::ReadFlags(job@),
            Testing::LoadFlags { job, keys } => TestingView::LoadFlags {
                job: job@,
                keys: text::texts(keys@),
            },
            Testing::Scan { job, stack, at, latest } => TestingView::Scan {
                job: job@,
                stack: text::texts(stack@),
                at: at@,
                latest: *latest,
            },
            Testing::ReadStamp { job, latest } => TestingView::ReadStamp {
                job: job@,
                latest: *latest,
            },
            Testing::FindResults { job, latest, last } => TestingView::FindResults {
                job: job@,
                latest: *latest,
                last: *last,
            },
            Testing::CargoCompile { job, pass } => TestingView::CargoCompile {
                job: job@,
                pass: *pass,
            },
            Testing::CargoComplain(p) => TestingView::CargoComplain(p@),
            Testing::CargoTry { job, pass, binary, again } => TestingView::CargoTry {
                job: job@,
                pass: *pass,
                binary: binary@,
                again: *again,
            },
            Testing::BenchFlags(job) => TestingView::BenchFlags(job@),
            Testing::BenchLoad { job, keys } => TestingView::BenchLoad {
                job: job@,
                keys: text::texts(keys@),
            },
            Testing::BenchFindLib(b) => TestingView::BenchFindLib(b@),
            Testing::BenchMakeDirs(b) => TestingView::BenchMakeDirs(b@),
            Testing::BenchCompile(b) => TestingView::BenchCompile(b@),
            Testing::BenchFindPath(b) => TestingView::BenchFindPath(b@),
            Testing::BenchTry { bench, again } => TestingView::BenchTry {
                bench: bench@,
                again: *again,
            },
            Testing::AskTime(job) => TestingView::AskTime(job@),
            Testing::MakeTarget { job, now } => TestingView::MakeTarget { job: job@, now: *now },
            Testing::WriteStamp { job, now } => TestingView::WriteStamp { job: job@, now: *now },
            Testing::AskNonce(job) => TestingView::AskNonce(job@),
            Testing::LaunchCargo { job, nonce } => TestingView::LaunchCargo {
                job: job@,
                nonce: *nonce,
            },
            Testing::FindScript(job) => TestingView::FindScript(job@),
            Testing::OpenScript(job) => TestingView::OpenScript(job@),
            Testing::ReadScript => TestingView::ReadScript,
            Testing::RunScript { line, program } => TestingView::RunScript {
                line: line@,
                program: program@,
            },
        }
    }
}

// ---- the questions

/// The test program that the compiler has made; it is told where the libraries
/// of the compiler are, but for the second of two passes.
pub open spec fn bench_program(b: BenchView) -> ProgramView {
    let p = dialog::plain_program(comptime::test_exe(b.job.windows), seq![], None);
    if b.pass == Pass::Ready {
        p
    } else {
        dialog::with_variable(p, "LD_LIBRARY_PATH"@, b.path)
    }
}

/// The program that tells the home of the compiler.
pub open spec fn find_home() -> ProgramView {
    dialog::plain_program("rustc"@, seq!["--print"@, "sysroot"@], None)
}

/// The command of `cargo` that follows the evaluation.
pub open spec fn final_cargo(job: JobView, nonce: u128) -> ProgramView {
    dialog::with_variable(
        dialog::with_variable(
            dialog::with_variable(
                dialog::plain_program("cargo"@, seq![job.verb] + job.rest, None),
                "COMPTIME_NONCE"@,
                compose::decimal(nonce as nat),
            ),
            "RUSTFLAGS"@,
            job.flags,
        ),
        "CARGO_PROFILE_DEV_BUILD_OVERRIDE_OPT_LEVEL"@,
        "3"@,
    )
}

/// The question that a state asks.
pub open spec fn question(s: TestingView) -> AskView {
    match s {
        TestingView::Stopped(c) => AskView::Exit(c),
        TestingView::Broken(message) => AskView::Panic(message),
        TestingView::WriteTemplate => AskView::Write {
            place: PlaceView::Path("comptime.config"@),
            text: comptime::COMPTIME_TEMPLATE@,
        },
        TestingView::ReadFlags(job) => AskView::Read(PlaceView::Path(job.list)),
        TestingView::LoadFlags { .. } => AskView::LoadRegistry,
        TestingView::Scan { at, .. } => AskView::Scan(at),
        TestingView::ReadStamp { .. } => AskView::Read(PlaceView::Path(comptime::CACHE_FILE@)),
        TestingView::FindResults { .. } => AskView::HasEntries(PlaceView::Path("comptime"@)),
        TestingView::CargoCompile { pass, .. } => AskView::Compile(comptime::compile_tests(pass)),
        TestingView::CargoComplain(p) => AskView::Launch(p),
        TestingView::CargoTry { binary, again, .. } => AskView::Capture {
            program: dialog::plain_program(binary, seq![], None),
            pause: again,
        },
        TestingView::BenchFlags(job) => AskView::Read(PlaceView::Path(job.list)),
        TestingView::BenchLoad { .. } => AskView::LoadRegistry,
        TestingView::BenchFindLib(_) => AskView::Exists(PlaceView::Path("src/lib.rs"@)),
        TestingView::BenchMakeDirs(_) => AskView::MakeDirs(PlaceView::Path("target/debug/deps"@)),
        TestingView::BenchCompile(b) => AskView::Launch(
            comptime::compiler(b.pass, b.has_lib, b.job.windows, b.words),
        ),
        TestingView::BenchFindPath(_) => AskView::Capture { program: find_home(), pause: false },
        TestingView::BenchTry { bench, again } => AskView::Capture {
            program: bench_program(bench),
            pause: again,
        },
        TestingView::AskTime(_) => AskView::Clock,
        TestingView::MakeTarget { .. } => AskView::MakeDirs(PlaceView::Path("target"@)),
        TestingView::WriteStamp { now, .. } => AskView::Write {
            place: PlaceView::Path(comptime::CACHE_FILE@),
            text: compose::decimal(now as nat),
        },
        TestingView::AskNonce(_) => AskView::FineClock,
        TestingView::LaunchCargo { job, nonce } => AskView::Launch(final_cargo(job, nonce)),
        TestingView::FindScript(job) => AskView::Exists(PlaceView::Path(job.verb)),
        TestingView::OpenScript(job) => AskView::OpenLines(job.verb),
        TestingView::ReadScript => AskView::ReadLine,
        TestingView::RunScript { program, .. } => AskView::Launch(program),
    }
}

// ---- what follows an answer

/// The first state of an evaluation, and what is said at once.
pub open spec fn first(args: Seq<Seq<char>>, windows: bool) -> (TestingView, Seq<LineView>) {
    if args.len() < 3 {
        (TestingView::Stopped(1), seq![LineView::Out(help::HELP@)])
    } else if args[2] == "-h"@ || args[2] == "--help"@ {
        (TestingView::Stopped(0), seq![LineView::Out(help::HELP@)])
    } else if args[2] == "init"@ {
        if args.len() >= 4 && args[3] == "config"@ {
            (TestingView::WriteTemplate, seq![])
        } else {
            (TestingView::Stopped(1), seq![])
        }
    } else {
        (TestingView::ReadFlags(job_of(args, windows)), seq![])
    }
}

/// The way to the sources, with the flags of the libraries known.
pub open spec fn with_flags(job: JobView, words: Seq<Seq<char>>) -> TestingView {
    TestingView::Scan {
        job: JobView { flags: compose::joined(words, " "@), ..job },
        stack: seq![],
        at: "src"@,
        latest: 0,
    }
}

/// The evaluation that a job needs.
pub open spec fn evaluate(job: JobView) -> TestingView {
    match job.kind {
        Kind::Script => TestingView::CargoCompile { job, pass: Pass::Single },
        Kind::Plain => if job.cargo {
            TestingView::CargoCompile { job, pass: Pass::Single }
        } else {
            TestingView::BenchFlags(job)
        },
        Kind::Nested => if job.cargo {
            TestingView::CargoCompile { job, pass: Pass::Raw }
        } else {
            TestingView::BenchFlags(job)
        },
    }
}

/// What follows the evaluation.
pub open spec fn proceed(job: JobView) -> TestingView {
    match job.kind {
        Kind::Script => TestingView::FindScript(job),
        _ => TestingView::AskNonce(job),
    }
}

/// After a source directory has been gone through: on to the directory that was
/// found last, or, if there is none left, to the time of the last evaluation.
pub open spec fn after_scan(
    job: JobView,
    stack: Seq<Seq<char>>,
    latest: u64,
    entries: Option<Seq<SourceEntryView>>,
) -> TestingView {
    let found = match entries {
        Some(v) => comptime::latest_among(latest, v),
        None => latest,
    };
    let all = match entries {
        Some(v) => stack + comptime::dirs_among(v),
        None => stack,
    };
    if all.len() == 0 {
        TestingView::ReadStamp { job, latest: found }
    } else {
        TestingView::Scan { job, stack: all.drop_last(), at: all.last(), latest: found }
    }
}

/// After the time of the last evaluation has been read.
pub open spec fn after_read_stamp(
    job: JobView,
    latest: u64,
    content: Result<Seq<char>, Seq<char>>,
) -> TestingView {
    let last = comptime::stamp_in(content);
    if latest > last {
        evaluate(job)
    } else {
        TestingView::FindResults { job, latest, last }
    }
}

/// After the tests have been compiled with `cargo`.
pub open spec fn after_cargo_compile(
    job: JobView,
    pass: Pass,
    result: Result<CompilationView, Seq<char>>,
) -> TestingView {
    match result {
        Err(_) => TestingView::Broken("Failed to compile tests"@),
        Ok(c) => if !dialog::succeeded(c.code) {
            TestingView::CargoComplain(comptime::show_errors(pass))
        } else {
            match comptime::last_executable(c.lines) {
                Some(binary) => TestingView::CargoTry { job, pass, binary, again: false },
                None => TestingView::CargoComplain(comptime::show_tests(pass)),
            }
        },
    }
}

/// After the tests that `cargo` compiled have been run. On its own a pass must
/// succeed; of two passes the results do not count.
pub open spec fn after_cargo_try(
    job: JobView,
    pass: Pass,
    binary: Seq<char>,
    result: Result<OutputView, Seq<char>>,
) -> (TestingView, Seq<LineView>) {
    match result {
        Err(_) => (TestingView::Broken("Failed to execute test binary"@), seq![]),
        Ok(o) => if pass == Pass::Single && dialog::succeeded(o.code) {
            (TestingView::AskTime(job), seq![])
        } else if comptime::is_unsettled(pass, o) {
            (TestingView::CargoTry { job, pass, binary, again: true }, seq![])
        } else {
            match pass {
                Pass::Single => (
                    TestingView::Stopped(1),
                    seq![LineView::WarnText(o.out), LineView::WarnText(o.err)],
                ),
                Pass::Raw => (TestingView::CargoCompile { job, pass: Pass::Ready }, seq![]),
                Pass::Ready => (TestingView::AskTime(job), seq![]),
            }
        },
    }
}

/// The start of a compilation with the compiler itself.
pub open spec fn bench_of(job: JobView, words: Seq<Seq<char>>) -> TestingView {
    TestingView::BenchFindLib(
        BenchView {
            job,
            pass: if job.kind == Kind::Nested {
                Pass::Raw
            } else {
                Pass::Single
            },
            words,
            has_lib: false,
            path: seq![],
        },
    )
}

/// What is said where the compiler cannot be run.
pub open spec fn compile_fault(pass: Pass) -> Seq<char> {
    match pass {
        Pass::Single => "Failed to compile comptime with rustc"@,
        Pass::Raw => "Failed to compile raw binary"@,
        Pass::Ready => "Failed to compile ready binary"@,
    }
}

/// What is said where the test program cannot be run.
pub open spec fn try_fault(pass: Pass) -> Seq<char> {
    match pass {
        Pass::Ready => "Failed to execute ready test binary"@,
        _ => "Failed to execute test binary"@,
    }
}

/// After the compiler has been run on the tests.
pub open spec fn after_bench_compile(b: BenchView, end: Result<Option<i32>, Seq<char>>) -> TestingView {
    match end {
        Err(_) => TestingView::Broken(compile_fault(b.pass)),
        Ok(code) => if !dialog::succeeded(code) {
            TestingView::Stopped(1)
        } else if b.pass == Pass::Ready {
            TestingView::BenchTry { bench: b, again: false }
        } else {
            TestingView::BenchFindPath(b)
        },
    }
}

/// After the tests that the compiler made have been run.
pub open spec fn after_bench_try(b: BenchView, result: Result<OutputView, Seq<char>>) -> TestingView {
    match result {
        Err(_) => TestingView::Broken(try_fault(b.pass)),
        Ok(o) => if comptime::is_unsettled(b.pass, o) {
            TestingView::BenchTry { bench: b, again: true }
        } else if b.pass == Pass::Raw {
            TestingView::BenchCompile(BenchView { pass: Pass::Ready, ..b })
        } else {
            TestingView::AskTime(b.job)
        },
    }
}

/// After the last command of `cargo`: its exit code is passed on.
pub open spec fn after_final_cargo(end: Result<Option<i32>, Seq<char>>) -> TestingView {
    match end {
        Ok(code) => TestingView::Stopped(dialog::passed_on(code)),
        Err(_) => TestingView::Stopped(1),
    }
}

/// After a line of a script has been read.
pub open spec fn after_script_line(line: Option<Result<Seq<char>, Seq<char>>>) -> TestingView {
    match line {
        None => TestingView::Stopped(0),
        Some(Err(_)) => TestingView::Broken("Failed to read line"@),
        Some(Ok(l)) => match comptime::script_command(l) {
            None => TestingView::ReadScript,
            Some(words) => TestingView::RunScript {
                line: text::trimmed(l),
                program: dialog::plain_program(words[0], words.skip(1), None),
            },
        },
    }
}

/// After a command of a script.
pub open spec fn after_script_command(line: Seq<char>, end: Result<Option<i32>, Seq<char>>) -> (
    TestingView,
    Seq<LineView>,
) {
    match end {
        Err(_) => (
            TestingView::Stopped(1),
            seq![LineView::Warn("Failed to run command: "@ + line)],
        ),
        Ok(code) => if dialog::succeeded(code) {
            (TestingView::ReadScript, seq![])
        } else {
            (TestingView::Stopped(dialog::passed_on(code)), seq![])
        },
    }
}

/// After the question whether there is a script.
pub open spec fn after_find_script(job: JobView, there: bool) -> (TestingView, Seq<LineView>) {
    if there {
        (TestingView::OpenScript(job), seq![])
    } else {
        (
            TestingView::Stopped(1),
            seq![
                LineView::Warn("Error: Configuration file '"@ + job.verb + "' not found."@),
            ],
        )
    }
}

/// What follows a text that was asked for.
pub open spec fn on_text(s: TestingView, content: Result<Seq<char>, Seq<char>>) -> (
    TestingView,
    Seq<LineView>,
) {
    match s {
        TestingView::ReadFlags(job) => (
            match content {
                Ok(t) => TestingView::LoadFlags { job, keys: list::active(t) },
                Err(_) => with_flags(job, seq![]),
            },
            seq![],
        ),
        TestingView::ReadStamp { job, latest } => (
            after_read_stamp(job, latest, content),
            seq![],
        ),
        TestingView::BenchFlags(job) => (
            match content {
                Ok(t) => TestingView::BenchLoad { job, keys: list::active(t) },
                Err(_) => bench_of(job, seq![]),
            },
            seq![],
        ),
        _ => (s, seq![]),
    }
}

/// What follows the registry.
pub open spec fn on_registry(s: TestingView, m: Map<Seq<char>, EntryView>) -> (
    TestingView,
    Seq<LineView>,
) {
    match s {
        TestingView::LoadFlags { job, keys } => (
            with_flags(job, run::library_words(keys, m)),
            seq![],
        ),
        TestingView::BenchLoad { job, keys } => (
            bench_of(job, run::library_words(keys, m)),
            seq![],
        ),
        _ => (s, seq![]),
    }
}

/// What follows the entries of a source directory.
pub open spec fn on_entries(s: TestingView, entries: Option<Seq<SourceEntryView>>) -> (
    TestingView,
    Seq<LineView>,
) {
    match s {
        TestingView::Scan { job, stack, latest, .. } => (
            after_scan(job, stack, latest, entries),
            seq![],
        ),
        _ => (s, seq![]),
    }
}

/// What follows yes or no.
pub open spec fn on_flag(s: TestingView, b: bool) -> (TestingView, Seq<LineView>) {
    match s {
        TestingView::FindResults { job, latest, last } => (
            if comptime::is_stale(latest, last, b) {
                evaluate(job)
            } else {
                proceed(job)
            },
            seq![],
        ),
        TestingView::BenchFindLib(bench) => (
            TestingView::BenchMakeDirs(BenchView { has_lib: b, ..bench }),
            seq![],
        ),
        TestingView::FindScript(job) => after_find_script(job, b),
        _ => (s, seq![]),
    }
}

/// What follows the answer whether something could be done.
pub open spec fn on_done(s: TestingView, done: Result<(), Seq<char>>) -> (
    TestingView,
    Seq<LineView>,
) {
    match s {
        TestingView::WriteTemplate => (TestingView::Stopped(0), seq![]),
        TestingView::BenchMakeDirs(bench) => (TestingView::BenchCompile(bench), seq![]),
        TestingView::MakeTarget { job, now } => (TestingView::WriteStamp { job, now }, seq![]),
        TestingView::WriteStamp { job, .. } => (proceed(job), seq![]),
        TestingView::OpenScript(_) => (
            match done {
                Ok(_) => TestingView::ReadScript,
                Err(_) => TestingView::Broken("Failed to open configuration file"@),
            },
            seq![],
        ),
        _ => (s, seq![]),
    }
}

/// What follows a compilation.
pub open spec fn on_compilation(s: TestingView, result: Result<CompilationView, Seq<char>>) -> (
    TestingView,
    Seq<LineView>,
) {
    match s {
        TestingView::CargoCompile { job, pass } => (
            after_cargo_compile(job, pass, result),
            seq![],
        ),
        _ => (s, seq![]),
    }
}

/// What follows a program whose output is kept.
pub open spec fn on_output(s: TestingView, result: Result<OutputView, Seq<char>>) -> (
    TestingView,
    Seq<LineView>,
) {
    match s {
        TestingView::CargoTry { job, pass, binary, .. } => after_cargo_try(
            job,
            pass,
            binary,
            result,
        ),
        TestingView::BenchFindPath(bench) => (
            TestingView::BenchTry {
                bench: BenchView { path: comptime::library_path(result), ..bench },
                again: false,
            },
            seq![],
        ),
        TestingView::BenchTry { bench, .. } => (after_bench_try(bench, result), seq![]),
        _ => (s, seq![]),
    }
}

/// What follows a program.
pub open spec fn on_exit(s: TestingView, end: Result<Option<i32>, Seq<char>>) -> (
    TestingView,
    Seq<LineView>,
) {
    match s {
        TestingView::CargoComplain(_) => (TestingView::Stopped(1), seq![]),
        TestingView::BenchCompile(bench) => (after_bench_compile(bench, end), seq![]),
        TestingView::LaunchCargo { .. } => (after_final_cargo(end), seq![]),
        TestingView::RunScript { line, .. } => after_script_command(line, end),
        _ => (s, seq![]),
    }
}

/// What follows the time in seconds.
pub open spec fn on_seconds(s: TestingView, n: u64) -> (TestingView, Seq<LineView>) {
    match s {
        TestingView::AskTime(job) => (TestingView::MakeTarget { job, now: n }, seq![]),
        _ => (s, seq![]),
    }
}

/// What follows the time in nanoseconds.
pub open spec fn on_nanos(s: TestingView, n: u128) -> (TestingView, Seq<LineView>) {
    match s {
        TestingView::AskNonce(job) => (TestingView::LaunchCargo { job, nonce: n }, seq![]),
        _ => (s, seq![]),
    }
}

/// What follows a line of a script.
pub open spec fn on_line(s: TestingView, line: Option<Result<Seq<char>, Seq<char>>>) -> (
    TestingView,
    Seq<LineView>,
) {
    match s {
        TestingView::ReadScript => (after_script_line(line), seq![]),
        _ => (s, seq![]),
    }
}

/// The state that an answer leads to, and what is said on the way. An answer
/// that does not fit the question leaves the state as it is.
pub open spec fn next(s: TestingView, a: AnswerView) -> (TestingView, Seq<LineView>) {
    match a {
        AnswerView::Text(content) => on_text(s, content),
        AnswerView::Known(m) => on_registry(s, m),
        AnswerView::Scanned(entries) => on_entries(s, entries),
        AnswerView::Flag(b) => on_flag(s, b),
        AnswerView::Done(done) => on_done(s, done),
        AnswerView::Compiled(result) => on_compilation(s, result),
        AnswerView::Captured(result) => on_output(s, result),
        AnswerView::Exited(end) => on_exit(s, end),
        AnswerView::Seconds(n) => on_seconds(s, n),
        AnswerView::Nanos(n) => on_nanos(s, n),
        AnswerView::NextLine(line) => on_line(s, line),
        _ => (s, seq![]),
    }
}

// ---- the dialog

fn go_on(s: Testing) -> (r: (Testing, Vec<Line>))
    ensures
        r.0@ == s@,
        dialog::said(r.1@) == Seq::<LineView>::empty(),
{
    (s, dialog::say_nothing())
}

fn break_off(message: &str) -> (r: Testing)
    ensures
        r@ == TestingView::Broken(message@),
{
    Testing::Broken(message.to_owned())
}

fn no_words() -> (r: Vec<String>)
    ensures
        text::texts(r@) == Seq::<Seq<char>>::empty(),
{
    let r: Vec<String> = Vec::new();
    assert(text::texts(r@) =~= Seq::<Seq<char>>::empty());
    r
}

/// The words of the flags of the libraries with the keys.
pub fn get_rlib_rustc_base_args(keys: &Vec<String>, registry: &Registry) -> (r: Vec<String>)
    ensures
        text::texts(r@) == run::library_words(text::texts(keys@), registry@),
{
    let mut r = no_words();
    let _ = run::add_library_words(&mut r, keys, registry);
    assert(text::texts(r@) =~= run::library_words(text::texts(keys@), registry@));
    r
}

fn start_scan(job: Job, words: Vec<String>) -> (r: Testing)
    ensures
        r@ == with_flags(job@, text::texts(words@)),
{
    let flags = compose::join(&words, " ");
    let job = Job {
        list: job.list,
        verb: job.verb,
        rest: job.rest,
        kind: job.kind,
        cargo: job.cargo,
        windows: job.windows,
        flags,
    };
    Testing::Scan { job, stack: no_words(), at: "src".to_owned(), latest: 0 }
}

fn start_bench(job: Job, words: Vec<String>) -> (r: Testing)
    ensures
        r@ == bench_of(job@, text::texts(words@)),
{
    let pass = match job.kind {
        Kind::Nested => Pass::Raw,
        _ => Pass::Single,
    };
    Testing::BenchFindLib(Bench { job, pass, words, has_lib: false, path: String::new() })
}

fn start_evaluation(job: Job) -> (r: Testing)
    ensures
        r@ == evaluate(job@),
{
    match job.kind {
        Kind::Script => Testing::CargoCompile { job, pass: Pass::Single },
        Kind::Plain => if job.cargo {
            Testing::CargoCompile { job, pass: Pass::Single }
        } else {
            Testing::BenchFlags(job)
        },
        Kind::Nested => if job.cargo {
            Testing::CargoCompile { job, pass: Pass::Raw }
        } else {
            Testing::BenchFlags(job)
        },
    }
}

fn go_further(job: Job) -> (r: Testing)
    ensures
        r@ == proceed(job@),
{
    match job.kind {
        Kind::Script => Testing::FindScript(job),
        _ => Testing::AskNonce(job),
    }
}

fn scanned(job: Job, stack: Vec<String>, latest: u64, entries: Option<Vec<SourceEntry>>) -> (r:
    Testing)
    ensures
        r@ == after_scan(
            job@,
            text::texts(stack@),
            latest,
            match entries {
                Some(v) => Some(dialog::sources(v@)),
                None => None,
            },
        ),
{
    let mut all = stack;
    let found: u64 = match entries {
        Some(v) => comptime::latest_src_mtime(latest, &v, &mut all),
        None => latest,
    };
    let ghost t = text::texts(all@);
    assert(t.len() == all@.len());
    match all.pop() {
        None => Testing::ReadStamp { job, latest: found },
        Some(at) => {
            assert(text::texts(all@) =~= t.drop_last());
            Testing::Scan { job, stack: all, at, latest: found }
        },
    }
}

fn stamp_read(job: Job, latest: u64, content: Result<String, String>) -> (r: Testing)
    ensures
        r@ == after_read_stamp(job@, latest, dialog::text_result(content)),
{
    let last: u64 = comptime::last_test_timestamp(&content);
    if latest > last {
        start_evaluation(job)
    } else {
        Testing::FindResults { job, latest, last }
    }
}

fn cargo_compiled(job: Job, pass: Pass, result: Result<Compilation, String>) -> (r: Testing)
    ensures
        r@ == after_cargo_compile(job@, pass, dialog::compile_result(result)),
{
    match result {
        Err(_) => break_off("Failed to compile tests"),
        Ok(c) => if !dialog::is_success(c.code) {
            Testing::CargoComplain(comptime::show_errors_program(pass))
        } else {
            match comptime::find_executable(&c.lines) {
                Some(binary) => Testing::CargoTry { job, pass, binary, again: false },
                None => Testing::CargoComplain(comptime::show_tests_program(pass)),
            }
        },
    }
}

fn cargo_tried(job: Job, pass: Pass, binary: String, result: Result<Output, String>) -> (r: (
    Testing,
    Vec<Line>,
))
    ensures
        (r.0@, dialog::said(r.1@)) == after_cargo_try(
            job@,
            pass,
            binary@,
            dialog::output_result(result),
        ),
{
    match result {
        Err(_) => go_on(break_off("Failed to execute test binary")),
        Ok(o) => {
            let single = match pass {
                Pass::Single => true,
                _ => false,
            };
            if single && dialog::is_success(o.code) {
                return go_on(Testing::AskTime(job));
            }
            if comptime::must_repeat(pass, &o) {
                return go_on(Testing::CargoTry { job, pass, binary, again: true });
            }
            match pass {
                Pass::Single => {
                    let ghost view = o@;
                    let mut lines = dialog::say(Line::WarnText(o.out));
                    dialog::say_more(&mut lines, Line::WarnText(o.err));
                    assert(dialog::said(lines@) =~= seq![
                        LineView::WarnText(view.out),
                        LineView::WarnText(view.err),
                    ]);
                    (Testing::Stopped(1), lines)
                },
                Pass::Raw => go_on(Testing::CargoCompile { job, pass: Pass::Ready }),
                Pass::Ready => go_on(Testing::AskTime(job)),
            }
        },
    }
}

fn bench_compiled(b: Bench, end: Result<Option<i32>, String>) -> (r: Testing)
    ensures
        r@ == after_bench_compile(b@, dialog::exit_result(end)),
{
    match end {
        Err(_) => match b.pass {
            Pass::Single => break_off("Failed to compile comptime with rustc"),
            Pass::Raw => break_off("Failed to compile raw binary"),
            Pass::Ready => break_off("Failed to compile ready binary"),
        },
        Ok(code) => if !dialog::is_success(code) {
            Testing::Stopped(1)
        } else {
            match b.pass {
                Pass::Ready => Testing::BenchTry { bench: b, again: false },
                _ => Testing::BenchFindPath(b),
            }
        },
    }
}

fn path_found(b: Bench, home: Result<Output, String>) -> (r: Testing)
    ensures
        r@ == (TestingView::BenchTry {
            bench: BenchView { path: comptime::library_path(dialog::output_result(home)), ..b@ },
            again: false,
        }),
{
    let path = comptime::find_library_path(&home);
    let bench = Bench { job: b.job, pass: b.pass, words: b.words, has_lib: b.has_lib, path };
    Testing::BenchTry { bench, again: false }
}

fn bench_tried(b: Bench, result: Result<Output, String>) -> (r: Testing)
    ensures
        r@ == after_bench_try(b@, dialog::output_result(result)),
{
    match result {
        Err(_) => match b.pass {
            Pass::Ready => break_off("Failed to execute ready test binary"),
            _ => break_off("Failed to execute test binary"),
        },
        Ok(o) => if comptime::must_repeat(b.pass, &o) {
            Testing::BenchTry { bench: b, again: true }
        } else {
            match b.pass {
                Pass::Raw => {
                    let bench = Bench {
                        job: b.job,
                        pass: Pass::Ready,
                        words: b.words,
                        has_lib: b.has_lib,
                        path: b.path,
                    };
                    Testing::BenchCompile(bench)
                },
                _ => Testing::AskTime(b.job),
            }
        },
    }
}

fn finally_ended(end: Result<Option<i32>, String>) -> (r: Testing)
    ensures
        r@ == after_final_cargo(dialog::exit_result(end)),
{
    match end {
        Ok(code) => Testing::Stopped(dialog::pass_on(code)),
        Err(_) => Testing::Stopped(1),
    }
}

/// A trimmed line that is not empty has a word.
proof fn lemma_has_word(line: Seq<char>)
    requires
        text::trimmed(line).len() > 0,
    ensures
        text::words(text::trimmed(line)).len() > 0,
{
    let t = text::trim_left(line);
    text::lemma_trim_left(line);
    let u = text::trim_right(t);
    text::lemma_trim_right_keeps_first(t);
    assert(u[0] == t[0]);
    assert(text::trim_left(u) == u);
}

fn script_line_read(line: Option<Result<String, String>>) -> (r: Testing)
    ensures
        r@ == after_script_line(
            match line {
                Some(l) => Some(dialog::text_result(l)),
                None => None,
            },
        ),
{
    match line {
        None => Testing::Stopped(0),
        Some(Err(_)) => break_off("Failed to read line"),
        Some(Ok(l)) => {
            let source = text::chars_of(l.as_str());
            let t = text::trim(source.as_slice());
            if t.len() == 0 || t[0] == '#' {
                return Testing::ReadScript;
            }
            let s = text::string_of(t);
            let mut words = no_words();
            run::add_words(&mut words, s.as_str());
            let ghost all = text::words(s@);
            proof {
                lemma_has_word(l@);
                assert(text::texts(words@) =~= all);
                assert(text::texts(words@).len() == words@.len());
            }
            let name = words.remove(0);
            assert(text::texts(words@) =~= all.skip(1));
            let program = dialog::program(name.as_str(), words, None);
            Testing::RunScript { line: s, program }
        },
    }
}

fn script_command_ended(line: String, end: Result<Option<i32>, String>) -> (r: (
    Testing,
    Vec<Line>,
))
    ensures
        (r.0@, dialog::said(r.1@)) == after_script_command(line@, dialog::exit_result(end)),
{
    match end {
        Err(_) => (
            Testing::Stopped(1),
            dialog::say(
                Line::Warn(compose::cat2("Failed to run command: ", line.as_str())),
            ),
        ),
        Ok(code) => if dialog::is_success(code) {
            go_on(Testing::ReadScript)
        } else {
            go_on(Testing::Stopped(dialog::pass_on(code)))
        },
    }
}

fn script_found(job: Job, there: bool) -> (r: (Testing, Vec<Line>))
    ensures
        (r.0@, dialog::said(r.1@)) == after_find_script(job@, there),
{
    if there {
        go_on(Testing::OpenScript(job))
    } else {
        (
            Testing::Stopped(1),
            dialog::say(
                Line::Warn(
                    compose::cat3(
                        "Error: Configuration file '",
                        job.verb.as_str(),
                        "' not found.",
                    ),
                ),
            ),
        )
    }
}

fn make_bench_program(b: &Bench) -> (r: Program)
    ensures
        r@ == bench_program(b@),
{
    let mut p = dialog::program(comptime::test_exe_name(b.job.windows), no_words(), None);
    match b.pass {
        Pass::Ready => {},
        _ => {
            dialog::set_variable(&mut p, "LD_LIBRARY_PATH", b.path.as_str());
        },
    }
    p
}

fn make_final_cargo(job: &Job, nonce: u128) -> (r: Program)
    ensures
        r@ == final_cargo(job@, nonce),
{
    let mut args = no_words();
    request::add_text(&mut args, job.verb.as_str());
    comptime::add_texts(&mut args, &job.rest);
    assert(text::texts(args@) =~= seq![job@.verb] + job@.rest);
    let mut p = dialog::program("cargo", args, None);
    dialog::set_variable(&mut p, "COMPTIME_NONCE", compose::to_decimal(nonce).as_str());
    dialog::set_variable(&mut p, "RUSTFLAGS", job.flags.as_str());
    dialog::set_variable(&mut p, "CARGO_PROFILE_DEV_BUILD_OVERRIDE_OPT_LEVEL", "3");
    p
}

fn make_find_home() -> (r: Program)
    ensures
        r@ == find_home(),
{
    let mut args = no_words();
    request::add_text(&mut args, "--print");
    request::add_text(&mut args, "sysroot");
    assert(text::texts(args@) =~= seq!["--print"@, "sysroot"@]);
    dialog::program("rustc", args, None)
}

fn hear_text(state: Testing, content: Result<String, String>) -> (r: (Testing, Vec<Line>))
    ensures
        (r.0@, dialog::said(r.1@)) == on_text(
            state@,
            dialog::text_result(content),
        ),
{
    match state {
        Testing::ReadFlags(job) => match content {
            Ok(t) => go_on(
                Testing::LoadFlags { job, keys: list::active_lines(t.as_str()) },
            ),
            Err(_) => go_on(start_scan(job, no_words())),
        },
        Testing::ReadStamp { job, latest } => go_on(stamp_read(job, latest, content)),
        Testing::BenchFlags(job) => match content {
            Ok(t) => go_on(
                Testing::BenchLoad { job, keys: list::active_lines(t.as_str()) },
            ),
            Err(_) => go_on(start_bench(job, no_words())),
        },
        s => go_on(s),
    }
}

fn hear_registry(state: Testing, registry: Registry) -> (r: (Testing, Vec<Line>))
    ensures
        (r.0@, dialog::said(r.1@)) == on_registry(
            state@,
            registry@,
        ),
{
    match state {
        Testing::LoadFlags { job, keys } => go_on(
            start_scan(job, get_rlib_rustc_base_args(&keys, &registry)),
        ),
        Testing::BenchLoad { job, keys } => go_on(
            start_bench(job, get_rlib_rustc_base_args(&keys, &registry)),
        ),
        s => go_on(s),
    }
}

fn hear_entries(state: Testing, entries: Option<Vec<SourceEntry>>) -> (r: (Testing, Vec<Line>))
    ensures
        (r.0@, dialog::said(r.1@)) == on_entries(
            state@,
            match entries {
                Some(v) => Some(dialog::sources(v@)),
                None => None,
            },
        ),
{
    match state {
        Testing::Scan { job, stack, latest, .. } => go_on(
            scanned(job, stack, latest, entries),
        ),
        s => go_on(s),
    }
}

fn hear_flag(state: Testing, b: bool) -> (r: (Testing, Vec<Line>))
    ensures
        (r.0@, dialog::said(r.1@)) == on_flag(
            state@,
            b,
        ),
{
    match state {
        Testing::FindResults { job, latest, last } => if comptime::needs_retest(latest, last, b) {
            go_on(start_evaluation(job))
        } else {
            go_on(go_further(job))
        },
        Testing::BenchFindLib(old_bench) => {
            let bench = Bench {
                job: old_bench.job,
                pass: old_bench.pass,
                words: old_bench.words,
                has_lib: b,
                path: old_bench.path,
            };
            go_on(Testing::BenchMakeDirs(bench))
        },
        Testing::FindScript(job) => script_found(job, b),
        s => go_on(s),
    }
}

fn hear_done(state: Testing, done: Result<(), String>) -> (r: (Testing, Vec<Line>))
    ensures
        (r.0@, dialog::said(r.1@)) == on_done(
            state@,
            dialog::done_result(done),
        ),
{
    match state {
        Testing::WriteTemplate => go_on(Testing::Stopped(0)),
        Testing::BenchMakeDirs(bench) => go_on(Testing::BenchCompile(bench)),
        Testing::MakeTarget { job, now } => go_on(Testing::WriteStamp { job, now }),
        Testing::WriteStamp { job, .. } => go_on(go_further(job)),
        Testing::OpenScript(_) => match done {
            Ok(_) => go_on(Testing::ReadScript),
            Err(_) => go_on(break_off("Failed to open configuration file")),
        },
        s => go_on(s),
    }
}

fn hear_compilation(state: Testing, result: Result<Compilation, String>) -> (r: (Testing, Vec<Line>))
    ensures
        (r.0@, dialog::said(r.1@)) == on_compilation(
            state@,
            dialog::compile_result(result),
        ),
{
    match state {
        Testing::CargoCompile { job, pass } => go_on(cargo_compiled(job, pass, result)),
        s => go_on(s),
    }
}

fn hear_output(state: Testing, result: Result<Output, String>) -> (r: (Testing, Vec<Line>))
    ensures
        (r.0@, dialog::said(r.1@)) == on_output(
            state@,
            dialog::output_result(result),
        ),
{
    match state {
        Testing::CargoTry { job, pass, binary, .. } => cargo_tried(
            job,
            pass,
            binary,
            result,
        ),
        Testing::BenchFindPath(bench) => go_on(path_found(bench, result)),
        Testing::BenchTry { bench, .. } => go_on(bench_tried(bench, result)),
        s => go_on(s),
    }
}

fn hear_exit(state: Testing, end: Result<Option<i32>, String>) -> (r: (Testing, Vec<Line>))
    ensures
        (r.0@, dialog::said(r.1@)) == on_exit(
            state@,
            dialog::exit_result(end),
        ),
{
    match state {
        Testing::CargoComplain(_) => go_on(Testing::Stopped(1)),
        Testing::BenchCompile(bench) => go_on(bench_compiled(bench, end)),
        Testing::LaunchCargo { .. } => go_on(finally_ended(end)),
        Testing::RunScript { line, .. } => script_command_ended(line, end),
        s => go_on(s),
    }
}

fn hear_seconds(state: Testing, n: u64) -> (r: (Testing, Vec<Line>))
    ensures
        (r.0@, dialog::said(r.1@)) == on_seconds(state@, n),
{
    match state {
        Testing::AskTime(job) => go_on(Testing::MakeTarget { job, now: n }),
        s => go_on(s),
    }
}

fn hear_nanos(state: Testing, n: u128) -> (r: (Testing, Vec<Line>))
    ensures
        (r.0@, dialog::said(r.1@)) == on_nanos(state@, n),
{
    match state {
        Testing::AskNonce(job) => go_on(Testing::LaunchCargo { job, nonce: n }),
        s => go_on(s),
    }
}

fn hear_line(state: Testing, line: Option<Result<String, String>>) -> (r: (Testing, Vec<Line>))
    ensures
        (r.0@, dialog::said(r.1@)) == on_line(
            state@,
            match line {
                Some(l) => Some(dialog::text_result(l)),
                None => None,
            },
        ),
{
    match state {
        Testing::ReadScript => go_on(script_line_read(line)),
        s => go_on(s),
    }
}

/// The first state of an evaluation, and what is said at once. The command line
/// is made of the program, the list file, the command and its arguments.
pub fn handle_comptime_subcommand(args: &Vec<String>, windows: bool) -> (n: (Testing, Vec<Line>))
    ensures
        (n.0@, dialog::said(n.1@)) == first(text::texts(args@), windows),
{
    let ghost t = text::texts(args@);
    assert(t.len() == args@.len());
    if args.len() < 3 {
        return (Testing::Stopped(1), dialog::say(Line::Out(help::HELP.to_owned())));
    }
    let verb = args[2].as_str();
    assert(t[2] == verb@);
    if text::same_str(verb, "-h") || text::same_str(verb, "--help") {
        return (Testing::Stopped(0), dialog::say(Line::Out(help::HELP.to_owned())));
    }
    if text::same_str(verb, "init") {
        if args.len() >= 4 && text::same_str(args[3].as_str(), "config") {
            return go_on(Testing::WriteTemplate);
        }
        return go_on(Testing::Stopped(1));
    }
    go_on(Testing::ReadFlags(read_job(args, windows)))
}

impl Testing {
    /// The question that the state asks.
    pub fn ask(&self) -> (r: Ask)
        ensures
            r@ == question(self@),
    {
        match self {
            Testing::Stopped(c) => Ask::Exit(*c),
            Testing::Broken(message) => Ask::Panic(message.clone()),
            Testing::WriteTemplate => Ask::Write {
                place: Place::Path("comptime.config".to_owned()),
                text: comptime::COMPTIME_TEMPLATE.to_owned(),
            },
            Testing::ReadFlags(job) => Ask::Read(Place::Path(job.list.clone())),
            Testing::LoadFlags { .. } => Ask::LoadRegistry,
            Testing::Scan { at, .. } => Ask::Scan(at.clone()),
            Testing::ReadStamp { .. } => Ask::Read(Place::Path(comptime::CACHE_FILE.to_owned())),
            Testing::FindResults { .. } => Ask::HasEntries(Place::Path("comptime".to_owned())),
            Testing::CargoCompile { pass, .. } => Ask::Compile(
                comptime::compile_tests_program(*pass),
            ),
            Testing::CargoComplain(p) => Ask::Launch(p.copy()),
            Testing::CargoTry { binary, again, .. } => Ask::Capture {
                program: dialog::program(binary.as_str(), no_words(), None),
                pause: *again,
            },
            Testing::BenchFlags(job) => Ask::Read(Place::Path(job.list.clone())),
            Testing::BenchLoad { .. } => Ask::LoadRegistry,
            Testing::BenchFindLib(_) => Ask::Exists(Place::Path("src/lib.rs".to_owned())),
            Testing::BenchMakeDirs(_) => Ask::MakeDirs(
                Place::Path("target/debug/deps".to_owned()),
            ),
            Testing::BenchCompile(b) => Ask::Launch(
                comptime::compiler_program(b.pass, b.has_lib, b.job.windows, &b.words),
            ),
            Testing::BenchFindPath(_) => Ask::Capture { program: make_find_home(), pause: false },
            Testing::BenchTry { bench, again } => Ask::Capture {
                program: make_bench_program(bench),
                pause: *again,
            },
            Testing::AskTime(_) => Ask::Clock,
            Testing::MakeTarget { .. } => Ask::MakeDirs(Place::Path("target".to_owned())),
            Testing::WriteStamp { now, .. } => Ask::Write {
                place: Place::Path(comptime::CACHE_FILE.to_owned()),
                text: compose::to_decimal(*now as u128),
            },
            Testing::AskNonce(_) => Ask::FineClock,
            Testing::LaunchCargo { job, nonce } => Ask::Launch(make_final_cargo(job, *nonce)),
            Testing::FindScript(job) => Ask::Exists(Place::Path(job.verb.clone())),
            Testing::OpenScript(job) => Ask::OpenLines(job.verb.clone()),
            Testing::ReadScript => Ask::ReadLine,
            Testing::RunScript { program, .. } => Ask::Launch(program.copy()),
        }
    }

    /// The state that an answer leads to, and what is said on the way.
    #[verifier::spinoff_prover]
    #[verifier::rlimit(40)]
    pub fn advance(self, answer: Answer) -> (n: (Testing, Vec<Line>))
        ensures
            (n.0@, dialog::said(n.1@)) == next(self@, answer@),
    {
        match answer {
            Answer::Text(content) => hear_text(self, content),
            Answer::Known(registry) => hear_registry(self, registry),
            Answer::Scanned(entries) => hear_entries(self, entries),
            Answer::Flag(b) => hear_flag(self, b),
            Answer::Done(done) => hear_done(self, done),
            Answer::Compiled(result) => hear_compilation(self, result),
            Answer::Captured(result) => hear_output(self, result),
            Answer::Exited(end) => hear_exit(self, end),
            Answer::Seconds(n) => hear_seconds(self, n),
            Answer::Nanos(n) => hear_nanos(self, n),
            Answer::NextLine(line) => hear_line(self, line),
            _ => go_on(self),
        }
    }
}

} // verus!
