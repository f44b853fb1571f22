//! What holds of every evaluation.

use crate::artifacts;
use crate::compose;
use crate::comptime;
use crate::comptime::Pass;
use crate::dialog;
use crate::dialog::{
    AnswerView, AskView, CompilationView, LineView, OutputView, PlaceView, ProgramView,
    SourceEntryView,
};
use crate::list;
use crate::registry::EntryView;
use crate::run;
use crate::testing;
use crate::testing::{JobView, TestingView};
use vstd::prelude::*;

verus! {

// ---- when there is an evaluation

/// There is an evaluation if and only if it is due: a source file is newer than
/// the last one, or there are no results.
pub proof fn evaluates_what_is_stale(
    job: JobView,
    latest: u64,
    stamp: Result<Seq<char>, Seq<char>>,
    has_results: bool,
)
    ensures
        ({
            let s1 = testing::next(
                TestingView::ReadStamp { job, latest },
                AnswerView::Text(stamp),
            ).0;
            let s2 = if s1 is FindResults {
                testing::next(s1, AnswerView::Flag(has_results)).0
            } else {
                s1
            };
            s2 == if comptime::is_stale(latest, comptime::stamp_in(stamp), has_results) {
                testing::evaluate(job)
            } else {
                testing::proceed(job)
            }
        }),
{
}

/// The time that is found never goes down while the sources are gone through,
/// and no source file that was seen is newer.
pub proof fn no_source_is_overlooked(
    job: JobView,
    stack: Seq<Seq<char>>,
    latest: u64,
    entries: Seq<SourceEntryView>,
    i: int,
)
    requires
        0 <= i < entries.len(),
    ensures
        ({
            let found = match testing::after_scan(job, stack, latest, Some(entries)) {
                TestingView::Scan { latest: l, .. } => l,
                TestingView::ReadStamp { latest: l, .. } => l,
                _ => 0,
            };
            &&& latest <= found
            &&& !entries[i].is_dir && artifacts::has_extension(entries[i].name, "rs"@)
                && entries[i].modified is Some ==> entries[i].modified->0 <= found
        }),
{
    comptime::latest_is_the_maximum(latest, entries);
}

/// Every directory among the sources is gone through: it is the next one, or
/// waits on the stack.
pub proof fn no_directory_is_overlooked(
    job: JobView,
    stack: Seq<Seq<char>>,
    latest: u64,
    entries: Seq<SourceEntryView>,
    i: int,
)
    requires
        0 <= i < entries.len(),
        entries[i].is_dir,
    ensures
        match testing::after_scan(job, stack, latest, Some(entries)) {
            TestingView::Scan { stack: rest, at, .. } => at == entries[i].path || rest.contains(
                entries[i].path,
            ),
            _ => false,
        },
{
    lemma_dirs(entries, i);
    let dirs = comptime::dirs_among(entries);
    let all = stack + dirs;
    let k = choose|k: int| 0 <= k < dirs.len() && dirs[k] == entries[i].path;
    assert(all[stack.len() + k] == entries[i].path);
    if stack.len() + k < all.len() - 1 {
        assert(all.drop_last()[stack.len() + k] == entries[i].path);
    }
}

proof fn lemma_dirs(entries: Seq<SourceEntryView>, i: int)
    requires
        0 <= i < entries.len(),
        entries[i].is_dir,
    ensures
        comptime::dirs_among(entries).contains(entries[i].path),
    decreases entries.len(),
{
    let front = entries.drop_last();
    let before = comptime::dirs_among(front);
    let all = comptime::dirs_among(entries);
    if i < front.len() {
        lemma_dirs(front, i);
        assert(front[i] == entries[i]);
        let k = choose|k: int| 0 <= k < before.len() && before[k] == entries[i].path;
        assert(all[k] == before[k]);
    } else {
        assert(all.last() == entries[i].path);
    }
}

// ---- what an evaluation keeps to

/// Whether a state is one in which tests are run, in pass `pass`.
pub open spec fn runs_tests(s: TestingView, pass: Pass) -> bool {
    match s {
        TestingView::CargoTry { pass: p, .. } => p == pass,
        TestingView::BenchTry { bench, .. } => bench.pass == pass,
        _ => false,
    }
}

/// Tests that want to be run again are run again, after a pause, and nothing is
/// said of it. With `cargo` and in one pass, that holds of tests that fail.
pub proof fn unsettled_tests_are_repeated(s: TestingView, pass: Pass, o: OutputView)
    requires
        runs_tests(s, pass),
        comptime::is_unsettled(pass, o),
        s is CargoTry && pass == Pass::Single ==> !dialog::succeeded(o.code),
    ensures
        ({
            let n = testing::next(s, AnswerView::Captured(Ok(o)));
            &&& n.1.len() == 0
            &&& runs_tests(n.0, pass)
            &&& testing::question(n.0) == (AskView::Capture {
                program: testing::question(s)->program,
                pause: true,
            })
        }),
{
}

/// Whether a state with an answer ends an evaluation well: tests were run in the
/// only pass or in the second one, and do not want to be run again; with `cargo`
/// and in one pass, they have succeeded.
pub open spec fn settles(s: TestingView, a: AnswerView) -> bool {
    match a {
        AnswerView::Captured(Ok(o)) => match s {
            TestingView::CargoTry { pass, .. } => match pass {
                Pass::Single => dialog::succeeded(o.code),
                Pass::Raw => false,
                Pass::Ready => !comptime::is_unsettled(pass, o),
            },
            TestingView::BenchTry { bench, .. } => bench.pass != Pass::Raw
                && !comptime::is_unsettled(bench.pass, o),
            _ => false,
        },
        _ => false,
    }
}

/// The state after answers.
pub open spec fn after(s: TestingView, answers: Seq<AnswerView>) -> TestingView
    decreases answers.len(),
{
    if answers.len() == 0 {
        s
    } else {
        testing::next(after(s, answers.drop_last()), answers.last()).0
    }
}

/// Whether an evaluation has ended well on the way.
pub open spec fn has_settled(s: TestingView, answers: Seq<AnswerView>) -> bool {
    exists|i: int|
        0 <= i < answers.len() && settles(after(s, answers.take(i)), #[trigger] answers[i])
}

proof fn lemma_has_settled_before(s: TestingView, answers: Seq<AnswerView>)
    requires
        answers.len() > 0,
        has_settled(s, answers.drop_last()),
    ensures
        has_settled(s, answers),
{
    let front = answers.drop_last();
    let i = choose|i: int|
        0 <= i < front.len() && settles(after(s, front.take(i)), #[trigger] front[i]);
    assert(front.take(i) == answers.take(i));
    assert(answers[i] == front[i]);
}

/// Whether a state is one on the way from the end of an evaluation to the time
/// that is stored.
pub open spec fn stores_time(s: TestingView) -> bool {
    s is AskTime || s is MakeTarget || s is WriteStamp
}

proof fn lemma_stores_time(s: TestingView, answers: Seq<AnswerView>)
    requires
        !stores_time(s),
    ensures
        stores_time(after(s, answers)) ==> has_settled(s, answers),
    decreases answers.len(),
{
    if answers.len() > 0 {
        let front = answers.drop_last();
        lemma_stores_time(s, front);
        let before = after(s, front);
        assert(answers.take(answers.len() - 1) == front);
        assert(answers[answers.len() - 1] == answers.last());
        if stores_time(before) {
            lemma_has_settled_before(s, answers);
        } else if stores_time(after(s, answers)) {
            lemma_enters(before, answers.last());
            assert(settles(after(s, answers.take(answers.len() - 1)), answers[answers.len() - 1]));
        }
    }
}

proof fn lemma_enters(s: TestingView, a: AnswerView)
    requires
        !stores_time(s),
        stores_time(testing::next(s, a).0),
    ensures
        settles(s, a),
{
}

/// Whatever the answers, the time of an evaluation is stored only after the tests
/// have been run and have settled. So one that fails is due again.
pub proof fn stores_the_time_of_settled_tests_only(
    args: Seq<Seq<char>>,
    windows: bool,
    answers: Seq<AnswerView>,
)
    requires
        testing::question(after(testing::first(args, windows).0, answers)) matches AskView::Write {
            place,
            ..
        } && place == PlaceView::Path(comptime::CACHE_FILE@),
    ensures
        has_settled(testing::first(args, windows).0, answers),
{
    let s = testing::first(args, windows).0;
    lemma_stores_time(s, answers);
    reveal_strlit("comptime.config");
    reveal_strlit("target/.comptime_last_test");
    assert("comptime.config"@[0] == 'c');
    assert(comptime::CACHE_FILE@[0] == 't');
}

/// Of two passes the second follows the first, whatever the tests of the first
/// have come to, once they do not want to be run again.
pub proof fn second_pass_follows(s: TestingView, o: OutputView)
    requires
        runs_tests(s, Pass::Raw),
        !comptime::is_unsettled(Pass::Raw, o),
    ensures
        match testing::next(s, AnswerView::Captured(Ok(o))).0 {
            TestingView::CargoCompile { pass, .. } => s is CargoTry && pass == Pass::Ready,
            TestingView::BenchCompile(b) => s is BenchTry && b.pass == Pass::Ready,
            _ => false,
        },
{
}

/// Of two passes, and with the compiler itself, only what the tests print counts:
/// the exit code of a test program makes no difference.
pub proof fn exit_codes_of_tests_do_not_count(
    s: TestingView,
    pass: Pass,
    o: OutputView,
    code: Option<i32>,
)
    requires
        runs_tests(s, pass),
        s is BenchTry || pass != Pass::Single,
    ensures
        testing::next(s, AnswerView::Captured(Ok(OutputView { code, ..o }))) == testing::next(
            s,
            AnswerView::Captured(Ok(o)),
        ),
{
}

/// Whether the exit code of the tests that a state runs makes no difference.
pub open spec fn ignores_codes(s: TestingView) -> bool {
    match s {
        TestingView::CargoTry { pass, .. } => pass != Pass::Single,
        TestingView::BenchTry { .. } => true,
        _ => false,
    }
}

/// Whether two answers are outputs that differ in the exit code at most.
pub open spec fn same_but_code(a: AnswerView, b: AnswerView) -> bool {
    match (a, b) {
        (AnswerView::Captured(Ok(o)), AnswerView::Captured(Ok(p))) => o.out == p.out && o.err
            == p.err,
        _ => false,
    }
}

/// Whether two histories of answers differ only in the exit codes of tests whose
/// exit codes make no difference.
pub open spec fn same_but_test_codes(
    s: TestingView,
    a: Seq<AnswerView>,
    b: Seq<AnswerView>,
) -> bool {
    &&& a.len() == b.len()
    &&& forall|i: int|
        0 <= i < a.len() ==> #[trigger] a[i] == b[i] || (ignores_codes(after(s, a.take(i)))
            && same_but_code(a[i], b[i]))
}

/// Of two passes, and with the compiler itself, the exit codes of the tests make no
/// difference to a whole evaluation: where two histories of answers differ in
/// nothing else, they lead to the same state and so to the same question, and the
/// same is said after every answer.
pub proof fn exit_codes_of_tests_never_count(
    s: TestingView,
    a: Seq<AnswerView>,
    b: Seq<AnswerView>,
)
    requires
        same_but_test_codes(s, a, b),
    ensures
        after(s, a) == after(s, b),
        testing::question(after(s, a)) == testing::question(after(s, b)),
        a.len() > 0 ==> testing::next(after(s, a.drop_last()), a.last()).1 == testing::next(
            after(s, b.drop_last()),
            b.last(),
        ).1,
    decreases a.len(),
{
    if a.len() > 0 {
        let n = a.len() - 1;
        let front = a.drop_last();
        let other = b.drop_last();
        assert forall|i: int| 0 <= i < front.len() implies #[trigger] front[i] == other[i] || (
        ignores_codes(after(s, front.take(i))) && same_but_code(front[i], other[i])) by {
            assert(front.take(i) =~= a.take(i));
            assert(a[i] == front[i] && b[i] == other[i]);
        }
        exit_codes_of_tests_never_count(s, front, other);
        assert(a.take(n) =~= front);
        assert(a[n] == a.last() && b[n] == b.last());
        if a[n] != b[n] {
            let before = after(s, front);
            if let AnswerView::Captured(Ok(o)) = a[n] {
                if let AnswerView::Captured(Ok(p)) = b[n] {
                    assert(p == OutputView { code: p.code, ..o });
                    let pass = match before {
                        TestingView::CargoTry { pass, .. } => pass,
                        TestingView::BenchTry { bench, .. } => bench.pass,
                        _ => Pass::Single,
                    };
                    exit_codes_of_tests_do_not_count(before, pass, o, p.code);
                }
            }
        }
    }
}

// ---- what is done with the flags

/// The job of a state.
pub open spec fn job_in(s: TestingView) -> Option<JobView> {
    match s {
        TestingView::ReadFlags(job) => Some(job),
        TestingView::LoadFlags { job, .. } => Some(job),
        TestingView::Scan { job, .. } => Some(job),
        TestingView::ReadStamp { job, .. } => Some(job),
        TestingView::FindResults { job, .. } => Some(job),
        TestingView::CargoCompile { job, .. } => Some(job),
        TestingView::CargoTry { job, .. } => Some(job),
        TestingView::BenchFlags(job) => Some(job),
        TestingView::BenchLoad { job, .. } => Some(job),
        TestingView::BenchFindLib(b) => Some(b.job),
        TestingView::BenchMakeDirs(b) => Some(b.job),
        TestingView::BenchCompile(b) => Some(b.job),
        TestingView::BenchFindPath(b) => Some(b.job),
        TestingView::BenchTry { bench, .. } => Some(bench.job),
        TestingView::AskTime(job) => Some(job),
        TestingView::MakeTarget { job, .. } => Some(job),
        TestingView::WriteStamp { job, .. } => Some(job),
        TestingView::AskNonce(job) => Some(job),
        TestingView::LaunchCargo { job, .. } => Some(job),
        TestingView::FindScript(job) => Some(job),
        TestingView::OpenScript(job) => Some(job),
        _ => None,
    }
}

/// Whether the job of a state, if there is one, is that of an earlier state.
pub open spec fn keeps_job(s: TestingView, n: TestingView) -> bool {
    job_in(n) is Some ==> job_in(n) == job_in(s)
}

proof fn lemma_kept_on_text(s: TestingView, content: Result<Seq<char>, Seq<char>>)
    requires
        s !is ReadFlags,
        s !is LoadFlags,
    ensures
        keeps_job(s, testing::on_text(s, content).0),
{
}

proof fn lemma_kept_on_registry(s: TestingView, m: Map<Seq<char>, EntryView>)
    requires
        s !is ReadFlags,
        s !is LoadFlags,
    ensures
        keeps_job(s, testing::on_registry(s, m).0),
{
}

proof fn lemma_kept_on_entries(s: TestingView, entries: Option<Seq<SourceEntryView>>)
    requires
        s !is ReadFlags,
        s !is LoadFlags,
    ensures
        keeps_job(s, testing::on_entries(s, entries).0),
{
}

proof fn lemma_kept_on_flag(s: TestingView, b: bool)
    requires
        s !is ReadFlags,
        s !is LoadFlags,
    ensures
        keeps_job(s, testing::on_flag(s, b).0),
{
}

proof fn lemma_kept_on_done(s: TestingView, done: Result<(), Seq<char>>)
    requires
        s !is ReadFlags,
        s !is LoadFlags,
    ensures
        keeps_job(s, testing::on_done(s, done).0),
{
}

proof fn lemma_kept_on_compilation(s: TestingView, result: Result<CompilationView, Seq<char>>)
    requires
        s !is ReadFlags,
        s !is LoadFlags,
    ensures
        keeps_job(s, testing::on_compilation(s, result).0),
{
}

proof fn lemma_kept_on_output(s: TestingView, result: Result<OutputView, Seq<char>>)
    requires
        s !is ReadFlags,
        s !is LoadFlags,
    ensures
        keeps_job(s, testing::on_output(s, result).0),
{
}

proof fn lemma_kept_on_exit(s: TestingView, end: Result<Option<i32>, Seq<char>>)
    requires
        s !is ReadFlags,
        s !is LoadFlags,
    ensures
        keeps_job(s, testing::on_exit(s, end).0),
{
}

/// Once its flags are known, a job is kept to the end.
pub proof fn job_is_kept(s: TestingView, a: AnswerView)
    requires
        s !is ReadFlags,
        s !is LoadFlags,
    ensures
        keeps_job(s, testing::next(s, a).0),
{
    match a {
        AnswerView::Text(content) => lemma_kept_on_text(s, content),
        AnswerView::Known(m) => lemma_kept_on_registry(s, m),
        AnswerView::Scanned(entries) => lemma_kept_on_entries(s, entries),
        AnswerView::Flag(b) => lemma_kept_on_flag(s, b),
        AnswerView::Done(done) => lemma_kept_on_done(s, done),
        AnswerView::Compiled(result) => lemma_kept_on_compilation(s, result),
        AnswerView::Captured(result) => lemma_kept_on_output(s, result),
        AnswerView::Exited(end) => lemma_kept_on_exit(s, end),
        _ => {},
    }
}

/// The flags of a job are those of the libraries of its list file that are in the
/// registry, and `cargo` gets them.
pub proof fn cargo_gets_the_flags(
    job: JobView,
    content: Seq<char>,
    m: Map<Seq<char>, EntryView>,
    nonce: u128,
)
    ensures
        ({
            let s1 = testing::next(
                TestingView::ReadFlags(job),
                AnswerView::Text(Ok(content)),
            ).0;
            let s2 = testing::next(s1, AnswerView::Known(m)).0;
            let flags = compose::joined(run::library_words(list::active(content), m), " "@);
            &&& job_in(s2) == Some(JobView { flags, ..job })
            &&& testing::final_cargo(job_in(s2)->0, nonce).env.contains(("RUSTFLAGS"@, flags))
        }),
{
    let s1 = testing::next(TestingView::ReadFlags(job), AnswerView::Text(Ok(content))).0;
    let s2 = testing::next(s1, AnswerView::Known(m)).0;
    let p = testing::final_cargo(job_in(s2)->0, nonce);
    assert(p.env[1].0 == "RUSTFLAGS"@);
    assert(p.env.contains(p.env[1]));
}

// ---- how it ends

/// The exit code of the last command of `cargo` is passed on.
pub proof fn exit_code_is_passed_on(job: JobView, nonce: u128, code: i32)
    ensures
        testing::next(
            TestingView::LaunchCargo { job, nonce },
            AnswerView::Exited(Ok(Some(code))),
        ) == (TestingView::Stopped(code), Seq::<LineView>::empty()),
{
}

/// A script goes on with its next line if and only if a command has succeeded,
/// and ends with the exit code of the first one that has not.
pub proof fn script_stops_at_the_first_failure(
    line: Seq<char>,
    program: ProgramView,
    code: i32,
)
    ensures
        testing::next(
            TestingView::RunScript { line, program },
            AnswerView::Exited(Ok(Some(code))),
        ).0 == (if code == 0 {
            TestingView::ReadScript
        } else {
            TestingView::Stopped(code)
        }),
{
}

/// How far a state is along the way.
pub open spec fn rank(s: TestingView) -> int {
    match s {
        TestingView::WriteTemplate => 0,
        TestingView::ReadFlags(_) => 0,
        TestingView::LoadFlags { .. } => 1,
        TestingView::Scan { .. } => 2,
        TestingView::ReadStamp { .. } => 3,
        TestingView::FindResults { .. } => 4,
        TestingView::BenchFlags(_) => 5,
        TestingView::BenchLoad { .. } => 6,
        TestingView::BenchFindLib(_) => 7,
        TestingView::BenchMakeDirs(_) => 8,
        TestingView::CargoCompile { pass, .. } => if pass == Pass::Ready {
            12
        } else {
            9
        },
        TestingView::BenchCompile(b) => if b.pass == Pass::Ready {
            12
        } else {
            9
        },
        TestingView::BenchFindPath(_) => 10,
        TestingView::CargoTry { pass, .. } => if pass == Pass::Ready {
            13
        } else {
            11
        },
        TestingView::BenchTry { bench, .. } => if bench.pass == Pass::Ready {
            13
        } else {
            11
        },
        TestingView::AskTime(_) => 14,
        TestingView::MakeTarget { .. } => 15,
        TestingView::WriteStamp { .. } => 16,
        TestingView::AskNonce(_) => 17,
        TestingView::LaunchCargo { .. } => 18,
        TestingView::FindScript(_) => 17,
        TestingView::OpenScript(_) => 18,
        TestingView::ReadScript => 19,
        TestingView::RunScript { .. } => 19,
        TestingView::CargoComplain(_) => 20,
        TestingView::Broken(_) => 21,
        TestingView::Stopped(_) => 21,
    }
}

/// Whether `n` is a state that may follow `s`: a later one, or one in the same of
/// three loops, through the directories of the sources, over tests that want to
/// be run again, and over the lines of a script.
pub open spec fn is_forward(s: TestingView, n: TestingView) -> bool {
    ||| rank(s) < rank(n)
    ||| s is Scan && n is Scan
    ||| s is CargoTry && n is CargoTry && rank(s) == rank(n)
    ||| s is BenchTry && n is BenchTry && rank(s) == rank(n)
    ||| (s is ReadScript || s is RunScript) && (n is ReadScript || n is RunScript)
}

proof fn lemma_forward_on_text(s: TestingView, content: Result<Seq<char>, Seq<char>>)
    requires
        dialog::fits(testing::question(s), AnswerView::Text(content)),
    ensures
        is_forward(s, testing::on_text(s, content).0),
{
}

proof fn lemma_forward_on_registry(s: TestingView, m: Map<Seq<char>, EntryView>)
    requires
        dialog::fits(testing::question(s), AnswerView::Known(m)),
    ensures
        is_forward(s, testing::on_registry(s, m).0),
{
}

proof fn lemma_forward_on_entries(s: TestingView, entries: Option<Seq<SourceEntryView>>)
    requires
        dialog::fits(testing::question(s), AnswerView::Scanned(entries)),
    ensures
        is_forward(s, testing::on_entries(s, entries).0),
{
}

proof fn lemma_forward_on_flag(s: TestingView, b: bool)
    requires
        dialog::fits(testing::question(s), AnswerView::Flag(b)),
    ensures
        is_forward(s, testing::on_flag(s, b).0),
{
}

proof fn lemma_forward_on_done(s: TestingView, done: Result<(), Seq<char>>)
    requires
        dialog::fits(testing::question(s), AnswerView::Done(done)),
    ensures
        is_forward(s, testing::on_done(s, done).0),
{
}

proof fn lemma_forward_on_compilation(s: TestingView, result: Result<CompilationView, Seq<char>>)
    requires
        dialog::fits(testing::question(s), AnswerView::Compiled(result)),
    ensures
        is_forward(s, testing::on_compilation(s, result).0),
{
}

proof fn lemma_forward_on_output(s: TestingView, result: Result<OutputView, Seq<char>>)
    requires
        dialog::fits(testing::question(s), AnswerView::Captured(result)),
    ensures
        is_forward(s, testing::on_output(s, result).0),
{
}

proof fn lemma_forward_on_exit(s: TestingView, end: Result<Option<i32>, Seq<char>>)
    requires
        dialog::fits(testing::question(s), AnswerView::Exited(end)),
    ensures
        is_forward(s, testing::on_exit(s, end).0),
{
}

/// Every answer leads forward, but for the three loops.
pub proof fn goes_forward(s: TestingView, a: AnswerView)
    requires
        dialog::fits(testing::question(s), a),
    ensures
        is_forward(s, testing::next(s, a).0),
{
    match a {
        AnswerView::Text(content) => lemma_forward_on_text(s, content),
        AnswerView::Known(m) => lemma_forward_on_registry(s, m),
        AnswerView::Scanned(entries) => lemma_forward_on_entries(s, entries),
        AnswerView::Flag(b) => lemma_forward_on_flag(s, b),
        AnswerView::Done(done) => lemma_forward_on_done(s, done),
        AnswerView::Compiled(result) => lemma_forward_on_compilation(s, result),
        AnswerView::Captured(result) => lemma_forward_on_output(s, result),
        AnswerView::Exited(end) => lemma_forward_on_exit(s, end),
        _ => {},
    }
}

} // verus!
