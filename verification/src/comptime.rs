//! The rules for evaluating a project at compile time: when to do it again,
//! how its tests are compiled and run, and when a run is repeated.

use crate::artifacts;
use crate::compose;
use crate::config;
use crate::dialog;
use crate::dialog::{
    Output, OutputView, Program, ProgramView, SourceEntry, SourceEntryView,
};
use crate::request;
use crate::search;
use crate::text;
use vstd::prelude::*;
use vstd::slice::slice_subrange;
use vstd::string::*;

verus! {

/// Where the time of the last evaluation is kept.
pub const CACHE_FILE: &'static str = "target/.comptime_last_test";

/// What `comptime init config` writes.
pub const COMPTIME_TEMPLATE: &'static str =
    "# Add your custom commands below\ncargo build --release\n";

// ---- when to evaluate

/// Whether the project is to be evaluated: its sources are newer than the last
/// evaluation, or there are no results.
pub open spec fn is_stale(latest_source: u64, last_test: u64, has_results: bool) -> bool {
    latest_source > last_test || !has_results
}

/// Whether the project is to be evaluated.
pub fn needs_retest(latest_source: u64, last_test: u64, has_results: bool) -> (r: bool)
    ensures
        r == is_stale(latest_source, last_test, has_results),
{
    if latest_source > last_test {
        return true;
    }
    !has_results
}

/// The time of the last evaluation that a file holds; 0 where it holds none.
pub open spec fn stamp_in(content: Result<Seq<char>, Seq<char>>) -> u64 {
    match content {
        Ok(s) => match compose::number_in(text::trimmed(s)) {
            Some(n) => n,
            None => 0,
        },
        Err(_) => 0,
    }
}

/// The time of the last evaluation that a file holds.
pub fn last_test_timestamp(content: &Result<String, String>) -> (r: u64)
    ensures
        r == stamp_in(dialog::text_result(*content)),
{
    match content {
        Ok(s) => {
            let source = text::chars_of(s.as_str());
            match compose::parse_number(text::trim(source.as_slice())) {
                Some(n) => n,
                None => 0,
            }
        },
        Err(_) => 0,
    }
}

/// The time that is stored is the time that is read back.
pub proof fn stored_time_is_read_back(now: u64)
    ensures
        stamp_in(Ok(compose::decimal(now as nat))) == now,
{
    let s = compose::decimal(now as nat);
    compose::decimal_is_read_back(now);
    compose::lemma_decimal(now as nat);
    assert(compose::is_digit(s[0]) && compose::is_digit(s[s.len() - 1]));
    assert(!text::white(s[0]) && !text::white(s.last()));
    assert(text::trimmed(s) == s);
}

/// The latest modification of a source file among entries, or `latest` if none
/// is later.
pub open spec fn latest_among(latest: u64, entries: Seq<SourceEntryView>) -> u64
    decreases entries.len(),
{
    if entries.len() == 0 {
        latest
    } else {
        let before = latest_among(latest, entries.drop_last());
        let e = entries.last();
        if !e.is_dir && artifacts::has_extension(e.name, "rs"@) {
            match e.modified {
                Some(t) => if t > before {
                    t
                } else {
                    before
                },
                None => before,
            }
        } else {
            before
        }
    }
}

/// The directories among entries.
pub open spec fn dirs_among(entries: Seq<SourceEntryView>) -> Seq<Seq<char>>
    decreases entries.len(),
{
    if entries.len() == 0 {
        seq![]
    } else if entries.last().is_dir {
        dirs_among(entries.drop_last()).push(entries.last().path)
    } else {
        dirs_among(entries.drop_last())
    }
}

/// Goes through the entries of a source directory: the latest modification of
/// a source file, and the directories, which are added to `stack`.
pub fn latest_src_mtime(latest: u64, entries: &Vec<SourceEntry>, stack: &mut Vec<String>) -> (r:
    u64)
    ensures
        r == latest_among(latest, dialog::sources(entries@)),
        text::texts(final(stack)@) == text::texts(old(stack)@) + dirs_among(
            dialog::sources(entries@),
        ),
{
    let ghost all = dialog::sources(entries@);
    let ghost before = text::texts(stack@);
    let mut found: u64 = latest;
    let mut i: usize = 0;
    assert(all.take(0) =~= Seq::<SourceEntryView>::empty());
    assert(before + dirs_among(all.take(0)) =~= before);
    while i < entries.len()
        invariant
            i <= entries@.len(),
            all == dialog::sources(entries@),
            found == latest_among(latest, all.take(i as int)),
            text::texts(stack@) == before + dirs_among(all.take(i as int)),
        decreases entries@.len() - i,
    {
        let e = &entries[i];
        proof {
            assert(all.take(i + 1).drop_last() =~= all.take(i as int));
            assert(all.take(i + 1).last() == e@);
        }
        if e.is_dir {
            request::add_text(stack, e.path.as_str());
            assert(text::texts(stack@) =~= before + dirs_among(all.take(i + 1)));
        } else if artifacts::extension_is(e.name.as_str(), "rs") {
            if let Some(t) = e.modified {
                if t > found {
                    found = t;
                }
            }
        }
        i += 1;
    }
    assert(all.take(entries@.len() as int) =~= all);
    found
}

/// The time that is found is that of one of the source files or the one before,
/// and no source file is later.
pub proof fn latest_is_the_maximum(latest: u64, entries: Seq<SourceEntryView>)
    ensures
        latest <= latest_among(latest, entries),
        forall|i: int|
            0 <= i < entries.len() && !(#[trigger] entries[i]).is_dir && artifacts::has_extension(
                entries[i].name,
                "rs"@,
            ) && entries[i].modified is Some ==> entries[i].modified->0 <= latest_among(
                latest,
                entries,
            ),
        latest_among(latest, entries) == latest || exists|i: int|
            0 <= i < entries.len() && !(#[trigger] entries[i]).is_dir && artifacts::has_extension(
                entries[i].name,
                "rs"@,
            ) && entries[i].modified == Some(latest_among(latest, entries)),
    decreases entries.len(),
{
    if entries.len() > 0 {
        let front = entries.drop_last();
        latest_is_the_maximum(latest, front);
        assert forall|i: int|
            0 <= i < entries.len() && !(#[trigger] entries[i]).is_dir && artifacts::has_extension(
                entries[i].name,
                "rs"@,
            ) && entries[i].modified is Some implies entries[i].modified->0 <= latest_among(
            latest,
            entries,
        ) by {
            if i < front.len() {
                assert(front[i] == entries[i]);
            }
        }
        let found = latest_among(latest, entries);
        if found == latest_among(latest, front) {
            if found != latest {
                let i = choose|i: int|
                    0 <= i < front.len() && !(#[trigger] front[i]).is_dir
                        && artifacts::has_extension(front[i].name, "rs"@) && front[i].modified
                        == Some(found);
                assert(entries[i] == front[i]);
            }
        } else {
            assert(entries[entries.len() - 1].modified == Some(found));
        }
    }
}

// ---- the test program

/// The program that a message of the compiler names, if it names one.
pub open spec fn executable_in(line: Seq<char>) -> Option<Seq<char>> {
    let key = "\"executable\":\""@;
    if line.len() > 0 && line[0] == '{' && search::occurs(line, key) {
        let rest = line.skip(search::first_at(line, key) + key.len());
        let end = text::find_char(rest, '"');
        if 0 < end < rest.len() {
            Some(search::unescaped(rest.take(end)))
        } else {
            None
        }
    } else {
        None
    }
}

/// The program that the last of the messages that name one names.
pub open spec fn last_executable(lines: Seq<Seq<char>>) -> Option<Seq<char>>
    decreases lines.len(),
{
    if lines.len() == 0 {
        None
    } else {
        match executable_in(lines.last()) {
            Some(p) => Some(p),
            None => last_executable(lines.drop_last()),
        }
    }
}

/// The program that a message of the compiler names, if it names one.
pub fn read_executable(line: &str) -> (r: Option<String>)
    ensures
        request::opt_text(r) == executable_in(line@),
{
    let source = text::chars_of(line);
    let s = source.as_slice();
    let n: usize = s.len();
    if n == 0 || s[0] != '{' {
        return None;
    }
    let key = "\"executable\":\"";
    match search::find(s, key) {
        None => None,
        Some(i) => {
            let rest = search::skip_text(s, i, key);
            assert(rest@.skip(0) =~= rest@);
            let end: usize = text::find_char_from(rest, '"', 0);
            if 0 < end && end < rest.len() {
                assert(rest@.subrange(0, end as int) =~= rest@.take(end as int));
                Some(search::unescape(slice_subrange(rest, 0, end)))
            } else {
                None
            }
        },
    }
}

/// The program that the last of the messages that name one names.
pub fn find_executable(lines: &Vec<String>) -> (r: Option<String>)
    ensures
        request::opt_text(r) == last_executable(text::texts(lines@)),
{
    let ghost all = text::texts(lines@);
    let mut i: usize = lines.len();
    assert(all.take(lines@.len() as int) =~= all);
    while i > 0
        invariant
            i <= lines@.len(),
            all == text::texts(lines@),
            last_executable(all) == last_executable(all.take(i as int)),
        decreases i,
    {
        proof {
            assert(all.take(i as int).drop_last() =~= all.take(i - 1));
            assert(all.take(i as int).last() == lines@[i - 1]@);
        }
        if let Some(p) = read_executable(lines[i - 1].as_str()) {
            return Some(p);
        }
        i -= 1;
    }
    None
}

// ---- when a run is repeated

/// A run of the tests: on its own, or the first or the second of two.
#[derive(Debug, PartialEq, Eq, Structural, Clone, Copy)]
pub enum Pass {
    Single,
    Raw,
    Ready,
}

/// Whether a program has printed a text.
pub open spec fn printed(o: OutputView, s: Seq<char>) -> bool {
    search::occurs(o.out, s) || search::occurs(o.err, s)
}

/// Whether the tests are to be run again: they tell that a result that they need
/// is not there yet.
pub open spec fn is_unsettled(pass: Pass, o: OutputView) -> bool {
    match pass {
        Pass::Single => printed(o, "comptime error: output not found yet"@) || printed(
            o,
            "ParseIntError"@,
        ),
        Pass::Raw => printed(o, "comptime error: raw output not found yet"@),
        Pass::Ready => printed(o, "comptime error: output not found yet"@) || printed(
            o,
            "comptime error: raw output not found yet"@,
        ) || printed(o, "ParseIntError"@),
    }
}

fn has_printed(o: &Output, s: &str) -> (r: bool)
    ensures
        r == printed(o@, s@),
{
    search::contains_str(o.out.as_str(), s) || search::contains_str(o.err.as_str(), s)
}

/// Whether the tests are to be run again.
pub fn must_repeat(pass: Pass, o: &Output) -> (r: bool)
    ensures
        r == is_unsettled(pass, o@),
{
    match pass {
        Pass::Single => has_printed(o, "comptime error: output not found yet") || has_printed(
            o,
            "ParseIntError",
        ),
        Pass::Raw => has_printed(o, "comptime error: raw output not found yet"),
        Pass::Ready => has_printed(o, "comptime error: output not found yet") || has_printed(
            o,
            "comptime error: raw output not found yet",
        ) || has_printed(o, "ParseIntError"),
    }
}

// ---- the programs

/// A program of `cargo`; for the second of two passes the code is told that the
/// results of the first are there.
pub open spec fn cargo_program(args: Seq<Seq<char>>, pass: Pass) -> ProgramView {
    let p = dialog::plain_program("cargo"@, args, None);
    if pass == Pass::Ready {
        dialog::with_variable(p, "RUSTFLAGS"@, "--cfg comptime_ready"@)
    } else {
        p
    }
}

/// The program that compiles the tests and tells where they are.
pub open spec fn compile_tests(pass: Pass) -> ProgramView {
    cargo_program(
        seq![
            "test"@,
            "--features=comptime"@,
            "--no-run"@,
            "--message-format=json"@,
            "--profile=dev"@,
            "--"@,
            "--no-capture"@,
        ],
        pass,
    )
}

/// The program that shows why the tests do not compile.
pub open spec fn show_errors(pass: Pass) -> ProgramView {
    cargo_program(
        seq![
            "test"@,
            "--features=comptime"@,
            "--no-run"@,
            "--profile=dev"@,
            "--"@,
            "--no-capture"@,
        ],
        pass,
    )
}

/// The program that shows why there are no tests.
pub open spec fn show_tests(pass: Pass) -> ProgramView {
    cargo_program(seq!["test"@, "--features=comptime"@, "--no-run"@], pass)
}

fn make_cargo_program(args: Vec<String>, pass: Pass) -> (r: Program)
    ensures
        r@ == cargo_program(text::texts(args@), pass),
{
    let mut p = dialog::program("cargo", args, None);
    match pass {
        Pass::Ready => {
            dialog::set_variable(&mut p, "RUSTFLAGS", "--cfg comptime_ready");
        },
        _ => {},
    }
    p
}

fn test_args() -> (r: Vec<String>)
    ensures
        text::texts(r@) == seq!["test"@, "--features=comptime"@, "--no-run"@],
{
    let mut r: Vec<String> = Vec::new();
    request::add_text(&mut r, "test");
    request::add_text(&mut r, "--features=comptime");
    request::add_text(&mut r, "--no-run");
    assert(text::texts(r@) =~= seq!["test"@, "--features=comptime"@, "--no-run"@]);
    r
}

/// The program that compiles the tests and tells where they are.
pub fn compile_tests_program(pass: Pass) -> (r: Program)
    ensures
        r@ == compile_tests(pass),
{
    let mut args = test_args();
    request::add_text(&mut args, "--message-format=json");
    request::add_text(&mut args, "--profile=dev");
    request::add_text(&mut args, "--");
    request::add_text(&mut args, "--no-capture");
    let r = make_cargo_program(args, pass);
    assert(r@.args =~= compile_tests(pass).args);
    r
}

/// The program that shows why the tests do not compile.
pub fn show_errors_program(pass: Pass) -> (r: Program)
    ensures
        r@ == show_errors(pass),
{
    let mut args = test_args();
    request::add_text(&mut args, "--profile=dev");
    request::add_text(&mut args, "--");
    request::add_text(&mut args, "--no-capture");
    let r = make_cargo_program(args, pass);
    assert(r@.args =~= show_errors(pass).args);
    r
}

/// The program that shows why there are no tests.
pub fn show_tests_program(pass: Pass) -> (r: Program)
    ensures
        r@ == show_tests(pass),
{
    make_cargo_program(test_args(), pass)
}

/// The source file that the compiler starts from.
pub open spec fn test_source(has_lib: bool) -> Seq<char> {
    if has_lib {
        "src/lib.rs"@
    } else {
        "src/main.rs"@
    }
}

/// The program that the compiler makes.
pub open spec fn test_exe(windows: bool) -> Seq<char> {
    if windows {
        "target/debug/deps/comptime_test.exe"@
    } else {
        "target/debug/deps/comptime_test"@
    }
}

/// The compiler, run on the tests of a pass.
pub open spec fn compiler(
    pass: Pass,
    has_lib: bool,
    windows: bool,
    words: Seq<Seq<char>>,
) -> ProgramView {
    dialog::plain_program(
        "rustc"@,
        seq![test_source(has_lib), "--test"@] + (if pass == Pass::Ready {
            seq!["-C"@, "debuginfo=2"@]
        } else {
            seq![]
        }) + seq!["--cfg"@, "feature=\"comptime\""@] + (if pass == Pass::Ready {
            seq!["--cfg"@, "comptime_ready"@]
        } else {
            seq![]
        }) + seq!["-o"@, test_exe(windows)] + words,
        None,
    )
}

/// The name of the program that the compiler makes.
pub fn test_exe_name(windows: bool) -> (r: &'static str)
    ensures
        r@ == test_exe(windows),
{
    if windows {
        "target/debug/deps/comptime_test.exe"
    } else {
        "target/debug/deps/comptime_test"
    }
}

/// Adds the strings of a list to another.
pub fn add_texts(v: &mut Vec<String>, more: &Vec<String>)
    ensures
        text::texts(final(v)@) == text::texts(old(v)@) + text::texts(more@),
{
    let mut copy = text::copy_strings(more);
    let ghost before = text::texts(v@);
    v.append(&mut copy);
    assert(text::texts(v@) =~= before + text::texts(more@));
}

/// The compiler, run on the tests of a pass.
pub fn compiler_program(pass: Pass, has_lib: bool, windows: bool, words: &Vec<String>) -> (r:
    Program)
    ensures
        r@ == compiler(pass, has_lib, windows, text::texts(words@)),
{
    let source = if has_lib {
        "src/lib.rs"
    } else {
        "src/main.rs"
    };
    let ready = match pass {
        Pass::Ready => true,
        _ => false,
    };
    let mut args: Vec<String> = Vec::new();
    request::add_text(&mut args, source);
    request::add_text(&mut args, "--test");
    if ready {
        request::add_text(&mut args, "-C");
        request::add_text(&mut args, "debuginfo=2");
    }
    request::add_text(&mut args, "--cfg");
    request::add_text(&mut args, "feature=\"comptime\"");
    if ready {
        request::add_text(&mut args, "--cfg");
        request::add_text(&mut args, "comptime_ready");
    }
    request::add_text(&mut args, "-o");
    request::add_text(&mut args, test_exe_name(windows));
    add_texts(&mut args, words);
    let r = dialog::program("rustc", args, None);
    assert(r@.args =~= compiler(pass, has_lib, windows, text::texts(words@)).args);
    r
}

/// The path of the libraries of the compiler, given what it says of its home.
pub open spec fn library_path(home: Result<OutputView, Seq<char>>) -> Seq<char> {
    (match home {
        Ok(o) => text::trimmed(o.out),
        Err(_) => seq![],
    }) + "/lib"@
}

/// The path of the libraries of the compiler.
pub fn find_library_path(home: &Result<Output, String>) -> (r: String)
    ensures
        r@ == library_path(dialog::output_result(*home)),
{
    match home {
        Ok(o) => {
            let source = text::chars_of(o.out.as_str());
            let t = text::string_of(text::trim(source.as_slice()));
            compose::cat2(t.as_str(), "/lib")
        },
        Err(_) => {
            let r = compose::cat2("", "/lib");
            proof {
                reveal_strlit("");
                assert(""@ =~= Seq::<char>::empty());
            }
            r
        },
    }
}

/// The command of a line of a script: its words; `None` for an empty line or a
/// comment.
pub open spec fn script_command(line: Seq<char>) -> Option<Seq<Seq<char>>> {
    let t = text::trimmed(line);
    if config::says_nothing(t) {
        None
    } else {
        Some(text::words(t))
    }
}

} // verus!
