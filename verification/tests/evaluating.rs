use rlib::comptime;
use rlib::comptime::Pass;
use rlib::dialog::{Answer, Compilation, Output, SourceEntry};
use rlib::help;
use rlib::registry::{LibEntry, Registry};
use rlib::session::Session;
use rlib::testing;

fn args(v: &[&str]) -> Vec<String> {
    v.iter().map(|s| s.to_string()).collect()
}

fn play_on(words: &[&str], windows: bool, answers: Vec<Answer>) -> (Vec<String>, Vec<String>) {
    let (mut session, first) = Session::start(&args(words), false, windows);
    let mut asked = Vec::new();
    let mut said: Vec<String> = first.iter().map(|l| format!("{:?}", l)).collect();
    for a in answers {
        asked.push(format!("{:?}", session.ask()));
        let (next, lines) = session.advance(a);
        said.extend(lines.iter().map(|l| format!("{:?}", l)));
        session = next;
    }
    asked.push(format!("{:?}", session.ask()));
    (asked, said)
}

fn play(words: &[&str], answers: Vec<Answer>) -> (Vec<String>, Vec<String>) {
    play_on(words, false, answers)
}

fn text(s: &str) -> Answer {
    Answer::Text(Ok(s.to_string()))
}

fn no_text() -> Answer {
    Answer::Text(Err("gone".to_string()))
}

fn done() -> Answer {
    Answer::Done(Ok(()))
}

fn exited(code: i32) -> Answer {
    Answer::Exited(Ok(Some(code)))
}

fn output(code: i32, out: &str, err: &str) -> Output {
    Output { code: Some(code), out: out.to_string(), err: err.to_string() }
}

fn captured(code: i32, out: &str, err: &str) -> Answer {
    Answer::Captured(Ok(output(code, out, err)))
}

fn compiled(code: i32, lines: &[&str]) -> Answer {
    Answer::Compiled(Ok(Compilation { code: Some(code), lines: args(lines) }))
}

fn file(path: &str, name: &str, modified: u64) -> SourceEntry {
    SourceEntry { path: path.to_string(), name: name.to_string(), is_dir: false, modified: Some(modified) }
}

fn dir(path: &str) -> SourceEntry {
    SourceEntry { path: path.to_string(), name: path.to_string(), is_dir: true, modified: Some(9000) }
}

fn registry() -> Registry {
    Registry::new().insert(
        "a".to_string(),
        LibEntry {
            flags: "-L  /r/a --extern a=/r/a/liba.rlib".to_string(),
            name: "a".to_string(),
            version: "1".to_string(),
            features: vec![],
        },
    )
}

const JSON: &str = "{\"reason\":\"x\",\"executable\":\"target/debug/deps/t-1\",\"fresh\":true}";
const AGAIN: &str = "comptime error: output not found yet";
const RAW_AGAIN: &str = "comptime error: raw output not found yet";

/// The flags are read, and the sources are newer than the last evaluation.
fn stale() -> Vec<Answer> {
    vec![
        text("a\n"),
        Answer::Known(registry()),
        Answer::Scanned(Some(vec![file("src/main.rs", "main.rs", 100)])),
        text("99"),
    ]
}

fn with(mut v: Vec<Answer>, more: Vec<Answer>) -> Vec<Answer> {
    v.extend(more);
    v
}

fn cargo(args: &str, env: &str) -> String {
    format!("Program {{ name: \"cargo\", args: [{}], dir: None, env: [{}] }}", args, env)
}

const TEST_ARGS: &str = "\"test\", \"--features=comptime\", \"--no-run\", \"--message-format=json\", \"--profile=dev\", \"--\", \"--no-capture\"";
const READY: &str = "(\"RUSTFLAGS\", \"--cfg comptime_ready\")";

// ---- the rules

#[test]
fn an_evaluation_is_due_when_sources_are_newer_or_results_missing() {
    assert!(comptime::needs_retest(2, 1, true));
    assert!(!comptime::needs_retest(1, 1, true));
    assert!(!comptime::needs_retest(0, 1, true));
    assert!(comptime::needs_retest(0, 1, false));
}

#[test]
fn the_time_of_the_last_evaluation_is_read() {
    assert_eq!(comptime::last_test_timestamp(&Ok(" 1700000000\n".to_string())), 1_700_000_000);
    assert_eq!(comptime::last_test_timestamp(&Ok("x".to_string())), 0);
    assert_eq!(comptime::last_test_timestamp(&Ok("".to_string())), 0);
    assert_eq!(comptime::last_test_timestamp(&Err("gone".to_string())), 0);
}

#[test]
fn the_latest_source_file_counts() {
    let mut stack = args(&["x"]);
    let entries = vec![
        file("src/a.rs", "a.rs", 5),
        dir("src/sub"),
        file("src/b.txt", "b.txt", 99),
        file("src/c.rs", "c.rs", 7),
        SourceEntry { path: "src/d.rs".to_string(), name: "d.rs".to_string(), is_dir: false, modified: None },
        file("src/.rs", ".rs", 50),
        dir("src/z.rs"),
    ];
    assert_eq!(comptime::latest_src_mtime(0, &entries, &mut stack), 7);
    assert_eq!(stack, vec!["x", "src/sub", "src/z.rs"]);
    assert_eq!(comptime::latest_src_mtime(8, &entries, &mut stack), 8);
}

#[test]
fn the_executable_is_read_from_a_message() {
    assert_eq!(comptime::read_executable(JSON), Some("target/debug/deps/t-1".to_string()));
    assert_eq!(
        comptime::read_executable(r#"{"executable":"C:\\x\\t.exe"}"#),
        Some("C:\\x\\t.exe".to_string())
    );
    assert_eq!(comptime::read_executable(r#"{"executable":null}"#), None);
    assert_eq!(comptime::read_executable(r#"{"executable":""}"#), None);
    assert_eq!(comptime::read_executable(r#"{"executable":"x"#), None);
    assert_eq!(comptime::read_executable(r#" {"executable":"x"}"#), None);
}

#[test]
fn the_last_executable_counts() {
    assert_eq!(
        comptime::find_executable(&args(&[JSON, "{\"executable\":\"two\"}", "x", "{\"executable\":\"\"}"])),
        Some("two".to_string())
    );
    assert_eq!(comptime::find_executable(&args(&["x"])), None);
}

#[test]
fn tests_are_repeated_as_their_pass_says() {
    let all = [Pass::Single, Pass::Raw, Pass::Ready];
    let repeats = |s: &str| -> Vec<bool> {
        all.iter().map(|p| comptime::must_repeat(*p, &output(1, s, ""))).collect()
    };
    assert_eq!(repeats(AGAIN), vec![true, false, true]);
    assert_eq!(repeats(RAW_AGAIN), vec![false, true, true]);
    assert_eq!(repeats("x ParseIntError y"), vec![true, false, true]);
    assert_eq!(repeats("fine"), vec![false, false, false]);
    assert!(comptime::must_repeat(Pass::Single, &output(0, "", AGAIN)));
    assert!(comptime::must_repeat(Pass::Raw, &output(0, "", RAW_AGAIN)));
}

#[test]
fn the_compiler_gets_its_arguments() {
    let p = comptime::compiler_program(Pass::Single, false, false, &args(&["-L", "x"]));
    assert_eq!(p.name, "rustc");
    assert_eq!(
        p.args,
        vec!["src/main.rs", "--test", "--cfg", "feature=\"comptime\"", "-o", "target/debug/deps/comptime_test", "-L", "x"]
    );
    let p = comptime::compiler_program(Pass::Ready, true, true, &args(&[]));
    assert_eq!(
        p.args,
        vec![
            "src/lib.rs", "--test", "-C", "debuginfo=2", "--cfg", "feature=\"comptime\"", "--cfg",
            "comptime_ready", "-o", "target/debug/deps/comptime_test.exe"
        ]
    );
}

#[test]
fn the_libraries_of_the_compiler_are_below_its_home() {
    assert_eq!(comptime::find_library_path(&Ok(output(0, "/usr/rust\n", ""))), "/usr/rust/lib");
    assert_eq!(comptime::find_library_path(&Ok(output(1, "", ""))), "/lib");
    assert_eq!(comptime::find_library_path(&Err("gone".to_string())), "/lib");
}

#[test]
fn the_words_of_the_libraries_are_found() {
    assert_eq!(
        testing::get_rlib_rustc_base_args(&args(&["x", "a"]), &registry()),
        vec!["-L", "/r/a", "--extern", "a=/r/a/liba.rlib"]
    );
}

#[test]
fn a_job_is_read_from_the_command_line() {
    let j = testing::read_job(&args(&["rlib", "l", "run", "nightly", "x", "cargo", "y"]), true);
    assert!(matches!(j.kind, testing::Kind::Plain));
    assert!(j.cargo && j.windows);
    assert_eq!((j.list.as_str(), j.verb.as_str()), ("l", "run"));
    assert_eq!(j.rest, vec!["x", "y"]);
    let j = testing::read_job(&args(&["rlib", "l", "build", "nested", "raw", "z"]), false);
    assert!(matches!(j.kind, testing::Kind::Nested));
    assert!(!j.cargo);
    assert_eq!(j.rest, vec!["z"]);
    let j = testing::read_job(&args(&["rlib", "l", "build", "nested"]), false);
    assert!(matches!(j.kind, testing::Kind::Plain));
    assert_eq!(j.rest, vec!["nested"]);
    let j = testing::read_job(&args(&["rlib", "l", "my.config", "nested", "raw"]), false);
    assert!(matches!(j.kind, testing::Kind::Script));
}

// ---- the dialog

#[test]
fn an_evaluation_without_a_command_shows_the_help() {
    let (asked, said) = play(&["rlib", "this", "comptime"], vec![]);
    assert_eq!(asked, vec!["Exit(1)"]);
    assert_eq!(said, vec![format!("Out({:?})", help::HELP)]);
    for w in ["-h", "--help"] {
        let (asked, said) = play(&["rlib", "this", "comptime", w], vec![]);
        assert_eq!(asked, vec!["Exit(0)"]);
        assert_eq!(said.len(), 1);
    }
}

#[test]
fn a_script_is_made() {
    let (asked, said) = play(&["rlib", "this", "comptime", "init", "config"], vec![Answer::Done(Err("x".to_string()))]);
    assert_eq!(
        asked,
        vec![
            "Write { place: Path(\"comptime.config\"), text: \"# Add your custom commands below\\ncargo build --release\\n\" }",
            "Exit(0)",
        ]
    );
    assert!(said.is_empty());
    let (asked, said) = play(&["rlib", "this", "comptime", "init"], vec![]);
    assert_eq!(asked, vec!["Exit(1)"]);
    assert!(said.is_empty());
}

#[test]
fn what_is_up_to_date_is_not_evaluated() {
    let (asked, said) = play(
        &["rlib", "my.list", "comptime", "run", "--release", "nightly"],
        vec![
            text("# c\na\nq\n"),
            Answer::Known(registry()),
            Answer::Scanned(Some(vec![dir("src/x"), file("src/main.rs", "main.rs", 5), dir("src/y")])),
            Answer::Scanned(None),
            Answer::Scanned(Some(vec![file("src/x/z.rs", "z.rs", 100)])),
            text("100\n"),
            Answer::Flag(true),
            Answer::Nanos(123456789012345678901),
            exited(7),
        ],
    );
    assert_eq!(
        asked,
        vec![
            "Read(Path(\"my.list\"))".to_string(),
            "LoadRegistry".to_string(),
            "Scan(\"src\")".to_string(),
            "Scan(\"src/y\")".to_string(),
            "Scan(\"src/x\")".to_string(),
            "Read(Path(\"target/.comptime_last_test\"))".to_string(),
            "HasEntries(Path(\"comptime\"))".to_string(),
            "FineClock".to_string(),
            format!(
                "Launch({})",
                cargo(
                    "\"run\", \"--release\"",
                    "(\"COMPTIME_NONCE\", \"123456789012345678901\"), (\"RUSTFLAGS\", \"-L /r/a --extern a=/r/a/liba.rlib\"), (\"CARGO_PROFILE_DEV_BUILD_OVERRIDE_OPT_LEVEL\", \"3\")"
                )
            ),
            "Exit(7)".to_string(),
        ]
    );
    assert!(said.is_empty());
}

#[test]
fn a_list_that_cannot_be_read_has_no_flags() {
    let (asked, _) = play(
        &["rlib", "my.list", "comptime", "check"],
        vec![no_text(), Answer::Scanned(None), no_text(), Answer::Flag(true), Answer::Nanos(1), Answer::Exited(Err("gone".to_string()))],
    );
    assert_eq!(asked[1], "Scan(\"src\")");
    assert!(asked[5].contains("(\"RUSTFLAGS\", \"\")"));
    assert_eq!(asked[6], "Exit(1)");
}

#[test]
fn missing_results_are_evaluated() {
    let (asked, _) = play(
        &["rlib", "my.list", "comptime", "check", "cargo"],
        vec![no_text(), Answer::Scanned(None), text("5"), Answer::Flag(false)],
    );
    assert_eq!(asked[4], format!("Compile({})", cargo(TEST_ARGS, "")));
}

#[test]
fn tests_are_evaluated_with_cargo() {
    let (asked, said) = play(
        &["rlib", "my.list", "comptime", "build", "cargo"],
        with(
            stale(),
            vec![
                compiled(0, &["x", JSON]),
                captured(1, AGAIN, ""),
                captured(0, AGAIN, ""),
                Answer::Seconds(1700000000),
                done(),
                Answer::Done(Err("x".to_string())),
                Answer::Nanos(1),
                exited(0),
            ],
        ),
    );
    assert_eq!(asked[4], format!("Compile({})", cargo(TEST_ARGS, "")));
    let binary = "Program { name: \"target/debug/deps/t-1\", args: [], dir: None, env: [] }";
    assert_eq!(asked[5], format!("Capture {{ program: {}, pause: false }}", binary));
    assert_eq!(asked[6], format!("Capture {{ program: {}, pause: true }}", binary));
    assert_eq!(asked[7], "Clock");
    assert_eq!(asked[8], "MakeDirs(Path(\"target\"))");
    assert_eq!(asked[9], "Write { place: Path(\"target/.comptime_last_test\"), text: \"1700000000\" }");
    assert_eq!(asked[10], "FineClock");
    assert!(asked[11].starts_with("Launch(Program { name: \"cargo\", args: [\"build\"], "));
    assert_eq!(asked[12], "Exit(0)");
    assert!(said.is_empty());
}

#[test]
fn tests_that_fail_end_an_evaluation() {
    let (asked, said) = play(
        &["rlib", "my.list", "comptime", "build", "cargo"],
        with(stale(), vec![compiled(0, &[JSON]), captured(101, "out", "err")]),
    );
    assert_eq!(asked[6], "Exit(1)");
    assert_eq!(said, vec!["WarnText(\"out\")", "WarnText(\"err\")"]);
}

#[test]
fn tests_that_do_not_compile_are_shown() {
    let words = ["rlib", "my.list", "comptime", "build", "cargo"];
    let (asked, _) = play(&words, with(stale(), vec![compiled(101, &[JSON]), exited(0)]));
    assert_eq!(
        asked[5],
        format!("Launch({})", cargo("\"test\", \"--features=comptime\", \"--no-run\", \"--profile=dev\", \"--\", \"--no-capture\"", ""))
    );
    assert_eq!(asked[6], "Exit(1)");
    let (asked, _) = play(&words, with(stale(), vec![compiled(0, &["x"]), Answer::Exited(Err("gone".to_string()))]));
    assert_eq!(asked[5], format!("Launch({})", cargo("\"test\", \"--features=comptime\", \"--no-run\"", "")));
    assert_eq!(asked[6], "Exit(1)");
}

#[test]
fn programs_that_cannot_be_run_break_an_evaluation_off() {
    let broken = |words: &[&str], more: Vec<Answer>| {
        let (asked, _) = play(words, with(stale(), more));
        asked.last().unwrap().clone()
    };
    let gone = || "gone".to_string();
    let panic = |m: &str| format!("Panic({:?})", m);
    let cargo = ["rlib", "my.list", "comptime", "run", "cargo"];
    let rustc = ["rlib", "my.list", "comptime", "run"];
    let nested = ["rlib", "my.list", "comptime", "run", "nested", "raw"];
    let to_bench = || vec![no_text(), Answer::Flag(false), done()];
    assert_eq!(broken(&cargo, vec![Answer::Compiled(Err(gone()))]), panic("Failed to compile tests"));
    assert_eq!(
        broken(&cargo, vec![compiled(0, &[JSON]), Answer::Captured(Err(gone()))]),
        panic("Failed to execute test binary")
    );
    assert_eq!(
        broken(&rustc, with(to_bench(), vec![Answer::Exited(Err(gone()))])),
        panic("Failed to compile comptime with rustc")
    );
    assert_eq!(
        broken(&rustc, with(to_bench(), vec![exited(0), captured(0, "/h", ""), Answer::Captured(Err(gone()))])),
        panic("Failed to execute test binary")
    );
    assert_eq!(
        broken(&nested, with(to_bench(), vec![Answer::Exited(Err(gone()))])),
        panic("Failed to compile raw binary")
    );
    let to_ready = || with(to_bench(), vec![exited(0), captured(0, "/h", ""), captured(0, "", "")]);
    assert_eq!(
        broken(&nested, with(to_ready(), vec![Answer::Exited(Err(gone()))])),
        panic("Failed to compile ready binary")
    );
    assert_eq!(
        broken(&nested, with(to_ready(), vec![exited(0), Answer::Captured(Err(gone()))])),
        panic("Failed to execute ready test binary")
    );
}

#[test]
fn two_passes_are_evaluated_with_cargo() {
    let (asked, said) = play(
        &["rlib", "my.list", "comptime", "check", "nested", "raw", "cargo", "-v"],
        with(
            stale(),
            vec![
                compiled(0, &[JSON]),
                captured(1, "", RAW_AGAIN),
                captured(1, AGAIN, ""),
                compiled(0, &["{\"executable\":\"two\"}"]),
                captured(0, RAW_AGAIN, ""),
                captured(101, "", ""),
                Answer::Seconds(5),
                done(),
                done(),
                Answer::Nanos(2),
            ],
        ),
    );
    assert_eq!(asked[4], format!("Compile({})", cargo(TEST_ARGS, "")));
    assert!(asked[6].ends_with("pause: true }"));
    assert_eq!(asked[7], format!("Compile({})", cargo(TEST_ARGS, READY)));
    assert!(asked[8].contains("\"two\"") && asked[8].ends_with("pause: false }"));
    assert!(asked[9].contains("\"two\"") && asked[9].ends_with("pause: true }"));
    assert_eq!(asked[10], "Clock");
    assert!(asked[14].starts_with("Launch(Program { name: \"cargo\", args: [\"check\", \"-v\"], "));
    assert!(said.is_empty());
}

#[test]
fn the_second_pass_complains_with_its_flags() {
    let (asked, _) = play(
        &["rlib", "my.list", "comptime", "check", "nested", "raw", "cargo"],
        with(stale(), vec![compiled(0, &[JSON]), captured(0, "", ""), compiled(1, &[])]),
    );
    assert_eq!(
        asked[7],
        format!("Launch({})", cargo("\"test\", \"--features=comptime\", \"--no-run\", \"--profile=dev\", \"--\", \"--no-capture\"", READY))
    );
}

#[test]
fn tests_are_evaluated_with_the_compiler() {
    let (asked, said) = play_on(
        &["rlib", "my.list", "comptime", "run"],
        true,
        with(
            stale(),
            vec![
                text("a"),
                Answer::Known(registry()),
                Answer::Flag(true),
                Answer::Done(Err("x".to_string())),
                exited(0),
                captured(0, "/home/rust\n", ""),
                captured(1, "", "ParseIntError"),
                captured(101, "failed", ""),
                Answer::Seconds(5),
            ],
        ),
    );
    assert_eq!(asked[4], "Read(Path(\"my.list\"))");
    assert_eq!(asked[5], "LoadRegistry");
    assert_eq!(asked[6], "Exists(Path(\"src/lib.rs\"))");
    assert_eq!(asked[7], "MakeDirs(Path(\"target/debug/deps\"))");
    assert_eq!(
        asked[8],
        "Launch(Program { name: \"rustc\", args: [\"src/lib.rs\", \"--test\", \"--cfg\", \"feature=\\\"comptime\\\"\", \"-o\", \"target/debug/deps/comptime_test.exe\", \"-L\", \"/r/a\", \"--extern\", \"a=/r/a/liba.rlib\"], dir: None, env: [] })"
    );
    assert_eq!(
        asked[9],
        "Capture { program: Program { name: \"rustc\", args: [\"--print\", \"sysroot\"], dir: None, env: [] }, pause: false }"
    );
    let exe = "Program { name: \"target/debug/deps/comptime_test.exe\", args: [], dir: None, env: [(\"LD_LIBRARY_PATH\", \"/home/rust/lib\")] }";
    assert_eq!(asked[10], format!("Capture {{ program: {}, pause: false }}", exe));
    assert_eq!(asked[11], format!("Capture {{ program: {}, pause: true }}", exe));
    assert_eq!(asked[12], "Clock");
    assert_eq!(asked[13], "MakeDirs(Path(\"target\"))");
    assert!(said.is_empty());
}

#[test]
fn two_passes_are_evaluated_with_the_compiler() {
    let (asked, _) = play(
        &["rlib", "my.list", "comptime", "run", "nested", "raw"],
        with(
            stale(),
            vec![
                no_text(),
                Answer::Flag(false),
                done(),
                exited(0),
                captured(0, "/h", ""),
                captured(1, RAW_AGAIN, ""),
                captured(1, AGAIN, ""),
                exited(0),
                captured(1, RAW_AGAIN, ""),
                captured(0, "", ""),
            ],
        ),
    );
    assert!(asked[7].contains("\"src/main.rs\", \"--test\", \"--cfg\""));
    assert!(asked[9].contains("LD_LIBRARY_PATH") && asked[9].ends_with("pause: false }"));
    assert!(asked[10].ends_with("pause: true }"));
    assert!(asked[11].contains("\"src/main.rs\", \"--test\", \"-C\", \"debuginfo=2\", \"--cfg\", \"feature=\\\"comptime\\\"\", \"--cfg\", \"comptime_ready\", \"-o\""));
    assert_eq!(
        asked[12],
        "Capture { program: Program { name: \"target/debug/deps/comptime_test\", args: [], dir: None, env: [] }, pause: false }"
    );
    assert!(asked[13].ends_with("pause: true }"));
    assert_eq!(asked[14], "Clock");
}

#[test]
fn exit_codes_of_tests_with_the_compiler_do_not_count() {
    for code in [0, 1, 101] {
        let (asked, _) = play(
            &["rlib", "my.list", "comptime", "run"],
            with(
                stale(),
                vec![
                    no_text(),
                    Answer::Flag(false),
                    done(),
                    exited(0),
                    captured(0, "/h", ""),
                    captured(code, "", ""),
                ],
            ),
        );
        assert_eq!(asked.last().unwrap(), "Clock");
    }
}

#[test]
fn exit_codes_of_two_passes_never_count() {
    let route = |words: &[&str], codes: [i32; 4], bench: bool| {
        let more = if bench {
            vec![
                no_text(),
                Answer::Flag(false),
                done(),
                exited(0),
                captured(0, "/h", ""),
                captured(codes[0], RAW_AGAIN, ""),
                captured(codes[1], "", ""),
                exited(0),
                captured(codes[2], AGAIN, ""),
                captured(codes[3], "", ""),
            ]
        } else {
            vec![
                compiled(0, &[JSON]),
                captured(codes[0], RAW_AGAIN, ""),
                captured(codes[1], "", ""),
                compiled(0, &[JSON]),
                captured(codes[2], AGAIN, ""),
                captured(codes[3], "", ""),
            ]
        };
        play(words, with(stale(), more))
    };
    let cargo = ["rlib", "my.list", "comptime", "run", "nested", "raw", "cargo"];
    let rustc = ["rlib", "my.list", "comptime", "run", "nested", "raw"];
    for codes in [[1, 1, 1, 1], [0, 101, 0, 101]] {
        assert_eq!(route(&cargo, codes, false), route(&cargo, [0; 4], false));
        assert_eq!(route(&rustc, codes, true), route(&rustc, [0; 4], true));
    }
}

#[test]
fn a_failed_compilation_ends_an_evaluation() {
    let (asked, said) = play(
        &["rlib", "my.list", "comptime", "run"],
        with(stale(), vec![no_text(), Answer::Flag(false), done(), exited(1)]),
    );
    assert_eq!(asked[8], "Exit(1)");
    assert!(said.is_empty());
}

/// Up to the start of a script, with nothing to evaluate.
fn to_script() -> Vec<Answer> {
    vec![no_text(), Answer::Scanned(None), no_text(), Answer::Flag(true)]
}

fn line(s: &str) -> Answer {
    Answer::NextLine(Some(Ok(s.to_string())))
}

#[test]
fn a_script_runs_its_commands_in_turn() {
    let (asked, said) = play(
        &["rlib", "my.list", "comptime", "my.config"],
        with(
            to_script(),
            vec![
                Answer::Flag(true),
                done(),
                line("# comment"),
                line("   "),
                line("  cargo build  --release "),
                exited(0),
                line("ls"),
                exited(0),
                Answer::NextLine(None),
            ],
        ),
    );
    assert_eq!(asked[4], "Exists(Path(\"my.config\"))");
    assert_eq!(asked[5], "OpenLines(\"my.config\")");
    assert_eq!(asked[6..9], ["ReadLine", "ReadLine", "ReadLine"]);
    assert_eq!(asked[9], format!("Launch({})", cargo("\"build\", \"--release\"", "")));
    assert_eq!(asked[10], "ReadLine");
    assert_eq!(asked[11], "Launch(Program { name: \"ls\", args: [], dir: None, env: [] })");
    assert_eq!(asked[12], "ReadLine");
    assert_eq!(asked[13], "Exit(0)");
    assert!(said.is_empty());
}

#[test]
fn a_script_stops_at_the_first_failure() {
    let run = |more: Vec<Answer>| {
        let (asked, said) = play(&["rlib", "my.list", "comptime", "my.config"], with(to_script(), more));
        (asked.last().unwrap().clone(), said)
    };
    let start = || vec![Answer::Flag(true), done(), line(" a b ")];
    assert_eq!(run(with(start(), vec![exited(4)])), ("Exit(4)".to_string(), vec![]));
    assert_eq!(run(with(start(), vec![Answer::Exited(Ok(None))])), ("Exit(1)".to_string(), vec![]));
    assert_eq!(
        run(with(start(), vec![Answer::Exited(Err("gone".to_string()))])),
        ("Exit(1)".to_string(), vec!["Warn(\"Failed to run command: a b\")".to_string()])
    );
    assert_eq!(
        run(vec![Answer::Flag(false)]),
        ("Exit(1)".to_string(), vec!["Warn(\"Error: Configuration file 'my.config' not found.\")".to_string()])
    );
    assert_eq!(
        run(vec![Answer::Flag(true), Answer::Done(Err("x".to_string()))]).0,
        "Panic(\"Failed to open configuration file\")"
    );
    assert_eq!(
        run(vec![Answer::Flag(true), done(), Answer::NextLine(Some(Err("x".to_string())))]).0,
        "Panic(\"Failed to read line\")"
    );
}

#[test]
fn a_script_follows_an_evaluation_with_cargo() {
    let (asked, _) = play(
        &["rlib", "my.list", "comptime", "my.config"],
        with(stale(), vec![compiled(0, &[JSON]), captured(0, "", ""), Answer::Seconds(1), done(), done()]),
    );
    assert_eq!(asked[9], "Exists(Path(\"my.config\"))");
}
