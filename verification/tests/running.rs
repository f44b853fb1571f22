use rlib::dialog::{Answer, Output};
use rlib::registry::{LibEntry, Registry};
use rlib::run;
use rlib::session::Session;

const STABLE: &str = "-C debuginfo=0 -C prefer-dynamic -C metadata=dev -C embed-bitcode=no -C debug-assertions=no";

fn args(v: &[&str]) -> Vec<String> {
    v.iter().map(|s| s.to_string()).collect()
}

fn play(words: &[&str], is_file: bool, answers: Vec<Answer>) -> (Vec<String>, Vec<String>) {
    let (mut session, first) = Session::start(&args(words), is_file, false);
    let mut asked = Vec::new();
    let mut said: Vec<String> = first.iter().map(|l| format!("{:?}", l)).collect();
    for a in answers {
        asked.push(format!("{:?}", session.ask()));
        let (next, lines) = session.advance(a);
        said.extend(lines.iter().map(|l| format!("{:?}", l)));
        session = next;
    }
    asked.push(format!("{:?}", session.ask()));
    (asked, said)
}

fn text(s: &str) -> Answer {
    Answer::Text(Ok(s.to_string()))
}

fn no_text() -> Answer {
    Answer::Text(Err("gone".to_string()))
}

fn registry() -> Registry {
    let entry = |flags: &str| LibEntry {
        flags: flags.to_string(),
        name: "n".to_string(),
        version: "1".to_string(),
        features: vec![],
    };
    Registry::new()
        .insert("a".to_string(), entry("-L /r/a --extern a=/r/a/liba.rlib"))
        .insert("b".to_string(), entry("  -L   /r/b "))
}

fn captured(code: i32, out: &str) -> Answer {
    Answer::Captured(Ok(Output { code: Some(code), out: out.to_string(), err: String::new() }))
}

#[test]
fn a_command_is_run_with_the_flags_of_its_libraries() {
    let (asked, said) = play(
        &["rlib", "this", "cargo", "run", "--release"],
        false,
        vec![
            text("b\nx\na\n"),
            Answer::Known(registry()),
            no_text(),
            Answer::Flag(true),
            Answer::Exited(Ok(Some(3))),
        ],
    );
    assert_eq!(
        asked,
        vec![
            "Read(Path(\"rlib.list\"))".to_string(),
            "LoadRegistry".to_string(),
            "Read(Path(\"rlib.config\"))".to_string(),
            "Probe(\"mold\")".to_string(),
            format!(
                "Launch(Program {{ name: \"cargo\", args: [\"run\", \"--release\"], dir: None, env: [(\"RUSTFLAGS\", \"{} -Clink-arg=-fuse-ld=mold -L /r/b -L /r/a --extern a=/r/a/liba.rlib\"), (\"CARGO_PROFILE_DEV_BUILD_OVERRIDE_OPT_LEVEL\", \"3\")] }})",
                STABLE
            ),
            "Exit(3)".to_string(),
        ]
    );
    assert_eq!(
        said,
        vec![
            "Warn(\"[rlib] Warning: 'x' not found in list.json — skipping.\")",
            "Out(\"[rlib] Passing RUSTFLAGS for: b, x, a\")",
            "Out(\"[rlib] Backend: llvm, Linker: mold, Allocator: jemalloc, Channel: stable\")",
        ]
    );
}

#[test]
fn nightly_brings_its_flags_and_cranelift() {
    let (asked, said) = play(
        &["rlib", "my.list", "nightly", "cargo", "check", "nightly"],
        false,
        vec![text("a"), Answer::Known(registry()), text("linker=lld\nfoo=1\n"), Answer::Flag(false)],
    );
    assert_eq!(asked[3], "Probe(\"ld.lld\")");
    assert!(asked[4].starts_with("Launch(Program { name: \"cargo\", args: [\"check\"], dir: None, env: [(\"RUSTFLAGS\", \"-C debuginfo=0 "));
    assert!(asked[4].contains("-Zdual-proc-macros -Zcodegen-backend=cranelift -L /r/a --extern"));
    assert!(asked[4].ends_with("(\"CARGO_CACHE_RUSTC_INFO\", \"1\")] })"));
    assert_eq!(
        said,
        vec![
            "Warn(\"[rlib] Unknown or invalid config entry ignored: foo=1\")",
            "Warn(\"[rlib] Linker 'lld' not found, skipping linker flag.\")",
            "Out(\"[rlib] Passing RUSTFLAGS for: a\")",
            "Out(\"[rlib] Backend: cranelift, Linker: lld, Allocator: jemalloc, Channel: nightly\")",
        ]
    );
}

#[test]
fn nightly_with_llvm_has_no_cache_variable() {
    let (asked, _) = play(
        &["rlib", "l", "cargo", "run", "nightly"],
        true,
        vec![text("a"), Answer::Known(registry()), text("backend=llvm"), Answer::Flag(true)],
    );
    assert!(asked[4].contains("-Cno-prepopulate-passes"));
    assert!(!asked[4].contains("CARGO_CACHE_RUSTC_INFO"));
}

#[test]
fn any_program_can_be_run() {
    let (asked, _) = play(
        &["rlib", "l/x", "make", "-j4"],
        false,
        vec![text("zz"), Answer::Known(Registry::new()), no_text(), Answer::Flag(false)],
    );
    assert_eq!(
        asked[4],
        format!(
            "Launch(Program {{ name: \"make\", args: [\"-j4\"], dir: None, env: [(\"RUSTFLAGS\", \"{}\"), (\"CARGO_PROFILE_DEV_BUILD_OVERRIDE_OPT_LEVEL\", \"3\")] }})",
            STABLE
        )
    );
}

#[test]
fn a_run_without_keys_or_list_is_refused() {
    let (asked, said) = play(&["rlib", "my.list", "cargo"], false, vec![no_text()]);
    assert_eq!(asked, vec!["Read(Path(\"my.list\"))", "Exit(1)"]);
    assert_eq!(said, vec!["Warn(\"[rlib] Failed to read list file 'my.list': gone\")"]);
    let (asked, said) = play(&["rlib", "my.list", "cargo"], false, vec![text("# none\n")]);
    assert_eq!(asked[1], "Exit(1)");
    assert_eq!(said, vec!["Warn(\"[rlib] The list file has no active entries.\")"]);
    let (asked, said) = play(&["rlib", "my.list"], false, vec![]);
    assert_eq!(asked, vec!["Exit(1)"]);
    assert_eq!(said, vec!["Warn(\"[rlib] Usage: rlib <rlib.list> <cargo sub-command...> [nightly]\")"]);
}

#[test]
fn a_run_of_nothing_but_nightly_is_refused() {
    let words = ["rlib", "my.list", "nightly"];
    let (asked, said) = play(&words, false, vec![text("a")]);
    assert_eq!(asked, vec!["Read(Path(\"my.list\"))", "Exit(1)"]);
    assert_eq!(said, vec!["Warn(\"[rlib] Usage: rlib <rlib.list> <cargo sub-command...> [nightly]\")"]);
    let (_, said) = play(&words, false, vec![no_text()]);
    assert_eq!(said, vec!["Warn(\"[rlib] Failed to read list file 'my.list': gone\")"]);
    let (_, said) = play(&words, false, vec![text("#")]);
    assert_eq!(said, vec!["Warn(\"[rlib] The list file has no active entries.\")"]);
}

#[test]
fn a_program_that_cannot_be_run_is_told() {
    let start = || vec![text("a"), Answer::Known(registry()), no_text(), Answer::Flag(true)];
    let mut v = start();
    v.push(Answer::Exited(Err("gone".to_string())));
    let (asked, said) = play(&["rlib", "my.list", "cargo"], false, v);
    assert_eq!(asked[5], "Exit(1)");
    assert_eq!(said.last().unwrap(), "Warn(\"[rlib] Failed to run 'cargo': gone\")");
    let mut v = start();
    v.push(Answer::Exited(Ok(None)));
    let (asked, _) = play(&["rlib", "my.list", "cargo"], false, v);
    assert_eq!(asked[5], "Exit(1)");
}

#[test]
fn an_allocator_is_loaded_from_the_first_path_that_is_there() {
    let list = "1 libs\n\tlibmimalloc.so.2 (libc6) => /lib/one.so\n\tlibother.so => /x\n\tlibmimalloc.so => a => /lib/two.so \n";
    let (asked, said) = play(
        &["rlib", "my.list", "cargo"],
        false,
        vec![
            text("a"),
            Answer::Known(registry()),
            text("allocator=mimalloc"),
            Answer::Flag(true),
            captured(0, list),
            Answer::Flag(false),
            Answer::Flag(true),
        ],
    );
    assert_eq!(
        asked[4],
        "Capture { program: Program { name: \"ldconfig\", args: [\"-p\"], dir: None, env: [] }, pause: false }"
    );
    assert_eq!(asked[5], "Exists(Path(\"/lib/one.so\"))");
    assert_eq!(asked[6], "Exists(Path(\"/lib/two.so\"))");
    assert!(asked[7].ends_with("(\"LD_PRELOAD\", \"/lib/two.so\")] })"), "{}", asked[7]);
    assert_eq!(said.len(), 2);
}

#[test]
fn an_allocator_that_is_not_found_is_told() {
    let start = || {
        vec![text("a"), Answer::Known(registry()), text("allocator=tcmalloc"), Answer::Flag(true)]
    };
    let told = "Warn(\"[rlib] libtcmalloc.so not found, using default allocator.\")";
    for last in [captured(1, "libtcmalloc.so => /x"), captured(0, ""), Answer::Captured(Err("gone".to_string()))] {
        let mut v = start();
        v.push(last);
        let (asked, said) = play(&["rlib", "my.list", "cargo"], false, v);
        assert!(asked[5].starts_with("Launch(") && !asked[5].contains("LD_PRELOAD"));
        assert_eq!(said.last().unwrap(), told);
    }
    let mut v = start();
    v.push(captured(0, "libtcmalloc.so => /x"));
    v.push(Answer::Flag(false));
    let (asked, said) = play(&["rlib", "my.list", "cargo"], false, v);
    assert!(asked[6].starts_with("Launch("));
    assert_eq!(said.last().unwrap(), told);
}

#[test]
fn words_are_added_one_by_one() {
    let mut v = args(&["x"]);
    run::add_words(&mut v, "  -L a\t b ");
    assert_eq!(v, vec!["x", "-L", "a", "b"]);
    let lines = run::add_library_words(&mut v, &args(&["b", "q"]), &registry());
    assert_eq!(v, vec!["x", "-L", "a", "b", "-L", "/r/b"]);
    assert_eq!(lines.len(), 1);
}

#[test]
fn paths_of_shared_libraries_are_read() {
    let output = |code, out: &str| Ok(Output { code, out: out.to_string(), err: String::new() });
    let list = "libm.so => /a\nlibm.so\nlibmx => /b\n x => libm.so.1 => /c\t\r\n";
    assert_eq!(run::find_shared_lib(&output(Some(0), list), "libm.so"), vec!["/a", "/c"]);
    assert!(run::find_shared_lib(&output(None, list), "libm.so").is_empty());
    assert!(run::find_shared_lib(&Err("gone".to_string()), "libm.so").is_empty());
}

#[test]
fn a_plan_keeps_the_command_without_nightly() {
    let p = run::read_plan(&args(&["rlib", "l", "cargo", "nightly", "run"]));
    assert_eq!((p.list.as_str(), p.nightly), ("l", true));
    assert_eq!(p.command, vec!["cargo", "run"]);
    let p = run::read_plan(&args(&["rlib", "nightly"]));
    assert_eq!((p.list.as_str(), p.nightly), ("nightly", true));
    assert!(p.command.is_empty());
}
