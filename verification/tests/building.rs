use rlib::dialog::{Answer, Ask};
use rlib::registry::{LibEntry, Registry};
use rlib::session::Session;

fn args(v: &[&str]) -> Vec<String> {
    v.iter().map(|s| s.to_string()).collect()
}

fn play(words: &[&str], answers: Vec<Answer>) -> (Vec<String>, Vec<String>) {
    let (mut session, first) = Session::start(&args(words), false, false);
    let mut asked = Vec::new();
    let mut said: Vec<String> = first.iter().map(|l| format!("{:?}", l)).collect();
    for a in answers {
        asked.push(format!("{:?}", session.ask()));
        let (next, lines) = session.advance(a);
        said.extend(lines.iter().map(|l| format!("{:?}", l)));
        session = next;
    }
    asked.push(format!("{:?}", session.ask()));
    (asked, said)
}

fn done() -> Answer {
    Answer::Done(Ok(()))
}

fn failed() -> Answer {
    Answer::Done(Err("denied".to_string()))
}

fn exited(code: i32) -> Answer {
    Answer::Exited(Ok(Some(code)))
}

fn names(v: &[&str]) -> Answer {
    Answer::Names(Ok(args(v)))
}

const MANIFEST: &str = "[package]\nname = \"rlib_gen\"\n[dependencies]\nold = \"1\"\n";
const LOCK: &str = "[[package]]\nname = \"tokio\"\nversion = \"1.38.0\"\n";

fn program(args: &str, dir: &str) -> String {
    format!("Launch(Program {{ name: \"cargo\", args: [{}], dir: Some({}), env: [] }})", args, dir)
}

/// Everything up to and with the compilation, in a project that is there.
fn to_compiled() -> Vec<Answer> {
    vec![
        done(),
        Answer::Flag(true),
        Answer::Text(Ok(MANIFEST.to_string())),
        done(),
        Answer::Flag(false),
        exited(0),
        exited(0),
    ]
}

#[test]
fn a_library_is_compiled_and_recorded() {
    let mut answers = vec![
        done(),
        Answer::Flag(false),
        exited(0),
        Answer::Text(Ok(MANIFEST.to_string())),
        done(),
        Answer::Flag(true),
        done(),
        exited(0),
        exited(0),
        Answer::Text(Ok(LOCK.to_string())),
        done(),
        Answer::Located("/r/.rlib/tokio_1_38_0_full".to_string()),
        Answer::Flag(true),
        names(&["/d/libtokio-1.rlib", "/d/x.d"]),
        done(),
        failed(),
        names(&["libtokio-1.rlib", "x.d"]),
    ];
    let old = Registry::new().insert(
        "a".to_string(),
        LibEntry { flags: "".to_string(), name: "a".to_string(), version: "1".to_string(), features: vec![] },
    );
    let new = old.copy().insert(
        "tokio_1_38_0_full".to_string(),
        LibEntry {
            flags: "-L /r/.rlib/tokio_1_38_0_full --extern tokio=/r/.rlib/tokio_1_38_0_full/libtokio-1.rlib".to_string(),
            name: "tokio".to_string(),
            version: "1.38.0".to_string(),
            features: args(&["full"]),
        },
    );
    answers.push(Answer::Known(old));
    answers.push(done());
    let (asked, said) = play(&["rlib", "tokio", "features=full"], answers);
    assert_eq!(
        asked,
        vec![
            "MakeDirs(Base)".to_string(),
            "Exists(Project)".to_string(),
            program("\"new\", \"--lib\", \"rlib_gen\"", "Base"),
            "Read(ProjectManifest)".to_string(),
            "Write { place: ProjectManifest, text: \"[package]\\nname = \\\"rlib_gen\\\"\\n[dependencies]\" }".to_string(),
            "Exists(ProjectTarget)".to_string(),
            "RemoveDirs(ProjectTarget)".to_string(),
            program("\"add\", \"tokio\", \"--features\", \"full\"", "Project"),
            program("\"build\", \"--release\"", "Project"),
            "Read(ProjectLock)".to_string(),
            "MakeDirs(Library(\"tokio_1_38_0_full\"))".to_string(),
            "Locate(Library(\"tokio_1_38_0_full\"))".to_string(),
            "Exists(ProjectDeps)".to_string(),
            "Files(ProjectDeps)".to_string(),
            "Copy { index: 0, to: Library(\"tokio_1_38_0_full\") }".to_string(),
            "Copy { index: 1, to: Library(\"tokio_1_38_0_full\") }".to_string(),
            "Names(Library(\"tokio_1_38_0_full\"))".to_string(),
            "LoadRegistry".to_string(),
            format!("SaveRegistry({:?})", new),
            "Return".to_string(),
        ]
    );
    assert_eq!(
        said,
        vec![
            "Out(\"[rlib] Creating rlib_gen project...\")",
            "Out(\"[rlib] Clearing old dependencies from Cargo.toml...\")",
            "Out(\"[rlib] Removing target directory...\")",
            "Out(\"[rlib] Adding dependency via cargo...\")",
            "Out(\"[rlib] Building release...\")",
            "Out(\"[rlib] Copying deps to /r/.rlib/tokio_1_38_0_full...\")",
            "Warn(\"[rlib] Failed to copy /d/x.d: denied\")",
            "Clear",
            "Out(\"[rlib] Done. Saved 'tokio_1_38_0_full' to ~/.rlib/list.json\")",
        ]
    );
}

#[test]
fn a_compilation_stops_at_the_first_failure() {
    let stop = |answers: Vec<Answer>| {
        let n = answers.len();
        let (asked, said) = play(&["rlib", "tokio"], answers);
        assert_eq!(asked[n], "Exit(1)");
        said.last().unwrap().clone()
    };
    assert_eq!(stop(vec![failed()]), "Warn(\"[rlib] Failed to create ~/.rlib: denied\")");
    assert_eq!(
        stop(vec![done(), Answer::Flag(false), Answer::Exited(Err("gone".to_string()))]),
        "Warn(\"[rlib] Failed to run cargo new: gone\")"
    );
    assert_eq!(stop(vec![done(), Answer::Flag(false), exited(101)]), "Warn(\"[rlib] cargo new failed\")");
    let mut v = to_compiled();
    v.truncate(4);
    v.push(Answer::Flag(true));
    v.push(failed());
    assert_eq!(stop(v), "Warn(\"[rlib] Failed to remove target directory: denied\")");
    let mut v = to_compiled();
    v.truncate(5);
    v.push(Answer::Exited(Ok(None)));
    assert_eq!(stop(v), "Warn(\"[rlib] cargo add failed\")");
    let mut v = to_compiled();
    v.truncate(6);
    v.push(exited(1));
    assert_eq!(stop(v), "Warn(\"[rlib] cargo build --release failed\")");
    let mut v = to_compiled();
    v.push(Answer::Text(Ok(LOCK.to_string())));
    v.push(failed());
    assert_eq!(stop(v), "Warn(\"[rlib] Failed to create output directory: denied\")");
}

#[test]
fn a_manifest_that_cannot_be_cleaned_does_not_stop_a_compilation() {
    let (asked, said) = play(
        &["rlib", "tokio"],
        vec![done(), Answer::Flag(true), Answer::Text(Err("gone".to_string()))],
    );
    assert_eq!(asked[3], "Exists(ProjectTarget)");
    assert_eq!(said[1], "Warn(\"[rlib] Failed to read Cargo.toml: gone\")");
    let (asked, said) = play(
        &["rlib", "tokio"],
        vec![done(), Answer::Flag(true), Answer::Text(Ok(MANIFEST.to_string())), failed()],
    );
    assert_eq!(asked[4], "Exists(ProjectTarget)");
    assert_eq!(said[1], "Warn(\"[rlib] Failed to write Cargo.toml: denied\")");
}

#[test]
fn a_library_without_a_version_or_files_is_recorded_too() {
    let mut v = to_compiled();
    v.push(Answer::Text(Err("gone".to_string())));
    v.push(done());
    v.push(Answer::Located("/r/x".to_string()));
    v.push(Answer::Flag(false));
    v.push(Answer::Located("/d".to_string()));
    v.push(Answer::Names(Err("gone".to_string())));
    v.push(Answer::Known(Registry::new()));
    v.push(failed());
    let (asked, said) = play(&["rlib", "my-lib"], v);
    assert_eq!(asked[8], "MakeDirs(Library(\"my_lib_0_0_0\"))");
    assert!(asked[14].contains("flags: \"-L /r/x\""), "{}", asked[14]);
    assert_eq!(asked[15], "Return");
    assert!(said.contains(&"Warn(\"[rlib] deps directory not found: /d\")".to_string()));
    assert!(said.contains(&"Warn(\"[rlib] Failed to write list.json\")".to_string()));
    assert_eq!(said.last().unwrap(), "Out(\"[rlib] Done. Saved 'my_lib_0_0_0' to ~/.rlib/list.json\")");
}

#[test]
fn files_that_cannot_be_listed_are_told() {
    let mut v = to_compiled();
    v.push(Answer::Text(Ok(LOCK.to_string())));
    v.push(done());
    v.push(Answer::Located("/r/x".to_string()));
    v.push(Answer::Flag(true));
    v.push(Answer::Names(Err("gone".to_string())));
    let (asked, said) = play(&["rlib", "tokio"], v);
    assert_eq!(asked[12], "Names(Library(\"tokio_1_38_0\"))");
    assert_eq!(said.last().unwrap(), "Warn(\"[rlib] Failed to read deps directory: gone\")");
}

#[test]
fn a_compiled_library_is_listed_and_passed_on() {
    let mut v = to_compiled();
    v.push(Answer::Text(Ok(LOCK.to_string())));
    v.push(done());
    v.push(Answer::Located("/r/t".to_string()));
    v.push(Answer::Flag(true));
    v.push(names(&[]));
    v.push(names(&["libtokio-1.rlib"]));
    v.push(Answer::Known(Registry::new()));
    let (mut session, _) = Session::start(&args(&["rlib", "tokio"]), false, false);
    for a in v {
        session = session.advance(a).0;
    }
    let stored = match session.ask() {
        Ask::SaveRegistry(r) => r,
        other => panic!("{:?}", other),
    };
    assert_eq!(stored.keys(), vec!["tokio_1_38_0"]);
    let (asked, _) = play(&["rlib", "this", "add", "tokio_1_38_0"], vec![Answer::Text(Ok(String::new()))]);
    assert_eq!(asked[1], "Write { place: Path(\"rlib.list\"), text: \"tokio_1_38_0\\n\" }");
    let (asked, _) = play(
        &["rlib", "this", "cargo", "run"],
        vec![
            Answer::Text(Ok("tokio_1_38_0\n".to_string())),
            Answer::Known(stored),
            Answer::Text(Err("gone".to_string())),
            Answer::Flag(false),
        ],
    );
    assert!(asked[4].contains(" -L /r/t --extern tokio=/r/t/libtokio-1.rlib\")"), "{}", asked[4]);
}
