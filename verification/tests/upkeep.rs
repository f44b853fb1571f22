use rlib::config;
use rlib::dialog::Answer;
use rlib::folder;
use rlib::help;
use rlib::list;
use rlib::registry::{LibEntry, Registry};
use rlib::request;
use rlib::session::Session;

fn args(v: &[&str]) -> Vec<String> {
    v.iter().map(|s| s.to_string()).collect()
}

fn play(words: &[&str], answers: Vec<Answer>) -> (Vec<String>, Vec<String>) {
    let (mut session, first) = Session::start(&args(words), false, false);
    let mut asked = Vec::new();
    let mut said: Vec<String> = first.iter().map(|l| format!("{:?}", l)).collect();
    for a in answers {
        asked.push(format!("{:?}", session.ask()));
        let (next, lines) = session.advance(a);
        said.extend(lines.iter().map(|l| format!("{:?}", l)));
        session = next;
    }
    asked.push(format!("{:?}", session.ask()));
    (asked, said)
}

fn text(s: &str) -> Answer {
    Answer::Text(Ok(s.to_string()))
}

fn no_text() -> Answer {
    Answer::Text(Err("gone".to_string()))
}

fn done() -> Answer {
    Answer::Done(Ok(()))
}

fn failed() -> Answer {
    Answer::Done(Err("denied".to_string()))
}

fn known(keys: &[&str]) -> Registry {
    let mut r = Registry::new();
    for k in keys {
        r = r.insert(
            k.to_string(),
            LibEntry {
                flags: format!("-L {}", k),
                name: k.to_string(),
                version: "1.2.3".to_string(),
                features: Vec::new(),
            },
        );
    }
    r
}

#[test]
fn without_words_the_help_is_shown() {
    let (asked, said) = play(&["rlib"], vec![]);
    assert_eq!(asked, vec!["Exit(0)"]);
    assert_eq!(said, vec![format!("Out({:?})", help::HELP)]);
    assert!(help::HELP.starts_with("rlib — Rust prebuilt-library manager\n\nBUILDING\n"));
    assert!(help::HELP.ends_with("OTHER\n  rlib --help\n      Show this help message."));
}

#[test]
fn the_help_is_shown_when_asked_for() {
    for w in ["--help", "-h", "help"] {
        let (asked, said) = play(&["rlib", w], vec![]);
        assert_eq!(asked, vec!["Return"]);
        assert_eq!(said, vec![format!("Out({:?})", help::HELP)]);
    }
}

#[test]
fn init_makes_both_files() {
    for words in [vec!["rlib", "init"], vec!["rlib", "init", ""]] {
        let (asked, said) =
            play(&words, vec![Answer::Flag(false), done(), Answer::Flag(false), done()]);
        assert_eq!(
            asked,
            vec![
                "Exists(Path(\"rlib.config\"))".to_string(),
                format!("Write {{ place: Path(\"rlib.config\"), text: {:?} }}", config::CONFIG_TEMPLATE),
                "Exists(Path(\"rlib.list\"))".to_string(),
                format!("Write {{ place: Path(\"rlib.list\"), text: {:?} }}", list::LIST_TEMPLATE),
                "Return".to_string(),
            ]
        );
        assert_eq!(
            said,
            vec![
                "Out(\"[rlib] Created rlib.config in the current directory.\")",
                "Out(\"[rlib] Created rlib.list in the current directory.\")",
            ]
        );
    }
}

#[test]
fn init_makes_one_file() {
    let (asked, _) = play(&["rlib", "init", "list"], vec![Answer::Flag(false), done()]);
    assert_eq!(asked.len(), 3);
    assert_eq!(asked[0], "Exists(Path(\"rlib.list\"))");
    assert_eq!(asked[2], "Return");
    let (asked, _) = play(&["rlib", "init", "config"], vec![Answer::Flag(false), done()]);
    assert_eq!(asked[0], "Exists(Path(\"rlib.config\"))");
    assert_eq!(asked[2], "Return");
}

#[test]
fn init_leaves_files_that_are_there() {
    let (asked, said) = play(&["rlib", "init"], vec![Answer::Flag(true)]);
    assert_eq!(asked[1], "Exit(1)");
    assert_eq!(said, vec!["Warn(\"[rlib] rlib.config already exists in the current directory.\")"]);
    let (asked, said) = play(&["rlib", "init", "list"], vec![Answer::Flag(true)]);
    assert_eq!(asked[1], "Exit(1)");
    assert_eq!(said, vec!["Warn(\"[rlib] rlib.list already exists in the current directory.\")"]);
}

#[test]
fn init_tells_when_it_cannot_write() {
    let (asked, said) = play(&["rlib", "init", "config"], vec![Answer::Flag(false), failed()]);
    assert_eq!(asked[2], "Exit(1)");
    assert_eq!(said, vec!["Warn(\"[rlib] Failed to create rlib.config: denied\")"]);
    let (asked, said) = play(&["rlib", "init", "list"], vec![Answer::Flag(false), failed()]);
    assert_eq!(asked[2], "Exit(1)");
    assert_eq!(said, vec!["Warn(\"[rlib] Failed to create rlib.list: denied\")"]);
}

#[test]
fn init_of_something_else_is_refused() {
    let (asked, said) = play(&["rlib", "init", "all"], vec![]);
    assert_eq!(asked, vec!["Exit(1)"]);
    assert_eq!(said, vec!["Warn(\"[rlib] Usage: rlib init | rlib init list | rlib init config\")"]);
}

#[test]
fn the_registry_is_listed_in_order() {
    let (asked, said) =
        play(&["rlib", "list"], vec![Answer::Known(known(&["tokio_1_38_0_full", "anyhow_1_0_0"]))]);
    assert_eq!(asked, vec!["LoadRegistry", "Return"]);
    assert_eq!(
        said,
        vec![
            "Out(\"[rlib] Entries in ~/.rlib/list.json (2):\")",
            "Out(\"  anyhow_1_0_0\")",
            "Out(\"  tokio_1_38_0_full\")",
        ]
    );
    let (_, said) = play(&["rlib", "list"], vec![Answer::Known(Registry::new())]);
    assert_eq!(said, vec!["Out(\"[rlib] list.json is empty or does not exist.\")"]);
}

#[test]
fn one_library_is_listed_as_in_the_guide() {
    let (_, said) = play(&["rlib", "list"], vec![Answer::Known(known(&["tokio_1_38_0_full"]))]);
    assert_eq!(
        said,
        vec!["Out(\"[rlib] Entries in ~/.rlib/list.json (1):\")", "Out(\"  tokio_1_38_0_full\")"]
    );
}

#[test]
fn a_list_file_is_shown() {
    let (asked, said) = play(&["rlib", "list", "my.list"], vec![text("# c\nb\n a\n")]);
    assert_eq!(asked, vec!["Read(Path(\"my.list\"))", "Return"]);
    assert_eq!(
        said,
        vec!["Out(\"[rlib] Active entries in 'my.list' (2):\")", "Out(\"  b\")", "Out(\"  a\")"]
    );
    let (_, said) = play(&["rlib", "this", "print"], vec![text("#\n")]);
    assert_eq!(said, vec!["Out(\"[rlib] 'rlib.list' has no active entries.\")"]);
    let (asked, said) = play(&["rlib", "list", "my.list"], vec![no_text()]);
    assert_eq!(asked[1], "Exit(1)");
    assert_eq!(said, vec!["Warn(\"[rlib] Failed to read 'my.list': gone\")"]);
}

#[test]
fn a_library_is_removed_with_its_directory() {
    let (asked, said) = play(
        &["rlib", "remove", "a"],
        vec![
            Answer::Known(known(&["a", "b"])),
            done(),
            Answer::Located("/r/.rlib/a".to_string()),
            Answer::Flag(true),
            done(),
        ],
    );
    assert_eq!(asked[0], "LoadRegistry");
    assert_eq!(asked[1], format!("SaveRegistry({:?})", known(&["b"])));
    assert_eq!(asked[2], "Locate(Library(\"a\"))");
    assert_eq!(asked[3], "Exists(Library(\"a\"))");
    assert_eq!(asked[4], "RemoveDirs(Library(\"a\"))");
    assert_eq!(asked[5], "Return");
    assert_eq!(
        said,
        vec!["Out(\"[rlib] Removed 'a' from list.json.\")", "Out(\"[rlib] Deleted folder '/r/.rlib/a'.\")"]
    );
}

#[test]
fn the_directory_of_an_unknown_library_is_looked_for_too() {
    let (asked, said) = play(
        &["rlib", "remove", "z"],
        vec![Answer::Known(known(&["a"])), Answer::Located("/r/z".to_string()), Answer::Flag(false)],
    );
    assert_eq!(asked, vec!["LoadRegistry", "Locate(Library(\"z\"))", "Exists(Library(\"z\"))", "Return"]);
    assert_eq!(
        said,
        vec![
            "Warn(\"[rlib] Key 'z' not found in list.json.\")",
            "Out(\"[rlib] Note: folder '/r/z' did not exist on disk.\")",
        ]
    );
}

#[test]
fn only_folders_below_the_base_are_removed() {
    for key in ["/tmp/x", "", ".", "..", "../x", "a/../../x", "./", "a/.."] {
        let (asked, said) = play(&["rlib", "remove", key], vec![Answer::Known(known(&["a"]))]);
        assert_eq!(asked, vec!["LoadRegistry", "Exit(1)"], "{:?}", key);
        assert_eq!(said[0], format!("Warn({:?})", format!("[rlib] Key '{}' not found in list.json.", key)));
        assert_eq!(said[1], format!("Warn({:?})", format!("[rlib] Key '{}' names no folder in ~/.rlib.", key)));
        assert_eq!(said.len(), 2);
    }
    let (asked, said) = play(&["rlib", "remove", "/tmp/x"], vec![Answer::Known(known(&["/tmp/x"])), done()]);
    assert_eq!(asked[1], format!("SaveRegistry({:?})", Registry::new()));
    assert_eq!(asked[2], "Exit(1)");
    assert_eq!(said[0], "Out(\"[rlib] Removed '/tmp/x' from list.json.\")");
}

#[test]
fn every_folder_below_the_base_is_removed() {
    for key in ["a:b", "C:x", "\\x", "a\\..\\b", "a/../b", "tokio_1_38_0_tokio/full", "...", "a/"] {
        let (asked, _) = play(
            &["rlib", "remove", key],
            vec![Answer::Known(known(&[key])), done(), Answer::Located("d".to_string()), Answer::Flag(true)],
        );
        assert_eq!(asked[4], format!("RemoveDirs(Library({:?}))", key));
    }
}

#[test]
fn keys_below_the_base_are_told_from_others() {
    for windows in [false, true] {
        for key in ["a", "tokio_1_38_0_full", "tokio_1_38_0_tokio/full", "a/", "./a", "a..b", "...", "a/../b", "a//b"] {
            assert!(folder::is_below(key, windows), "{:?}", key);
        }
        for key in ["", "/", "/a", ".", "./.", "..", "a/..", "../a", "a/../../b", "a/../..", "//"] {
            assert!(!folder::is_below(key, windows), "{:?}", key);
        }
        assert!(folder::is_below(&request::folder_name("serde-json", "1.0.0", &args(&["a/b", "c"])), windows));
    }
    for key in ["\\a", "a\\..", "..\\a", "c:", "C:\\x", "a:b"] {
        assert!(folder::is_below(key, false), "{:?}", key);
        assert!(!folder::is_below(key, true), "{:?}", key);
    }
}

#[test]
fn a_directory_that_cannot_be_removed_is_told() {
    let (asked, said) = play(
        &["rlib", "remove", "a"],
        vec![
            Answer::Known(known(&["a"])),
            failed(),
            Answer::Located("/r/a".to_string()),
            Answer::Flag(true),
            failed(),
        ],
    );
    assert_eq!(asked[5], "Exit(1)");
    assert_eq!(
        said,
        vec![
            "Out(\"[rlib] Removed 'a' from list.json.\")",
            "Warn(\"[rlib] Failed to delete folder '/r/a': denied\")",
        ]
    );
    let (asked, said) = play(&["rlib", "remove"], vec![]);
    assert_eq!(asked, vec!["Exit(1)"]);
    assert_eq!(said, vec!["Warn(\"[rlib] Usage: rlib remove <key>\")"]);
}

#[test]
fn a_key_is_added_to_a_list_file() {
    let (asked, said) = play(&["rlib", "this", "add", "k"], vec![text("a"), done()]);
    assert_eq!(
        asked,
        vec![
            "Read(Path(\"rlib.list\"))",
            "Write { place: Path(\"rlib.list\"), text: \"a\\nk\\n\" }",
            "Return",
        ]
    );
    assert_eq!(said, vec!["Out(\"[rlib] Added 'k' to 'rlib.list'.\")"]);
    let (asked, said) =
        play(&["rlib", "x.list", "add", "k"], vec![no_text(), Answer::Flag(false), done()]);
    assert_eq!(asked[1], "Exists(Path(\"x.list\"))");
    assert_eq!(asked[2], "Write { place: Path(\"x.list\"), text: \"k\\n\" }");
    assert_eq!(asked[3], "Return");
    assert_eq!(said, vec!["Out(\"[rlib] Added 'k' to 'x.list'.\")"]);
    let (asked, said) = play(&["rlib", "x.list", "add", "k"], vec![text(""), failed()]);
    assert_eq!(asked[2], "Exit(1)");
    assert_eq!(said, vec!["Warn(\"[rlib] Failed to write 'x.list': denied\")"]);
}

#[test]
fn a_list_file_that_cannot_be_read_is_kept() {
    let failure = Answer::Text(Err("stream did not contain valid UTF-8".to_string()));
    let (asked, said) = play(&["rlib", "x.list", "add", "k"], vec![failure, Answer::Flag(true)]);
    assert_eq!(asked, vec!["Read(Path(\"x.list\"))", "Exists(Path(\"x.list\"))", "Exit(1)"]);
    assert_eq!(said, vec!["Warn(\"[rlib] Failed to read 'x.list': stream did not contain valid UTF-8\")"]);
}

#[test]
fn a_key_that_is_listed_is_not_added_again() {
    let (asked, said) = play(&["rlib", "this", "add", "k"], vec![text("a\n  k\n")]);
    assert_eq!(asked, vec!["Read(Path(\"rlib.list\"))", "Exit(1)"]);
    assert_eq!(
        said,
        vec!["Warn(\"[rlib] Error: Key 'k' already exists in 'rlib.list'. Connection rejected.\")"]
    );
}

#[test]
fn a_key_is_removed_from_a_list_file() {
    let (asked, said) = play(&["rlib", "this", "remove", "k"], vec![text("a\nk\nb"), done()]);
    assert_eq!(
        asked,
        vec![
            "Read(Path(\"rlib.list\"))",
            "Write { place: Path(\"rlib.list\"), text: \"a\\nb\\n\" }",
            "Return",
        ]
    );
    assert_eq!(said, vec!["Out(\"[rlib] Removed 'k' from 'rlib.list'.\")"]);
    let (asked, said) = play(&["rlib", "d/l", "remove", "k"], vec![text("a\n#k\n")]);
    assert_eq!(asked, vec!["Read(Path(\"d/l\"))", "Return"]);
    assert_eq!(said, vec!["Out(\"[rlib] 'k' was not found in 'd/l'.\")"]);
    let (asked, said) = play(&["rlib", "d\\l", "remove", "k"], vec![no_text()]);
    assert_eq!(asked[1], "Exit(1)");
    assert_eq!(said, vec!["Warn(\"[rlib] Failed to read 'd\\\\l': gone\")"]);
    let (asked, _) = play(&["rlib", "this", "remove", "k"], vec![text("k"), failed()]);
    assert_eq!(asked[2], "Exit(1)");
}

#[test]
fn dependencies_are_printed_for_cargo() {
    let (asked, said) = play(
        &["rlib", "this", "print", "for", "cargo"],
        vec![text("b\nx\na\n"), Answer::Known(known(&["a", "b"]))],
    );
    assert_eq!(asked, vec!["Read(Path(\"rlib.list\"))", "LoadRegistry", "Return"]);
    assert_eq!(
        said,
        vec![
            "Clear",
            "Out(\"[dependencies]\")",
            "Out(\"b = \\\"1.2.3\\\"\")",
            "Warn(\"[rlib] Warning: 'x' not found in list.json — skipping.\")",
            "Out(\"a = \\\"1.2.3\\\"\")",
        ]
    );
    let (asked, said) = play(&["rlib", "my.list", "print", "for", "cargo"], vec![text("#")]);
    assert_eq!(asked[1], "Exit(1)");
    assert_eq!(said, vec!["Warn(\"[rlib] 'my.list' has no active entries.\")"]);
    let (asked, _) = play(&["rlib", "my.list", "print", "for", "cargo", "now"], vec![no_text()]);
    assert_eq!(asked, vec!["Read(Path(\"my.list\"))", "Exit(1)"]);
}

#[test]
fn commands_on_this_directory_are_checked() {
    let refused = |words: &[&str]| {
        let (asked, said) = play(words, vec![]);
        assert_eq!(asked, vec!["Exit(1)"]);
        assert_eq!(said.len(), 1);
        said[0].clone()
    };
    assert_eq!(refused(&["rlib", "this"]), "Warn(\"[rlib] Usage: rlib this [add|remove] <key>, rlib this print, rlib this print for cargo, or rlib this cargo <args>\")");
    assert_eq!(refused(&["rlib", "this", "add"]), "Warn(\"[rlib] Usage: rlib this add <key>\")");
    assert_eq!(refused(&["rlib", "this", "remove"]), "Warn(\"[rlib] Usage: rlib this remove <key>\")");
    let unknown = "Warn(\"[rlib] Unknown command. Did you mean 'rlib this print' or 'rlib this print for cargo'?\")";
    assert_eq!(refused(&["rlib", "this", "print", "for"]), unknown);
    assert_eq!(refused(&["rlib", "this", "print", "for", "cargo", "now"]), unknown);
}

#[test]
fn this_is_rlib_list() {
    for rest in [vec!["add", "k"], vec!["remove", "k"], vec!["print", "for", "cargo"], vec!["cargo", "run"], vec!["comptime", "check"]] {
        let this: Vec<&str> = ["rlib", "this"].iter().copied().chain(rest.iter().copied()).collect();
        let path: Vec<&str> = ["rlib", "rlib.list"].iter().copied().chain(rest.iter().copied()).collect();
        assert_eq!(play(&this, vec![text("k\n")]), play(&path, vec![text("k\n")]));
    }
}

#[test]
fn an_answer_that_does_not_fit_changes_nothing() {
    let (asked, said) = play(&["rlib", "list"], vec![Answer::Flag(true), text("x"), Answer::Seconds(1)]);
    assert_eq!(asked, vec!["LoadRegistry"; 4]);
    assert!(said.is_empty());
}

#[test]
fn nothing_follows_an_end() {
    let (asked, said) = play(&["rlib", "init", "all"], vec![done(), Answer::Flag(true)]);
    assert_eq!(asked, vec!["Exit(1)"; 3]);
    assert_eq!(said.len(), 1);
}
