use rlib::artifacts;
use rlib::list;
use rlib::manifest;
use rlib::registry::LibEntry;
use rlib::request;

fn args(v: &[&str]) -> Vec<String> {
    v.iter().map(|s| s.to_string()).collect()
}

// ---- list files

#[test]
fn active_lines_are_trimmed_and_no_comments() {
    assert_eq!(
        list::active_lines("# head\n\n  tokio_1_38_0_full  \r\n#serde\n\tanyhow_1_0_0\n   # x\nlast"),
        vec!["tokio_1_38_0_full", "anyhow_1_0_0", "last"]
    );
    assert!(list::active_lines("").is_empty());
    assert!(list::active_lines(" \n#\n").is_empty());
}

#[test]
fn list_template_has_no_keys() {
    assert!(list::active_lines(list::LIST_TEMPLATE).is_empty());
    assert!(list::LIST_TEMPLATE.starts_with("#   Show active keys in this file:\n#      rlib list rlib.list\n#\n"));
    assert!(list::LIST_TEMPLATE.ends_with("# Add your library keys below:\n\n\n"));
}

#[test]
fn a_key_is_added_on_a_line_of_its_own() {
    assert_eq!(list::append_key("", "a"), "a\n");
    assert_eq!(list::append_key("x", "a"), "x\na\n");
    assert_eq!(list::append_key("x\n", "a"), "x\na\n");
    assert_eq!(list::append_key("\n", "a"), "\na\n");
}

#[test]
fn an_added_key_is_the_last_active_one() {
    let t = list::append_key("# c\nx\ny", "z_1_0_0");
    assert_eq!(list::active_lines(&t), vec!["x", "y", "z_1_0_0"]);
}

#[test]
fn adding_leaves_the_text_before_it() {
    for content in ["", "x", "x\n", "# c\r\n y "] {
        assert!(list::append_key(content, "k").starts_with(content));
    }
}

#[test]
fn the_key_of_a_library_can_be_listed() {
    let key = request::folder_name("tokio-util", "0.7.1", &args(&["codec", "rt"]));
    assert_eq!(list::active_lines(&list::append_key("a", &key)), vec!["a", "tokio_util_0_7_1_codec_rt"]);
}

#[test]
fn a_removed_key_is_gone_and_the_rest_stays() {
    assert_eq!(list::drop_key("# c\n a \nb\na\n\n#a\nc", "a"), "# c\nb\n\n#a\nc\n");
    assert_eq!(list::drop_key("a", "a"), "");
    assert_eq!(list::drop_key("x\r\na\r\n", "a"), "x\n");
}

#[test]
fn removing_undoes_adding() {
    let content = "# c\nx\n\ny\n";
    let t = list::drop_key(&list::append_key(content, "z"), "z");
    assert_eq!(list::active_lines(&t), list::active_lines(content));
    assert_eq!(t, content);
    assert_eq!(list::drop_key(&list::append_key("", "z"), "z"), "");
}

#[test]
fn keys_of_joined_texts_follow_each_other() {
    for a in ["", "x", "# c\nx\n", "x\r", " \n", "x\n\n"] {
        for b in ["", "y\n\nz", "\ny", "# y"] {
            let both = [list::active_lines(a), list::active_lines(b)].concat();
            assert_eq!(list::active_lines(&format!("{}\n{}", a, b)), both);
        }
    }
    assert_eq!(list::active_lines("x\ny"), [list::active_lines("x\n"), list::active_lines("y")].concat());
}

#[test]
fn keys_are_trimmed_and_read_back() {
    let keys = list::active_lines(" a b \r\n#c\n\n\u{3000}d\n\te\r\r\n");
    assert_eq!(keys, vec!["a b", "d", "e"]);
    assert_eq!(list::active_lines(&keys.join("\n")), keys);
}

#[test]
fn strings_are_looked_up() {
    assert!(list::has_string(&args(&["a", "nightly"]), "nightly"));
    assert!(!list::has_string(&args(&["a", "nightly2"]), "nightly"));
    assert!(!list::has_string(&args(&[]), ""));
}

// ---- Cargo.toml

#[test]
fn dependencies_are_cleaned_out() {
    let toml = "[package]\nname = \"rlib_gen\"\n\n[dependencies]\ntokio = \"1\"\n\nserde = \"1\"\n[dev-dependencies]\nx = \"1\"\n  [build-dependencies]  \ny = \"2\"\n[features]\ndefault = []\n";
    assert_eq!(
        manifest::clean_cargo_toml(toml),
        "[package]\nname = \"rlib_gen\"\n\n[dependencies]\n\n[dev-dependencies]\n  [build-dependencies]  \n[features]\ndefault = []"
    );
}

#[test]
fn dependencies_of_a_target_are_kept() {
    let toml = "[dependencies.x]\nversion = \"1\"\n[target.a.dependencies]\nb = \"1\"";
    assert_eq!(manifest::clean_cargo_toml(toml), toml);
    assert_eq!(manifest::clean_cargo_toml(""), "");
}

#[test]
fn cleaning_twice_takes_off_a_last_line_feed() {
    let once = manifest::clean_cargo_toml("[a]\n\n\n");
    assert_eq!(once, "[a]\n\n");
    assert_eq!(manifest::clean_cargo_toml(&once), "[a]\n");
}

#[test]
fn cleaning_twice_changes_nothing_more() {
    let toml = "[package]\nname = \"p\"\n[dependencies]\na = \"1\"\n[features]\nf = []";
    let once = manifest::clean_cargo_toml(toml);
    assert_eq!(manifest::clean_cargo_toml(&once), once);
}

#[test]
fn no_dependency_is_left_in_a_cleaned_manifest() {
    let cleaned = manifest::clean_cargo_toml("[dependencies]\r\na = \"1\"\r\r\n\r\n b = \"2\"\n\n");
    assert_eq!(cleaned, "[dependencies]\n\n");
    assert!(cleaned.lines().all(|l| l.trim().is_empty() || l.trim().starts_with('[')));
}

// ---- Cargo.lock

const LOCK: &str = "version = 3\n\n[[package]]\nname = \"serde-json\"\nversion = \"1.0.1\"\n\n[[package]]\nname = \"tokio\"\nversion = \"1.38.0\"\nsource = \"x\"\n\n[[package]]\nname = \"tokio\"\nversion = \"0.9.0\"\n";

#[test]
fn the_version_is_that_of_the_first_package_of_the_name() {
    assert_eq!(manifest::get_lib_version(Some(LOCK), "tokio"), "1.38.0");
}

#[test]
fn a_hyphen_and_an_underscore_name_the_same_package() {
    assert_eq!(manifest::get_lib_version(Some(LOCK), "serde_json"), "1.0.1");
    assert_eq!(manifest::get_lib_version(Some(LOCK), "serde-json"), "1.0.1");
}

#[test]
fn a_version_that_is_not_found_is_zero() {
    assert_eq!(manifest::get_lib_version(Some(LOCK), "anyhow"), "0.0.0");
    assert_eq!(manifest::get_lib_version(None, "tokio"), "0.0.0");
    assert_eq!(manifest::get_lib_version(Some("name = \"a\"\nversion = \"1\""), "a"), "0.0.0");
    assert_eq!(manifest::get_lib_version(Some("[[package]]\n\nname = \"a\"\nversion = \"1\""), "a"), "0.0.0");
    assert_eq!(manifest::get_lib_version(Some("[[package]]\nversion = \"1\"\nname = \"a\""), "a"), "0.0.0");
}

// ---- library files

#[test]
fn library_files_name_their_crates() {
    assert_eq!(artifacts::extract_crate_name("libtokio-0123abcd.rlib"), Some("tokio".to_string()));
    assert_eq!(artifacts::extract_crate_name("libserde_json.rlib"), Some("serde_json".to_string()));
    assert_eq!(artifacts::extract_crate_name("liba-b-c.rlib"), Some("a-b".to_string()));
    assert_eq!(artifacts::extract_crate_name("lib.rlib"), Some("".to_string()));
    assert_eq!(artifacts::extract_crate_name("tokio-0123.rlib"), None);
    assert_eq!(artifacts::extract_crate_name("libtokio-0123.rmeta"), None);
    assert_eq!(artifacts::extract_crate_name("lib"), None);
}

#[test]
fn extensions_follow_the_last_dot() {
    for name in ["a.rlib", ".rlib", "a.b.rlib", "a.", "rlib", "a.rlib.d", "..rlib"] {
        let ext = std::path::Path::new(name).extension().map(|e| e == "rlib").unwrap_or(false);
        assert_eq!(artifacts::extension_is(name, "rlib"), ext, "{}", name);
    }
}

#[test]
fn flags_name_every_library_file_in_order() {
    let names = args(&["libserde-2.rlib", "a.d", "libserde-1.rlib", "libanyhow-9.rlib", "x.rlib", "libb-1.rmeta"]);
    assert_eq!(
        artifacts::build_flags("/r/.rlib/k", &names),
        "-L /r/.rlib/k --extern anyhow=/r/.rlib/k/libanyhow-9.rlib --extern serde=/r/.rlib/k/libserde-2.rlib --extern serde=/r/.rlib/k/libserde-1.rlib"
    );
    assert_eq!(artifacts::build_flags("d", &args(&[])), "-L d");
}

// ---- requests

#[test]
fn options_of_a_request_are_read() {
    let r = request::read_request(&args(&[
        "rlib", "tokio", "features=rt, ,net,", "git=u", "other", "branch=b", "tag=t", "rev=r",
    ]));
    assert_eq!(r.lib_name, "tokio");
    assert_eq!(r.features, vec!["rt", "net"]);
    assert_eq!(r.git, Some("u".to_string()));
    assert_eq!(r.branch, Some("b".to_string()));
    assert_eq!(r.tag, Some("t".to_string()));
    assert_eq!(r.rev, Some("r".to_string()));
}

#[test]
fn the_last_option_of_a_kind_counts() {
    let r = request::read_request(&args(&["rlib", "x", "features=a", "features=b,c", "git=1", "git="]));
    assert_eq!(r.features, vec!["b", "c"]);
    assert_eq!(r.git, Some("".to_string()));
    let r = request::read_request(&args(&["rlib", "x", "features=a", "features="]));
    assert!(r.features.is_empty());
}

#[test]
fn cargo_adds_what_is_requested() {
    let add = |v: &[&str]| request::cargo_add_args(&request::read_request(&args(v)));
    assert_eq!(add(&["rlib", "anyhow"]), vec!["add", "anyhow"]);
    assert_eq!(add(&["rlib", "tokio", "features=full"]), vec!["add", "tokio", "--features", "full"]);
    assert_eq!(add(&["rlib", "s", "features=a,b", "branch=x"]), vec!["add", "s", "--features", "a,b"]);
    assert_eq!(add(&["rlib", "s", "git=u"]), vec!["add", "--git", "u", "s"]);
    assert_eq!(add(&["rlib", "s", "git=u", "rev=r", "tag=t", "branch=b"]), vec!["add", "--git", "u", "--branch", "b", "s"]);
    assert_eq!(add(&["rlib", "s", "git=u", "rev=r", "tag=t"]), vec!["add", "--git", "u", "--tag", "t", "s"]);
    assert_eq!(add(&["rlib", "s", "git=u", "rev=r", "features=f"]), vec!["add", "--git", "u", "--rev", "r", "s", "--features", "f"]);
}

#[test]
fn keys_are_made_of_name_version_and_features() {
    assert_eq!(request::folder_name("tokio", "1.38.0", &args(&["full"])), "tokio_1_38_0_full");
    assert_eq!(request::folder_name("serde-json", "1.0.1", &args(&[])), "serde_json_1_0_1");
    assert_eq!(request::folder_name("serde", "1.0.2", &args(&["derive", "std"])), "serde_1_0_2_derive_std");
    assert_eq!(
        request::folder_name("serde-json", "1.0.1-rc.1", &args(&["a-b"])),
        request::folder_name("serde_json", "1.0.1-rc.1", &args(&["a-b"]))
    );
}

#[test]
fn entries_are_printed_as_dependencies() {
    let e = |features: &[&str]| LibEntry {
        flags: "-L x".to_string(),
        name: "tokio".to_string(),
        version: "1.38.0".to_string(),
        features: args(features),
    };
    assert_eq!(request::dependency_line(&e(&[])), "tokio = \"1.38.0\"");
    assert_eq!(
        request::dependency_line(&e(&["rt", "net"])),
        "tokio = { version = \"1.38.0\", features = [\"rt\", \"net\"] }"
    );
}

#[test]
fn texts_are_added_to_a_list() {
    let mut v = args(&["a"]);
    request::add_text(&mut v, "b");
    assert_eq!(v, vec!["a", "b"]);
}
