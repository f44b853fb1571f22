use rlib::config;
use rlib::config::RlibConfig;

fn load(s: &str) -> (String, String, String, bool, Vec<String>) {
    let l = config::load_rlib_config(Some(s));
    (l.config.backend, l.config.linker, l.config.allocator, l.config.nightly, l.ignored)
}

fn settings(backend: &str, nightly: bool) -> RlibConfig {
    RlibConfig {
        backend: backend.to_string(),
        linker: "mold".to_string(),
        allocator: "jemalloc".to_string(),
        nightly,
    }
}

#[test]
fn defaults_hold_where_there_is_no_file() {
    let l = config::load_rlib_config(None);
    assert_eq!(l.config.backend, "cranelift");
    assert_eq!(l.config.linker, "mold");
    assert_eq!(l.config.allocator, "jemalloc");
    assert!(!l.config.nightly);
    assert!(l.ignored.is_empty());
    let d = RlibConfig::default();
    assert_eq!((d.backend.as_str(), d.linker.as_str(), d.allocator.as_str(), d.nightly), ("cranelift", "mold", "jemalloc", false));
}

#[test]
fn template_sets_the_defaults() {
    let (b, l, a, n, bad) = load(config::CONFIG_TEMPLATE);
    assert_eq!((b.as_str(), l.as_str(), a.as_str(), n), ("cranelift", "mold", "jemalloc", false));
    assert!(bad.is_empty());
    assert!(config::CONFIG_TEMPLATE.starts_with("# backend — codegen backend to use.\n# Values : llvm | cranelift\n"));
    assert!(config::CONFIG_TEMPLATE.ends_with("#          library to be installed on the system.\n\nallocator=jemalloc\n"));
}

#[test]
fn every_valid_value_is_taken() {
    for b in ["llvm", "cranelift"] {
        assert_eq!(load(&format!("backend={}", b)).0, b);
    }
    for l in ["lld", "mold", "wild"] {
        assert_eq!(load(&format!(" linker = {} ", l)).1, l);
    }
    for a in ["jemalloc", "mimalloc", "tcmalloc"] {
        assert_eq!(load(&format!("# x\n\nallocator={}\r\n", a)).2, a);
    }
}

#[test]
fn the_last_entry_of_a_setting_wins() {
    assert_eq!(load("linker=lld\nlinker=wild\nlinker=none\n").1, "wild");
}

#[test]
fn entries_that_cannot_be_used_are_told() {
    let (b, l, a, _, bad) = load("backend=gcc\n  color = red \nlinker=lld\nallocator\nnightly=true\nlinker=lld=x\n#linker=mold");
    assert_eq!((b.as_str(), l.as_str(), a.as_str()), ("cranelift", "lld", "jemalloc"));
    assert_eq!(bad, vec!["backend=gcc", "color = red", "nightly=true", "linker=lld=x"]);
}

#[test]
fn code_generators_have_their_flags() {
    assert_eq!(config::backend_flags("cranelift"), "-Zcodegen-backend=cranelift");
    assert_eq!(config::backend_flags("llvm"), "-Cno-prepopulate-passes");
    assert_eq!(config::backend_flags("other"), "-Cno-prepopulate-passes");
}

#[test]
fn linkers_have_their_programs_and_flags() {
    assert_eq!(config::linker_program("wild"), Some("wild"));
    assert_eq!(config::linker_program("mold"), Some("mold"));
    assert_eq!(config::linker_program("lld"), Some("ld.lld"));
    assert_eq!(config::linker_program("gold"), None);
    assert_eq!(config::resolve_linker_flags("wild", true), Some("-Clinker=clang -Clink-args=--ld-path=wild"));
    assert_eq!(config::resolve_linker_flags("mold", true), Some("-Clink-arg=-fuse-ld=mold"));
    assert_eq!(config::resolve_linker_flags("lld", true), Some("-Clink-arg=-fuse-ld=lld"));
    assert_eq!(config::resolve_linker_flags("mold", false), None);
    assert_eq!(config::resolve_linker_flags("gold", true), None);
}

#[test]
fn stable_flags_leave_the_code_generator_out() {
    let stable = "-C debuginfo=0 -C prefer-dynamic -C metadata=dev -C embed-bitcode=no -C debug-assertions=no";
    assert_eq!(config::build_config_flags(&settings("cranelift", false), None), stable);
    assert_eq!(config::build_config_flags(&settings("llvm", false), None), stable);
    assert_eq!(
        config::build_config_flags(&settings("llvm", false), Some("-Clink-arg=-fuse-ld=mold")),
        format!("{} -Clink-arg=-fuse-ld=mold", stable)
    );
}

#[test]
fn nightly_flags_follow_the_stable_ones() {
    let nightly = "-Zthreads=0 -Zshare-generics=y -Zinline-mir=off -Zproc-macro-backtrace=off -Zvalidate-mir=off -Zcache-proc-macros -Zmacro-backtrace=off -Zspan-debug=no -Znext-solver -Zrelax-elf-relocations=y -Zprint-mono-items=off -Zalways-encode-mir=no -Zmeta-stats=no -Zbinary-dep-depinfo=off -Zno-implied-bounds-compat=y -Zlayout-seed=0 -Zno-leak-check -Zub-checks=off -Zincremental-info=off -Zflatten-format-args=yes -Zincremental-verify-ich=no -Zdual-proc-macros";
    assert_eq!(
        config::build_config_flags(&settings("cranelift", true), Some("-Clink-arg=-fuse-ld=lld")),
        format!(
            "-C debuginfo=0 -C prefer-dynamic -C metadata=dev -C embed-bitcode=no -C debug-assertions=no {} -Zcodegen-backend=cranelift -Clink-arg=-fuse-ld=lld",
            nightly
        )
    );
    assert!(config::build_config_flags(&settings("llvm", true), None).ends_with("-Zdual-proc-macros -Cno-prepopulate-passes"));
}
