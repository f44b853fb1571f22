//! The settings in `rlib.config`, and the compiler flags that follow from them.

use crate::compose;
use crate::text;
use vstd::prelude::*;
use vstd::slice::slice_subrange;
use vstd::string::*;

verus! {

/// Flags that every compilation gets.
pub const BASE_FLAGS_STABLE: &'static str = "-C debuginfo=0 \
    -C prefer-dynamic \
    -C metadata=dev \
    -C embed-bitcode=no \
    -C debug-assertions=no";

/// Flags that only a nightly compiler takes.
pub const BASE_FLAGS_NIGHTLY: &'static str = "-Zthreads=0 \
    -Zshare-generics=y \
    -Zinline-mir=off \
    -Zproc-macro-backtrace=off \
    -Zvalidate-mir=off \
    -Zcache-proc-macros \
    -Zmacro-backtrace=off \
    -Zspan-debug=no \
    -Znext-solver \
    -Zrelax-elf-relocations=y \
    -Zprint-mono-items=off \
    -Zalways-encode-mir=no \
    -Zmeta-stats=no \
    -Zbinary-dep-depinfo=off \
    -Zno-implied-bounds-compat=y \
    -Zlayout-seed=0 \
    -Zno-leak-check \
    -Zub-checks=off \
    -Zincremental-info=off \
    -Zflatten-format-args=yes \
    -Zincremental-verify-ich=no \
    -Zdual-proc-macros";

/// Flags for the LLVM backend.
pub const LLVM_FLAGS: &'static str = "-Cno-prepopulate-passes";

/// Flags for the Cranelift backend.
pub const CRANELIFT_FLAGS: &'static str = "-Zcodegen-backend=cranelift";

/// What `rlib init config` writes.
pub const CONFIG_TEMPLATE: &'static str = "\
# backend — codegen backend to use.
# Values : llvm | cranelift
# Default: cranelift
# Note   : cranelift is only active when running with 'nightly' keyword.
#          On stable, llvm is always used regardless of this setting.

backend=cranelift

# linker — linker to use for faster linking.
# Values : lld | mold | wild
# Default: mold

linker=mold

# allocator — global memory allocator for the compiler.
# Values : jemalloc | mimalloc | tcmalloc
# Default: jemalloc
# Note   : jemalloc is the compiler default allocator on Linux
#          mimalloc and tcmalloc require the shared
#          library to be installed on the system.

allocator=jemalloc
";

/// The settings of a compilation.
#[derive(Debug)]
pub struct RlibConfig {
    /// The code generator: `llvm` or `cranelift`.
    pub backend: String,
    /// The linker: `lld`, `mold` or `wild`.
    pub linker: String,
    /// The memory allocator of the compiler: `jemalloc`, `mimalloc` or `tcmalloc`.
    pub allocator: String,
    /// Whether the compiler is a nightly one.
    pub nightly: bool,
}

/// The texts of an `RlibConfig`.
pub struct ConfigView {
    pub backend: Seq<char>,
    pub linker: Seq<char>,
    pub allocator: Seq<char>,
    pub nightly: bool,
}

impl View for RlibConfig {
    type V = ConfigView;

    open spec fn view(&self) -> ConfigView {
        ConfigView {
            backend: self.backend@,
            linker: self.linker@,
            allocator: self.allocator@,
            nightly: self.nightly,
        }
    }
}

/// The settings where nothing is set.
pub open spec fn default_config() -> ConfigView {
    ConfigView {
        backend: "cranelift"@,
        linker: "mold"@,
        allocator: "jemalloc"@,
        nightly: false,
    }
}

impl Default for RlibConfig {
    fn default() -> (r: RlibConfig)
        ensures
            r@ == default_config(),
    {
        RlibConfig {
            backend: "cranelift".to_owned(),
            linker: "mold".to_owned(),
            allocator: "jemalloc".to_owned(),
            nightly: false,
        }
    }
}

// ---- reading the settings

/// Whether `v` names a code generator.
pub open spec fn is_backend(v: Seq<char>) -> bool {
    v == "llvm"@ || v == "cranelift"@
}

/// Whether `v` names a linker.
pub open spec fn is_linker(v: Seq<char>) -> bool {
    v == "lld"@ || v == "mold"@ || v == "wild"@
}

/// Whether `v` names an allocator.
pub open spec fn is_allocator(v: Seq<char>) -> bool {
    v == "jemalloc"@ || v == "mimalloc"@ || v == "tcmalloc"@
}

/// Whether a trimmed line says nothing: it is empty or a comment.
pub open spec fn says_nothing(t: Seq<char>) -> bool {
    t.len() == 0 || t[0] == '#'
}

/// What stands before the first `=` of a trimmed line, and what stands after it.
pub open spec fn key_and_value(t: Seq<char>) -> Option<(Seq<char>, Seq<char>)> {
    let i = text::find_char(t, '=');
    if i < t.len() {
        Some((text::trimmed(t.take(i)), text::trimmed(t.skip(i + 1))))
    } else {
        None
    }
}

/// The settings after `key` has been given the value `v`; `None` where there
/// is no such key or it cannot have that value.
pub open spec fn with_setting(c: ConfigView, key: Seq<char>, v: Seq<char>) -> Option<ConfigView> {
    if key == "backend"@ && is_backend(v) {
        Some(ConfigView { backend: v, ..c })
    } else if key == "linker"@ && is_linker(v) {
        Some(ConfigView { linker: v, ..c })
    } else if key == "allocator"@ && is_allocator(v) {
        Some(ConfigView { allocator: v, ..c })
    } else {
        None
    }
}

/// The settings after a line has been read.
pub open spec fn after_line(c: ConfigView, line: Seq<char>) -> ConfigView {
    let t = text::trimmed(line);
    if says_nothing(t) {
        c
    } else {
        match key_and_value(t) {
            Some((k, v)) => match with_setting(c, k, v) {
                Some(d) => d,
                None => c,
            },
            None => c,
        }
    }
}

/// Whether a line is an entry that cannot be used.
pub open spec fn is_bad_line(line: Seq<char>) -> bool {
    let t = text::trimmed(line);
    !says_nothing(t) && match key_and_value(t) {
        Some((k, v)) => with_setting(default_config(), k, v) is None,
        None => false,
    }
}

/// The settings that lines leave, starting from the defaults.
pub open spec fn after_lines(lines: Seq<Seq<char>>) -> ConfigView
    decreases lines.len(),
{
    if lines.len() == 0 {
        default_config()
    } else {
        after_line(after_lines(lines.drop_last()), lines.last())
    }
}

/// The entries among the lines that cannot be used, trimmed.
pub open spec fn bad_lines(lines: Seq<Seq<char>>) -> Seq<Seq<char>>
    decreases lines.len(),
{
    if lines.len() == 0 {
        seq![]
    } else if is_bad_line(lines.last()) {
        bad_lines(lines.drop_last()).push(text::trimmed(lines.last()))
    } else {
        bad_lines(lines.drop_last())
    }
}

/// The lines of the settings file; none if it could not be read.
pub open spec fn config_lines(content: Option<Seq<char>>) -> Seq<Seq<char>> {
    match content {
        Some(s) => text::lines_of(s),
        None => seq![],
    }
}

/// Settings that have been read, with the entries that could not be used.
pub struct LoadedConfig {
    pub config: RlibConfig,
    pub ignored: Vec<String>,
}

fn is_one_of(v: &[char], a: &str, b: &str, c: &str) -> (r: bool)
    ensures
        r == (v@ == a@ || v@ == b@ || v@ == c@),
{
    text::same(v, a) || text::same(v, b) || text::same(v, c)
}

/// Reads one line of the settings file. The result is the line, trimmed, if it
/// is an entry that cannot be used.
fn read_line(cfg: &mut RlibConfig, line: &[char]) -> (r: Option<String>)
    ensures
        final(cfg)@ == after_line(old(cfg)@, line@),
        r is Some <==> is_bad_line(line@),
        r matches Some(t) ==> t@ == text::trimmed(line@),
{
    let t = text::trim(line);
    if t.len() == 0 || t[0] == '#' {
        return None;
    }
    assert(t@.skip(0) == t@);
    let i: usize = text::find_char_from(t, '=', 0);
    if i >= t.len() {
        return None;
    }
    let k = text::trim(slice_subrange(t, 0, i));
    let v = text::trim(slice_subrange(t, i + 1, t.len()));
    assert(t@.subrange(0, i as int) == t@.take(i as int));
    assert(t@.subrange(i + 1, t@.len() as int) == t@.skip(i + 1));
    if text::same(k, "backend") && is_one_of(v, "llvm", "cranelift", "cranelift") {
        cfg.backend = text::string_of(v);
        None
    } else if text::same(k, "linker") && is_one_of(v, "lld", "mold", "wild") {
        cfg.linker = text::string_of(v);
        None
    } else if text::same(k, "allocator") && is_one_of(v, "jemalloc", "mimalloc", "tcmalloc") {
        cfg.allocator = text::string_of(v);
        None
    } else {
        Some(text::string_of(t))
    }
}

/// Reads the settings file; `None` stands for one that could not be read.
pub fn load_rlib_config(content: Option<&str>) -> (r: LoadedConfig)
    ensures
        r.config@ == after_lines(
            config_lines(
                match content {
                    Some(s) => Some(s@),
                    None => None,
                },
            ),
        ),
        text::texts(r.ignored@) == bad_lines(
            config_lines(
                match content {
                    Some(s) => Some(s@),
                    None => None,
                },
            ),
        ),
{
    let mut cfg: RlibConfig = Default::default();
    let mut ignored: Vec<String> = Vec::new();
    let source = match content {
        Some(s) => text::chars_of(s),
        None => Vec::new(),
    };
    let lines = text::split_lines(source.as_slice());
    let ghost all = text::slices(lines@);
    proof {
        assert(text::lines_of(Seq::<char>::empty()) == Seq::<Seq<char>>::empty());
        assert(all == config_lines(
            match content {
                Some(s) => Some(s@),
                None => None,
            },
        ));
        assert(all.take(0) == Seq::<Seq<char>>::empty());
        assert(text::texts(ignored@) == Seq::<Seq<char>>::empty());
    }
    let mut i: usize = 0;
    while i < lines.len()
        invariant
            i <= lines@.len(),
            all == text::slices(lines@),
            cfg@ == after_lines(all.take(i as int)),
            text::texts(ignored@) == bad_lines(all.take(i as int)),
        decreases lines@.len() - i,
    {
        proof {
            let t = all.take(i + 1);
            assert(t.drop_last() == all.take(i as int));
            assert(t.last() == lines@[i as int]@);
        }
        let ghost before = text::texts(ignored@);
        if let Some(t) = read_line(&mut cfg, lines[i]) {
            ignored.push(t);
            assert(text::texts(ignored@) == before.push(t@));
        }
        i += 1;
    }
    assert(all.take(lines@.len() as int) == all);
    LoadedConfig { config: cfg, ignored }
}

/// Whether the settings hold only values that they can have.
pub open spec fn is_valid(c: ConfigView) -> bool {
    is_backend(c.backend) && is_linker(c.linker) && is_allocator(c.allocator)
}

/// Whatever the settings file holds, the settings read from it are valid, and
/// a nightly compiler is never asked for by the file.
pub proof fn settings_are_valid(lines: Seq<Seq<char>>)
    ensures
        is_valid(after_lines(lines)),
        !after_lines(lines).nightly,
    decreases lines.len(),
{
    if lines.len() > 0 {
        settings_are_valid(lines.drop_last());
    }
}

/// Which of the three settings, if any, a line sets, and to what.
pub open spec fn sets(line: Seq<char>, key: Seq<char>) -> Option<Seq<char>> {
    let t = text::trimmed(line);
    if says_nothing(t) {
        None
    } else {
        match key_and_value(t) {
            Some((k, v)) => if k == key && with_setting(default_config(), k, v) is Some {
                Some(v)
            } else {
                None
            },
            None => None,
        }
    }
}

/// The value of a setting.
pub open spec fn setting(c: ConfigView, key: Seq<char>) -> Seq<char> {
    if key == "backend"@ {
        c.backend
    } else if key == "linker"@ {
        c.linker
    } else {
        c.allocator
    }
}

/// A setting has the value that the last line that sets it gives it.
pub proof fn last_entry_wins(lines: Seq<Seq<char>>, i: int, key: Seq<char>)
    requires
        0 <= i < lines.len(),
        sets(lines[i], key) is Some,
        forall|j: int| i < j < lines.len() ==> sets(#[trigger] lines[j], key) is None,
    ensures
        setting(after_lines(lines), key) == sets(lines[i], key)->0,
    decreases lines.len(),
{
    lemma_setting_names();
    let n = lines.len();
    if i < n - 1 {
        let front = lines.drop_last();
        assert forall|j: int| i < j < front.len() implies sets(#[trigger] front[j], key) is None by {
            assert(sets(lines[j], key) is None);
        }
        assert(front[i] == lines[i]);
        last_entry_wins(front, i, key);
        assert(sets(lines[n - 1], key) is None);
        lemma_sets(after_lines(front), lines[n - 1], key);
    } else {
        lemma_sets(after_lines(lines.drop_last()), lines[n - 1], key);
    }
}

/// A setting that no line sets has its default.
pub proof fn unset_is_default(lines: Seq<Seq<char>>, key: Seq<char>)
    requires
        key == "backend"@ || key == "linker"@ || key == "allocator"@,
        forall|j: int| 0 <= j < lines.len() ==> sets(#[trigger] lines[j], key) is None,
    ensures
        setting(after_lines(lines), key) == setting(default_config(), key),
    decreases lines.len(),
{
    lemma_setting_names();
    if lines.len() > 0 {
        let front = lines.drop_last();
        assert forall|j: int| 0 <= j < front.len() implies sets(#[trigger] front[j], key) is None by {
            assert(sets(lines[j], key) is None);
        }
        unset_is_default(front, key);
        assert(sets(lines[lines.len() - 1], key) is None);
        lemma_sets(after_lines(front), lines.last(), key);
    }
}

proof fn lemma_setting_names()
    ensures
        "backend"@ != "linker"@,
        "backend"@ != "allocator"@,
        "linker"@ != "allocator"@,
{
    reveal_strlit("backend");
    reveal_strlit("linker");
    reveal_strlit("allocator");
    assert("backend"@[0] != "linker"@[0]);
    assert("backend"@[0] != "allocator"@[0]);
    assert("linker"@[0] != "allocator"@[0]);
}

proof fn lemma_sets(c: ConfigView, line: Seq<char>, key: Seq<char>)
    ensures
        sets(line, key) matches Some(v) ==> setting(after_line(c, line), key) == v,
        sets(line, key) is None && (key == "backend"@ || key == "linker"@ || key == "allocator"@)
            ==> setting(after_line(c, line), key) == setting(c, key),
{
    lemma_setting_names();
}

// ---- the flags

/// The flags for a code generator.
pub open spec fn flags_of_backend(backend: Seq<char>) -> Seq<char> {
    if backend == "cranelift"@ {
        CRANELIFT_FLAGS@
    } else {
        LLVM_FLAGS@
    }
}

/// The flags for a code generator.
pub fn backend_flags(backend: &str) -> (r: &'static str)
    ensures
        r@ == flags_of_backend(backend@),
{
    if text::same_str(backend, "cranelift") {
        CRANELIFT_FLAGS
    } else {
        LLVM_FLAGS
    }
}

/// The program that tells whether a linker is installed, and the flags that
/// select the linker; `None` for a linker that is not known.
pub open spec fn linker_entry(name: Seq<char>) -> Option<(Seq<char>, Seq<char>)> {
    if name == "wild"@ {
        Some(("wild"@, "-Clinker=clang -Clink-args=--ld-path=wild"@))
    } else if name == "mold"@ {
        Some(("mold"@, "-Clink-arg=-fuse-ld=mold"@))
    } else if name == "lld"@ {
        Some(("ld.lld"@, "-Clink-arg=-fuse-ld=lld"@))
    } else {
        None
    }
}

/// The program that tells whether a linker is installed.
pub fn linker_program(name: &str) -> (r: Option<&'static str>)
    ensures
        r is Some <==> linker_entry(name@) is Some,
        r matches Some(p) ==> p@ == (linker_entry(name@)->0).0,
{
    if text::same_str(name, "wild") {
        Some("wild")
    } else if text::same_str(name, "mold") {
        Some("mold")
    } else if text::same_str(name, "lld") {
        Some("ld.lld")
    } else {
        None
    }
}

/// The flags that select a linker, if it is known and installed.
pub open spec fn linker_choice(name: Seq<char>, installed: bool) -> Option<Seq<char>> {
    match linker_entry(name) {
        Some((_, flags)) => if installed {
            Some(flags)
        } else {
            None
        },
        None => None,
    }
}

/// The flags that select a linker, if it is known and installed.
pub fn resolve_linker_flags(name: &str, installed: bool) -> (r: Option<&'static str>)
    ensures
        r is Some <==> linker_choice(name@, installed) is Some,
        r matches Some(f) ==> f@ == linker_choice(name@, installed)->0,
{
    if !installed {
        None
    } else if text::same_str(name, "wild") {
        Some("-Clinker=clang -Clink-args=--ld-path=wild")
    } else if text::same_str(name, "mold") {
        Some("-Clink-arg=-fuse-ld=mold")
    } else if text::same_str(name, "lld") {
        Some("-Clink-arg=-fuse-ld=lld")
    } else {
        None
    }
}

/// The flags that follow from the settings and from the linker that is used.
pub open spec fn config_flags(c: ConfigView, linker_flags: Option<Seq<char>>) -> Seq<char> {
    let base = if c.nightly {
        BASE_FLAGS_STABLE@ + " "@ + BASE_FLAGS_NIGHTLY@ + " "@ + flags_of_backend(c.backend)
    } else {
        BASE_FLAGS_STABLE@
    };
    match linker_flags {
        Some(f) => base + " "@ + f,
        None => base,
    }
}

/// The flags that follow from the settings and from the linker that is used.
pub fn build_config_flags(cfg: &RlibConfig, linker_flags: Option<&str>) -> (r: String)
    ensures
        r@ == config_flags(
            cfg@,
            match linker_flags {
                Some(f) => Some(f@),
                None => None,
            },
        ),
{
    let base = if cfg.nightly {
        compose::cat5(
            BASE_FLAGS_STABLE,
            " ",
            BASE_FLAGS_NIGHTLY,
            " ",
            backend_flags(cfg.backend.as_str()),
        )
    } else {
        BASE_FLAGS_STABLE.to_owned()
    };
    match linker_flags {
        Some(f) => compose::cat3(base.as_str(), " ", f),
        None => base,
    }
}

/// With a stable compiler the code generator that is set makes no difference.
pub proof fn stable_ignores_backend(c: ConfigView, backend: Seq<char>, linker: Option<Seq<char>>)
    requires
        !c.nightly,
    ensures
        config_flags(ConfigView { backend, ..c }, linker) == config_flags(c, linker),
{
}

} // verus!
