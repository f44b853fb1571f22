//! What the programs of an evaluation are given, and what is read from what they
//! print.

use crate::artifacts;
use crate::compose;
use crate::comptime;
use crate::comptime::Pass;
use crate::dialog::{OutputView, SourceEntryView};
use crate::search;
use crate::text;
use crate::text_laws;
use vstd::prelude::*;

verus! {

// ---- programs

/// The compiler is `rustc`, run where the project is. In every pass it is told the
/// source file, that these are tests, and where the program goes; in the second of
/// two passes it is told that there are results. Its arguments end with the words
/// that are passed on, all of them and in their order.
pub proof fn the_compiler_gets_every_word(
    pass: Pass,
    has_lib: bool,
    windows: bool,
    words: Seq<Seq<char>>,
)
    ensures
        ({
            let p = comptime::compiler(pass, has_lib, windows, words);
            let source = if has_lib {
                "src/lib.rs"@
            } else {
                "src/main.rs"@
            };
            let exe = if windows {
                "target/debug/deps/comptime_test.exe"@
            } else {
                "target/debug/deps/comptime_test"@
            };
            let own = p.args.take(p.args.len() - words.len());
            &&& p.name == "rustc"@
            &&& p.dir is None
            &&& p.env.len() == 0
            &&& p.args.len() >= words.len()
            &&& p.args.skip(p.args.len() - words.len()) == words
            &&& pass != Pass::Ready ==> own == seq![
                source,
                "--test"@,
                "--cfg"@,
                "feature=\"comptime\""@,
                "-o"@,
                exe,
            ]
            &&& pass == Pass::Ready ==> own == seq![
                source,
                "--test"@,
                "-C"@,
                "debuginfo=2"@,
                "--cfg"@,
                "feature=\"comptime\""@,
                "--cfg"@,
                "comptime_ready"@,
                "-o"@,
                exe,
            ]
        }),
{
    let p = comptime::compiler(pass, has_lib, windows, words);
    let own = p.args.take(p.args.len() - words.len());
    assert(p.args =~= own + words);
}

/// With `cargo` the tests are compiled with its feature and in its profile, and in the
/// second of two passes the code is told that there are results. The programs that show
/// errors differ in their arguments only.
pub proof fn cargo_compiles_the_tests(pass: Pass)
    ensures
        ({
            let ps = seq![
                comptime::compile_tests(pass),
                comptime::show_errors(pass),
                comptime::show_tests(pass),
            ];
            &&& forall|i: int|
                0 <= i < 3 ==> (#[trigger] ps[i]).name == "cargo"@ && ps[i].dir is None && ps[i].env
                    == (if pass == Pass::Ready {
                    seq![("RUSTFLAGS"@, "--cfg comptime_ready"@)]
                } else {
                    seq![]
                })
            &&& ps[0].args == seq![
                "test"@,
                "--features=comptime"@,
                "--no-run"@,
                "--message-format=json"@,
                "--profile=dev"@,
                "--"@,
                "--no-capture"@,
            ]
            &&& ps[1].args == seq![
                "test"@,
                "--features=comptime"@,
                "--no-run"@,
                "--profile=dev"@,
                "--"@,
                "--no-capture"@,
            ]
            &&& ps[2].args == seq!["test"@, "--features=comptime"@, "--no-run"@]
        }),
{
    assert(Seq::<(Seq<char>, Seq<char>)>::empty().push(("RUSTFLAGS"@, "--cfg comptime_ready"@))
        =~= seq![("RUSTFLAGS"@, "--cfg comptime_ready"@)]);
}

/// The libraries of the compiler stand in the folder `lib` below its home, which it
/// prints with white space around it; in `/lib` where it cannot be asked.
pub proof fn libraries_stand_below_the_home(
    o: OutputView,
    a: Seq<char>,
    home: Seq<char>,
    b: Seq<char>,
    e: Seq<char>,
)
    requires
        text_laws::is_blank(a),
        text_laws::is_blank(b),
        text_laws::has_solid_ends(home),
    ensures
        o.out == a + home + b ==> comptime::library_path(Ok(o)) == home + "/lib"@,
        comptime::library_path(Err(e)) == "/lib"@,
{
    text_laws::trimming_takes_off_white_space(a, home, b);
    assert(Seq::<char>::empty() + "/lib"@ =~= "/lib"@);
}

// ---- what the tests print

/// The tests are to be run again where one of the messages of their pass stands
/// anywhere in what they print, on either output, and only there.
pub proof fn messages_tell_what_is_not_settled(
    pass: Pass,
    o: OutputView,
    a: Seq<char>,
    m: Seq<char>,
    b: Seq<char>,
)
    ensures
        ({
            let own = m == "comptime error: output not found yet"@ || m == "ParseIntError"@;
            let raw = m == "comptime error: raw output not found yet"@;
            let of_the_pass = match pass {
                Pass::Single => own,
                Pass::Raw => raw,
                Pass::Ready => own || raw,
            };
            of_the_pass && (o.out == a + m + b || o.err == a + m + b) ==> comptime::is_unsettled(
                pass,
                o,
            )
        }),
        comptime::is_unsettled(pass, o) ==> exists|x: Seq<char>, n: Seq<char>, y: Seq<char>|
            {
                &&& #[trigger] (x + n + y) == o.out || x + n + y == o.err
                &&& pass == Pass::Raw ==> n == "comptime error: raw output not found yet"@
                &&& pass == Pass::Single ==> n == "comptime error: output not found yet"@ || n
                    == "ParseIntError"@
                &&& pass == Pass::Ready ==> n == "comptime error: output not found yet"@ || n
                    == "ParseIntError"@ || n == "comptime error: raw output not found yet"@
            },
{
    text_laws::occurring_is_standing_between(o.out, a, m, b);
    if comptime::is_unsettled(pass, o) {
        let m1 = "comptime error: output not found yet"@;
        let m2 = "ParseIntError"@;
        let m3 = "comptime error: raw output not found yet"@;
        let n = if pass == Pass::Raw {
            m3
        } else if comptime::printed(o, m1) {
            m1
        } else if comptime::printed(o, m2) {
            m2
        } else {
            m3
        };
        assert(comptime::printed(o, n));
        let s = if search::occurs(o.out, n) {
            o.out
        } else {
            o.err
        };
        text_laws::occurring_is_standing_between(s, a, n, b);
        let (x, y) = choose|x: Seq<char>, y: Seq<char>| s == #[trigger] (x + n + y);
        assert(x + n + y == s);
    }
}

/// A message that begins with a brace names a program where its first key
/// `"executable"` has a text that is not empty: that text, with pairs of backslashes
/// turned into one.
pub proof fn a_message_names_its_program(a: Seq<char>, path: Seq<char>, b: Seq<char>)
    requires
        !path.contains('"'),
        forall|i: int|
            0 <= i <= a.len() ==> !#[trigger] search::occurs_at(
                seq!['{'] + a + "\"executable\":\""@ + path + seq!['"'] + b,
                "\"executable\":\""@,
                i,
            ),
    ensures
        comptime::executable_in(seq!['{'] + a + "\"executable\":\""@ + path + seq!['"'] + b) == (
        if path.len() > 0 {
            Some(search::unescaped(path))
        } else {
            None
        }),
{
    let key = "\"executable\":\""@;
    let head = seq!['{'] + a;
    let tail = path + seq!['"'] + b;
    let line = seq!['{'] + a + key + path + seq!['"'] + b;
    assert(line =~= head + key + tail);
    text_laws::occurring_is_standing_between(line, head, key, tail);
    let at = a.len() as int + 1;
    assert(search::occurs_at(line, key, at));
    text_laws::first_and_last_places(line, key, at);
    let f = search::first_at(line, key);
    assert(search::occurs_at(line, key, f));
    assert(f == at);
    let rest = line.skip(f + key.len());
    assert(rest =~= tail);
    assert forall|j: int| 0 <= j < path.len() implies rest[j] != '"' by {
        assert(path.contains(path[j]));
    }
    text::lemma_find_char_is(rest, '"', path.len() as int);
    assert(rest.take(path.len() as int) =~= path);
    assert(line[0] == '{');
}

/// A line that begins otherwise names no program, nor does one without the key, nor one
/// in which the text does not end.
pub proof fn other_lines_name_no_program(line: Seq<char>)
    ensures
        line.len() == 0 || line[0] != '{' ==> comptime::executable_in(line) is None,
        !search::occurs(line, "\"executable\":\""@) ==> comptime::executable_in(line) is None,
        search::occurs(line, "\"executable\":\""@) && !line.skip(
            search::first_at(line, "\"executable\":\""@) + "\"executable\":\""@.len(),
        ).contains('"') ==> comptime::executable_in(line) is None,
{
    let key = "\"executable\":\""@;
    let rest = line.skip(search::first_at(line, key) + key.len());
    text::lemma_find_char(rest, '"');
    if text::find_char(rest, '"') < rest.len() {
        assert(rest.contains(rest[text::find_char(rest, '"')]));
    }
}

/// Of the messages the last that names a program counts.
pub proof fn the_last_program_counts(lines: Seq<Seq<char>>, line: Seq<char>)
    ensures
        comptime::last_executable(Seq::<Seq<char>>::empty()) is None,
        comptime::executable_in(line) is Some ==> comptime::last_executable(lines.push(line))
            == comptime::executable_in(line),
        comptime::executable_in(line) is None ==> comptime::last_executable(lines.push(line))
            == comptime::last_executable(lines),
{
    assert(lines.push(line).drop_last() =~= lines);
}

// ---- the sources

/// Of the entries of a directory only the files with the extension `rs` count; the time
/// of one that is later than those before it becomes the latest.
pub proof fn a_source_counts_if_it_is_later(
    latest: u64,
    entries: Seq<SourceEntryView>,
    e: SourceEntryView,
)
    ensures
        comptime::latest_among(latest, Seq::<SourceEntryView>::empty()) == latest,
        ({
            let before = comptime::latest_among(latest, entries);
            let after = comptime::latest_among(latest, entries.push(e));
            let counts = !e.is_dir && artifacts::has_extension(e.name, "rs"@) && e.modified is Some;
            &&& counts && e.modified->0 > before ==> after == e.modified->0
            &&& !counts || e.modified->0 <= before ==> after == before
        }),
{
    assert(entries.push(e).drop_last() =~= entries);
}

/// The directories among entries are gone through under their paths, in their order.
pub proof fn a_directory_is_gone_through(entries: Seq<SourceEntryView>, e: SourceEntryView)
    ensures
        comptime::dirs_among(Seq::<SourceEntryView>::empty()) == Seq::<Seq<char>>::empty(),
        e.is_dir ==> comptime::dirs_among(entries.push(e)) == comptime::dirs_among(entries).push(
            e.path,
        ),
        !e.is_dir ==> comptime::dirs_among(entries.push(e)) == comptime::dirs_among(entries),
{
    assert(entries.push(e).drop_last() =~= entries);
}

/// The project is up to date only if there are results and no source file is newer
/// than the last evaluation.
pub proof fn results_without_newer_sources_stand(latest: u64, last: u64, has_results: bool)
    ensures
        !comptime::is_stale(latest, last, has_results) <==> has_results && latest <= last,
{
}

/// The time of the last evaluation is the number that stands in the file, with white
/// space around it or not; it is 0 where the file holds no number.
pub proof fn a_stamp_is_a_number(a: Seq<char>, n: u64, b: Seq<char>, s: Seq<char>, e: Seq<char>)
    requires
        text_laws::is_blank(a),
        text_laws::is_blank(b),
    ensures
        comptime::stamp_in(Ok(a + compose::decimal(n as nat) + b)) == n,
        compose::number_in(text::trimmed(s)) is None ==> comptime::stamp_in(Ok(s)) == 0,
        comptime::stamp_in(Err(e)) == 0,
{
    let d = compose::decimal(n as nat);
    compose::lemma_decimal(n as nat);
    assert(text_laws::has_solid_ends(d));
    text_laws::trimming_takes_off_white_space(a, d, b);
    compose::decimal_is_read_back(n);
}

// ---- scripts

/// A line of a script is a command of its words, unless there is nothing but white
/// space in it or its first word begins with `#`.
pub proof fn a_line_is_a_command(a: Seq<char>, s: Seq<char>, b: Seq<char>)
    requires
        text_laws::is_blank(a),
        text_laws::is_blank(b),
        text_laws::has_solid_ends(s),
    ensures
        s.len() == 0 ==> comptime::script_command(a + s + b) is None,
        s.len() > 0 && s[0] == '#' ==> comptime::script_command(a + s + b) is None,
        s.len() > 0 && s[0] != '#' ==> comptime::script_command(a + s + b) == Some(text::words(s)),
{
    text_laws::trimming_takes_off_white_space(a, s, b);
}

} // verus!
