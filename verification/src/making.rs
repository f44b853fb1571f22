//! Compiling a library and recording it.

use crate::artifacts;
use crate::compose;
use crate::dialog;
use crate::dialog::{
    Answer, AnswerView, Ask, AskView, Line, LineView, Place, PlaceView, ProgramView,
};
use crate::manifest;
use crate::registry::{EntryView, LibEntry, Registry};
use crate::request;
use crate::request::{Request, RequestView};
use crate::text;
use vstd::prelude::*;
use vstd::string::*;

verus! {

/// A library that has been compiled: the request, the version, the key and the
/// directory that it is kept in.
#[derive(Debug)]
pub struct Made {
    pub request: Request,
    pub version: String,
    pub key: String,
    pub dir: String,
}

/// The texts of a `Made`.
pub struct MadeView {
    pub request: RequestView,
    pub version: Seq<char>,
    pub key: Seq<char>,
    pub dir: Seq<char>,
}

impl View for Made {
    type V = MadeView;

    open spec fn view(&self) -> MadeView {
        MadeView {
            request: self.request@,
            version: self.version@,
            key: self.key@,
            dir: self.dir@,
        }
    }
}

/// The state of a compilation.
#[derive(Debug)]
pub enum Build {
    Finished,
    Stopped(i32),
    MakeBase(Request),
    FindProject(Request),
    NewProject(Request),
    ReadManifest(Request),
    WriteManifest { request: Request, text: String },
    FindTarget(Request),
    RemoveTarget(Request),
    AddLibrary(Request),
    Compile(Request),
    ReadLock(Request),
    /// The directory of the library is not known yet.
    MakeOutput(Made),
    LocateOutput(Made),
    FindDeps(Made),
    LocateDeps(Made),
    ListDeps(Made),
    CopyDep { made: Made, files: Vec<String>, index: usize },
    ListOutput(Made),
    LoadIndex { made: Made, flags: String },
    SaveIndex { key: String, registry: Registry },
}

/// The texts of a `Build`.
pub enum BuildView {
    Finished,
    Stopped(i32),
    MakeBase(RequestView),
    FindProject(RequestView),
    NewProject(RequestView),
    ReadManifest(RequestView),
    WriteManifest { request: RequestView, text: Seq<char> },
    FindTarget(RequestView),
    RemoveTarget(RequestView),
    AddLibrary(RequestView),
    Compile(RequestView),
    ReadLock(RequestView),
    MakeOutput(MadeView),
    LocateOutput(MadeView),
    FindDeps(MadeView),
    LocateDeps(MadeView),
    ListDeps(MadeView),
    CopyDep { made: MadeView, files: Seq<Seq<char>>, index: int },
    ListOutput(MadeView),
    LoadIndex { made: MadeView, flags: Seq<char> },
    SaveIndex { key: Seq<char>, registry: Map<Seq<char>, EntryView> },
}

impl View for Build {
    type V = BuildView;

    open spec fn view(&self) -> BuildView {
        match self {
            Build::Finished => BuildView::Finished,
            Build::Stopped(c) => BuildView::Stopped(*c),
            Build::MakeBase(r) => BuildView::MakeBase(r@),
            Build::FindProject(r) => BuildView::FindProject(r@),
            Build::NewProject(r) => BuildView::NewProject(r@),
            Build::ReadManifest(r) => BuildView::ReadManifest(r@),
            Build::WriteManifest { request, text } => BuildView::WriteManifest {
                request: request@,
                text: text@,
            },
            Build::FindTarget(r) => BuildView::FindTarget(r@),
            Build::RemoveTarget(r) => BuildView::RemoveTarget(r@),
            Build::AddLibrary(r) => BuildView::AddLibrary(r@),
            Build::Compile(r) => BuildView::Compile(r@),
            Build::ReadLock(r) => BuildView::ReadLock(r@),
            Build::MakeOutput(m) => BuildView::MakeOutput(m@),
            Build::LocateOutput(m) => BuildView::LocateOutput(m@),
            Build::FindDeps(m) => BuildView::FindDeps(m@),
            Build::LocateDeps(m) => BuildView::LocateDeps(m@),
            Build::ListDeps(m) => BuildView::ListDeps(m@),
            Build::CopyDep { made, files, index } => BuildView::CopyDep {
                made: made@,
                files: text::texts(files@),
                index: *index as int,
            },
            Build::ListOutput(m) => BuildView::ListOutput(m@),
            Build::LoadIndex { made, flags } => BuildView::LoadIndex { made: made@, flags: flags@ },
            Build::SaveIndex { key, registry } => BuildView::SaveIndex {
                key: key@,
                registry: registry@,
            },
        }
    }
}

// ---- the questions

/// The program that makes the project in which libraries are compiled.
pub open spec fn new_project() -> ProgramView {
    dialog::plain_program("cargo"@, seq!["new"@, "--lib"@, "rlib_gen"@], Some(PlaceView::Base))
}

/// The program that adds the library to that project.
pub open spec fn add_library(r: RequestView) -> ProgramView {
    dialog::plain_program("cargo"@, request::add_args(r), Some(PlaceView::Project))
}

/// The program that compiles that project.
pub open spec fn compile_project() -> ProgramView {
    dialog::plain_program("cargo"@, seq!["build"@, "--release"@], Some(PlaceView::Project))
}

/// The question that a state asks.
pub open spec fn question(s: BuildView) -> AskView {
    match s {
        BuildView::Finished => AskView::Return,
        BuildView::Stopped(c) => AskView::Exit(c),
        BuildView::MakeBase(_) => AskView::MakeDirs(PlaceView::Base),
        BuildView::FindProject(_) => AskView::Exists(PlaceView::Project),
        BuildView::NewProject(_) => AskView::Launch(new_project()),
        BuildView::ReadManifest(_) => AskView::Read(PlaceView::ProjectManifest),
        BuildView::WriteManifest { text, .. } => AskView::Write {
            place: PlaceView::ProjectManifest,
            text,
        },
        BuildView::FindTarget(_) => AskView::Exists(PlaceView::ProjectTarget),
        BuildView::RemoveTarget(_) => AskView::RemoveDirs(PlaceView::ProjectTarget),
        BuildView::AddLibrary(r) => AskView::Launch(add_library(r)),
        BuildView::Compile(_) => AskView::Launch(compile_project()),
        BuildView::ReadLock(_) => AskView::Read(PlaceView::ProjectLock),
        BuildView::MakeOutput(m) => AskView::MakeDirs(PlaceView::Library(m.key)),
        BuildView::LocateOutput(m) => AskView::Locate(PlaceView::Library(m.key)),
        BuildView::FindDeps(_) => AskView::Exists(PlaceView::ProjectDeps),
        BuildView::LocateDeps(_) => AskView::Locate(PlaceView::ProjectDeps),
        BuildView::ListDeps(_) => AskView::Files(PlaceView::ProjectDeps),
        BuildView::CopyDep { made, index, .. } => AskView::Copy {
            index,
            to: PlaceView::Library(made.key),
        },
        BuildView::ListOutput(m) => AskView::Names(PlaceView::Library(m.key)),
        BuildView::LoadIndex { .. } => AskView::LoadRegistry,
        BuildView::SaveIndex { registry, .. } => AskView::SaveRegistry(registry),
    }
}

// ---- what follows an answer

/// The message that a program failed; `None` if it succeeded.
pub open spec fn program_failure(label: Seq<char>, r: Result<Option<i32>, Seq<char>>) -> Option<
    Seq<char>,
> {
    match r {
        Err(e) => Some("[rlib] Failed to run "@ + label + ": "@ + e),
        Ok(code) => if dialog::succeeded(code) {
            None
        } else {
            Some("[rlib] "@ + label + " failed"@)
        },
    }
}

/// After a program: on to the next state with a line, or a stop.
pub open spec fn after_program(
    label: Seq<char>,
    r: Result<Option<i32>, Seq<char>>,
    to: BuildView,
    lines: Seq<LineView>,
) -> (BuildView, Seq<LineView>) {
    match program_failure(label, r) {
        Some(message) => (BuildView::Stopped(1), seq![LineView::Warn(message)]),
        None => (to, lines),
    }
}

/// After a step that must succeed.
pub open spec fn after_done(
    head: Seq<char>,
    done: Result<(), Seq<char>>,
    to: BuildView,
    lines: Seq<LineView>,
) -> (BuildView, Seq<LineView>) {
    match done {
        Err(e) => (BuildView::Stopped(1), seq![LineView::Warn(head + e)]),
        Ok(_) => (to, lines),
    }
}

/// The line before the dependencies of the project are cleared.
pub open spec fn clearing() -> Seq<LineView> {
    seq![LineView::Out("[rlib] Clearing old dependencies from Cargo.toml..."@)]
}

/// The line before the library is added to the project.
pub open spec fn adding() -> Seq<LineView> {
    seq![LineView::Out("[rlib] Adding dependency via cargo..."@)]
}

/// The library that is made for a request, given the lock file of the project.
pub open spec fn made_for(r: RequestView, lock: Result<Seq<char>, Seq<char>>) -> MadeView {
    let version = manifest::version_in(
        manifest::lock_lines(
            match lock {
                Ok(s) => Some(s),
                Err(_) => None,
            },
        ),
        r.lib_name,
    );
    MadeView {
        request: r,
        version,
        key: request::key_of(r.lib_name, version, r.features),
        dir: seq![],
    }
}

/// After the question whether there is a project.
pub open spec fn after_find_project(r: RequestView, there: bool) -> (BuildView, Seq<LineView>) {
    if there {
        (BuildView::ReadManifest(r), clearing())
    } else {
        (BuildView::NewProject(r), seq![LineView::Out("[rlib] Creating rlib_gen project..."@)])
    }
}

/// After the manifest of the project has been read. A failure is only reported.
pub open spec fn after_read_manifest(r: RequestView, content: Result<Seq<char>, Seq<char>>) -> (
    BuildView,
    Seq<LineView>,
) {
    match content {
        Err(e) => (
            BuildView::FindTarget(r),
            seq![LineView::Warn("[rlib] Failed to read Cargo.toml: "@ + e)],
        ),
        Ok(s) => (BuildView::WriteManifest { request: r, text: manifest::cleaned(s) }, seq![]),
    }
}

/// After the manifest of the project has been written. A failure is only
/// reported.
pub open spec fn after_write_manifest(r: RequestView, done: Result<(), Seq<char>>) -> (
    BuildView,
    Seq<LineView>,
) {
    (
        BuildView::FindTarget(r),
        match done {
            Err(e) => seq![LineView::Warn("[rlib] Failed to write Cargo.toml: "@ + e)],
            Ok(_) => seq![],
        },
    )
}

/// After the question whether there are results of an earlier compilation.
pub open spec fn after_find_target(r: RequestView, there: bool) -> (BuildView, Seq<LineView>) {
    if there {
        (
            BuildView::RemoveTarget(r),
            seq![LineView::Out("[rlib] Removing target directory..."@)],
        )
    } else {
        (BuildView::AddLibrary(r), adding())
    }
}

/// After the question whether the project has compiled libraries.
pub open spec fn after_find_deps(m: MadeView, there: bool) -> (BuildView, Seq<LineView>) {
    if there {
        (BuildView::ListDeps(m), seq![])
    } else {
        (BuildView::LocateDeps(m), seq![])
    }
}

/// After the compiled libraries of the project have been listed.
pub open spec fn after_list_deps(m: MadeView, files: Result<Seq<Seq<char>>, Seq<char>>) -> (
    BuildView,
    Seq<LineView>,
) {
    match files {
        Err(e) => (
            BuildView::ListOutput(m),
            seq![LineView::Warn("[rlib] Failed to read deps directory: "@ + e)],
        ),
        Ok(v) => if v.len() == 0 {
            (BuildView::ListOutput(m), seq![])
        } else {
            (BuildView::CopyDep { made: m, files: v, index: 0 }, seq![])
        },
    }
}

/// After a file has been copied. A failure is only reported.
pub open spec fn after_copy(
    m: MadeView,
    files: Seq<Seq<char>>,
    index: int,
    done: Result<(), Seq<char>>,
) -> (BuildView, Seq<LineView>) {
    (
        if index + 1 < files.len() {
            BuildView::CopyDep { made: m, files, index: index + 1 }
        } else {
            BuildView::ListOutput(m)
        },
        match done {
            Err(e) => seq![LineView::Warn("[rlib] Failed to copy "@ + files[index] + ": "@ + e)],
            Ok(_) => seq![],
        },
    )
}

/// The flags of the library, given the names in its directory.
pub open spec fn flags_of(m: MadeView, names: Result<Seq<Seq<char>>, Seq<char>>) -> Seq<char> {
    artifacts::flags_for(
        m.dir,
        match names {
            Ok(v) => v,
            Err(_) => seq![],
        },
    )
}

/// The entry that is recorded for the library.
pub open spec fn entry_of(m: MadeView, flags: Seq<char>) -> EntryView {
    EntryView {
        flags,
        name: m.request.lib_name,
        version: m.version,
        features: m.request.features,
    }
}

/// After the registry has been stored. A failure is only reported.
pub open spec fn after_save(key: Seq<char>, done: Result<(), Seq<char>>) -> Seq<LineView> {
    (match done {
        Err(_) => seq![LineView::Warn("[rlib] Failed to write list.json"@)],
        Ok(_) => seq![],
    }) + seq![
        LineView::Clear,
        LineView::Out("[rlib] Done. Saved '"@ + key + "' to ~/.rlib/list.json"@),
    ]
}

/// The state that an answer leads to, and what is said on the way. An answer
/// that does not fit the question leaves the state as it is.
pub open spec fn next(s: BuildView, a: AnswerView) -> (BuildView, Seq<LineView>) {
    match (s, a) {
        (BuildView::MakeBase(r), AnswerView::Done(done)) => after_done(
            "[rlib] Failed to create ~/.rlib: "@,
            done,
            BuildView::FindProject(r),
            seq![],
        ),
        (BuildView::FindProject(r), AnswerView::Flag(there)) => after_find_project(r, there),
        (BuildView::NewProject(r), AnswerView::Exited(end)) => after_program(
            "cargo new"@,
            end,
            BuildView::ReadManifest(r),
            clearing(),
        ),
        (BuildView::ReadManifest(r), AnswerView::Text(content)) => after_read_manifest(r, content),
        (BuildView::WriteManifest { request, .. }, AnswerView::Done(done)) => after_write_manifest(
            request,
            done,
        ),
        (BuildView::FindTarget(r), AnswerView::Flag(there)) => after_find_target(r, there),
        (BuildView::RemoveTarget(r), AnswerView::Done(done)) => after_done(
            "[rlib] Failed to remove target directory: "@,
            done,
            BuildView::AddLibrary(r),
            adding(),
        ),
        (BuildView::AddLibrary(r), AnswerView::Exited(end)) => after_program(
            "cargo add"@,
            end,
            BuildView::Compile(r),
            seq![LineView::Out("[rlib] Building release..."@)],
        ),
        (BuildView::Compile(r), AnswerView::Exited(end)) => after_program(
            "cargo build --release"@,
            end,
            BuildView::ReadLock(r),
            seq![],
        ),
        (BuildView::ReadLock(r), AnswerView::Text(lock)) => (
            BuildView::MakeOutput(made_for(r, lock)),
            seq![],
        ),
        (BuildView::MakeOutput(m), AnswerView::Done(done)) => after_done(
            "[rlib] Failed to create output directory: "@,
            done,
            BuildView::LocateOutput(m),
            seq![],
        ),
        (BuildView::LocateOutput(m), AnswerView::Located(dir)) => (
            BuildView::FindDeps(MadeView { dir, ..m }),
            seq![LineView::Out("[rlib] Copying deps to "@ + dir + "..."@)],
        ),
        (BuildView::FindDeps(m), AnswerView::Flag(there)) => after_find_deps(m, there),
        (BuildView::LocateDeps(m), AnswerView::Located(deps)) => (
            BuildView::ListOutput(m),
            seq![LineView::Warn("[rlib] deps directory not found: "@ + deps)],
        ),
        (BuildView::ListDeps(m), AnswerView::Names(files)) => after_list_deps(m, files),
        (BuildView::CopyDep { made, files, index }, AnswerView::Done(done)) => after_copy(
            made,
            files,
            index,
            done,
        ),
        (BuildView::ListOutput(m), AnswerView::Names(names)) => (
            BuildView::LoadIndex { made: m, flags: flags_of(m, names) },
            seq![],
        ),
        (BuildView::LoadIndex { made, flags }, AnswerView::Known(index)) => (
            BuildView::SaveIndex {
                key: made.key,
                registry: index.insert(made.key, entry_of(made, flags)),
            },
            seq![],
        ),
        (BuildView::SaveIndex { key, .. }, AnswerView::Done(done)) => (
            BuildView::Finished,
            after_save(key, done),
        ),
        _ => (s, seq![]),
    }
}

/// The state after a number of answers.
pub open spec fn after(s: BuildView, answers: Seq<AnswerView>) -> BuildView
    decreases answers.len(),
{
    if answers.len() == 0 {
        s
    } else {
        next(after(s, answers.drop_last()), answers.last()).0
    }
}

// ---- the dialog

fn one(a: &str) -> (r: Vec<String>)
    ensures
        text::texts(r@) == seq![a@],
{
    let mut r: Vec<String> = Vec::new();
    request::add_text(&mut r, a);
    assert(text::texts(r@) =~= seq![a@]);
    r
}

fn stop(message: String) -> (r: (Build, Vec<Line>))
    ensures
        r.0@ == BuildView::Stopped(1),
        dialog::said(r.1@) == seq![LineView::Warn(message@)],
{
    (Build::Stopped(1), dialog::say(Line::Warn(message)))
}

fn go_on(s: Build) -> (r: (Build, Vec<Line>))
    ensures
        r.0@ == s@,
        dialog::said(r.1@) == Seq::<LineView>::empty(),
{
    (s, dialog::say_nothing())
}

fn go_on_saying(s: Build, line: &str) -> (r: (Build, Vec<Line>))
    ensures
        r.0@ == s@,
        dialog::said(r.1@) == seq![LineView::Out(line@)],
{
    (s, dialog::say(Line::Out(line.to_owned())))
}

fn go_on_warning(s: Build, message: String) -> (r: (Build, Vec<Line>))
    ensures
        r.0@ == s@,
        dialog::said(r.1@) == seq![LineView::Warn(message@)],
{
    (s, dialog::say(Line::Warn(message)))
}

/// The message that a program failed; `None` if it succeeded.
pub fn failure_of(label: &str, end: Result<Option<i32>, String>) -> (r: Option<String>)
    ensures
        request::opt_text(r) == program_failure(label@, dialog::exit_result(end)),
{
    match end {
        Err(e) => Some(compose::cat4("[rlib] Failed to run ", label, ": ", e.as_str())),
        Ok(code) => if dialog::is_success(code) {
            None
        } else {
            Some(compose::cat3("[rlib] ", label, " failed"))
        },
    }
}

fn find_out_version(request: Request, lock: Result<String, String>) -> (r: Made)
    ensures
        r@ == made_for(request@, dialog::text_result(lock)),
{
    let version = match lock {
        Ok(s) => manifest::get_lib_version(Some(s.as_str()), request.lib_name.as_str()),
        Err(_) => manifest::get_lib_version(None, request.lib_name.as_str()),
    };
    let key = request::folder_name(
        request.lib_name.as_str(),
        version.as_str(),
        &request.features,
    );
    Made { request, version, key, dir: String::new() }
}

fn start_copying(made: Made, files: Result<Vec<String>, String>) -> (r: (Build, Vec<Line>))
    ensures
        (r.0@, dialog::said(r.1@)) == after_list_deps(made@, dialog::names_result(files)),
{
    match files {
        Err(e) => go_on_warning(
            Build::ListOutput(made),
            compose::cat2("[rlib] Failed to read deps directory: ", e.as_str()),
        ),
        Ok(v) => {
            assert(text::texts(v@).len() == v@.len());
            if v.len() == 0 {
                go_on(Build::ListOutput(made))
            } else {
                go_on(Build::CopyDep { made, files: v, index: 0 })
            }
        },
    }
}

fn copied(made: Made, files: Vec<String>, index: usize, done: Result<(), String>) -> (r: (
    Build,
    Vec<Line>,
))
    requires
        index < files@.len(),
    ensures
        (r.0@, dialog::said(r.1@)) == after_copy(
            made@,
            text::texts(files@),
            index as int,
            dialog::done_result(done),
        ),
{
    let n: usize = files.len();
    let lines = match done {
        Err(e) => dialog::say(
            Line::Warn(
                compose::cat4("[rlib] Failed to copy ", files[index].as_str(), ": ", e.as_str()),
            ),
        ),
        Ok(_) => dialog::say_nothing(),
    };
    if index + 1 < n {
        (Build::CopyDep { made, files, index: index + 1 }, lines)
    } else {
        (Build::ListOutput(made), lines)
    }
}

fn list_flags(made: Made, names: Result<Vec<String>, String>) -> (r: Build)
    ensures
        r@ == (BuildView::LoadIndex {
            made: made@,
            flags: flags_of(made@, dialog::names_result(names)),
        }),
{
    let found = match names {
        Ok(v) => v,
        Err(_) => Vec::new(),
    };
    assert(names is Err ==> text::texts(found@) =~= Seq::<Seq<char>>::empty());
    let flags = artifacts::build_flags(made.dir.as_str(), &found);
    Build::LoadIndex { made, flags }
}

fn record(made: Made, flags: String, index: Registry) -> (r: Build)
    ensures
        r@ == (BuildView::SaveIndex {
            key: made@.key,
            registry: index@.insert(made@.key, entry_of(made@, flags@)),
        }),
{
    let entry = LibEntry {
        flags,
        name: made.request.lib_name,
        version: made.version,
        features: made.request.features,
    };
    let registry = index.insert(made.key.clone(), entry);
    Build::SaveIndex { key: made.key, registry }
}

fn saved(key: String, done: Result<(), String>) -> (r: Vec<Line>)
    ensures
        dialog::said(r@) == after_save(key@, dialog::done_result(done)),
{
    let mut lines = match done {
        Err(_) => dialog::say(Line::Warn("[rlib] Failed to write list.json".to_owned())),
        Ok(_) => dialog::say_nothing(),
    };
    dialog::say_more(&mut lines, Line::Clear);
    dialog::say_more(
        &mut lines,
        Line::Out(
            compose::cat3("[rlib] Done. Saved '", key.as_str(), "' to ~/.rlib/list.json"),
        ),
    );
    assert(dialog::said(lines@) =~= after_save(key@, dialog::done_result(done)));
    lines
}

fn base_made(r: Request, done: Result<(), String>) -> (n: (Build, Vec<Line>))
    ensures
        (n.0@, dialog::said(n.1@)) == after_done(
            "[rlib] Failed to create ~/.rlib: "@,
            dialog::done_result(done),
            BuildView::FindProject(r@),
            seq![],
        ),
{
    match done {
        Err(e) => stop(compose::cat2("[rlib] Failed to create ~/.rlib: ", e.as_str())),
        Ok(_) => go_on(Build::FindProject(r)),
    }
}

fn project_found(r: Request, there: bool) -> (n: (Build, Vec<Line>))
    ensures
        (n.0@, dialog::said(n.1@)) == after_find_project(r@, there),
{
    if there {
        go_on_saying(
            Build::ReadManifest(r),
            "[rlib] Clearing old dependencies from Cargo.toml...",
        )
    } else {
        go_on_saying(Build::NewProject(r), "[rlib] Creating rlib_gen project...")
    }
}

fn project_made(r: Request, end: Result<Option<i32>, String>) -> (n: (Build, Vec<Line>))
    ensures
        (n.0@, dialog::said(n.1@)) == after_program(
            "cargo new"@,
            dialog::exit_result(end),
            BuildView::ReadManifest(r@),
            clearing(),
        ),
{
    match failure_of("cargo new", end) {
        Some(message) => stop(message),
        None => go_on_saying(
            Build::ReadManifest(r),
            "[rlib] Clearing old dependencies from Cargo.toml...",
        ),
    }
}

fn manifest_read(r: Request, content: Result<String, String>) -> (n: (Build, Vec<Line>))
    ensures
        (n.0@, dialog::said(n.1@)) == after_read_manifest(r@, dialog::text_result(content)),
{
    match content {
        Err(e) => go_on_warning(
            Build::FindTarget(r),
            compose::cat2("[rlib] Failed to read Cargo.toml: ", e.as_str()),
        ),
        Ok(s) => {
            let text = manifest::clean_cargo_toml(s.as_str());
            go_on(Build::WriteManifest { request: r, text })
        },
    }
}

fn manifest_written(r: Request, done: Result<(), String>) -> (n: (Build, Vec<Line>))
    ensures
        (n.0@, dialog::said(n.1@)) == after_write_manifest(r@, dialog::done_result(done)),
{
    match done {
        Err(e) => go_on_warning(
            Build::FindTarget(r),
            compose::cat2("[rlib] Failed to write Cargo.toml: ", e.as_str()),
        ),
        Ok(_) => go_on(Build::FindTarget(r)),
    }
}

fn target_found(r: Request, there: bool) -> (n: (Build, Vec<Line>))
    ensures
        (n.0@, dialog::said(n.1@)) == after_find_target(r@, there),
{
    if there {
        go_on_saying(Build::RemoveTarget(r), "[rlib] Removing target directory...")
    } else {
        go_on_saying(Build::AddLibrary(r), "[rlib] Adding dependency via cargo...")
    }
}

fn target_removed(r: Request, done: Result<(), String>) -> (n: (Build, Vec<Line>))
    ensures
        (n.0@, dialog::said(n.1@)) == after_done(
            "[rlib] Failed to remove target directory: "@,
            dialog::done_result(done),
            BuildView::AddLibrary(r@),
            adding(),
        ),
{
    match done {
        Err(e) => stop(compose::cat2("[rlib] Failed to remove target directory: ", e.as_str())),
        Ok(_) => go_on_saying(Build::AddLibrary(r), "[rlib] Adding dependency via cargo..."),
    }
}

fn library_added(r: Request, end: Result<Option<i32>, String>) -> (n: (Build, Vec<Line>))
    ensures
        (n.0@, dialog::said(n.1@)) == after_program(
            "cargo add"@,
            dialog::exit_result(end),
            BuildView::Compile(r@),
            seq![LineView::Out("[rlib] Building release..."@)],
        ),
{
    match failure_of("cargo add", end) {
        Some(message) => stop(message),
        None => go_on_saying(Build::Compile(r), "[rlib] Building release..."),
    }
}

fn compiled(r: Request, end: Result<Option<i32>, String>) -> (n: (Build, Vec<Line>))
    ensures
        (n.0@, dialog::said(n.1@)) == after_program(
            "cargo build --release"@,
            dialog::exit_result(end),
            BuildView::ReadLock(r@),
            seq![],
        ),
{
    match failure_of("cargo build --release", end) {
        Some(message) => stop(message),
        None => go_on(Build::ReadLock(r)),
    }
}

fn output_made(m: Made, done: Result<(), String>) -> (n: (Build, Vec<Line>))
    ensures
        (n.0@, dialog::said(n.1@)) == after_done(
            "[rlib] Failed to create output directory: "@,
            dialog::done_result(done),
            BuildView::LocateOutput(m@),
            seq![],
        ),
{
    match done {
        Err(e) => stop(compose::cat2("[rlib] Failed to create output directory: ", e.as_str())),
        Ok(_) => go_on(Build::LocateOutput(m)),
    }
}

fn output_located(m: Made, dir: String) -> (n: (Build, Vec<Line>))
    ensures
        (n.0@, dialog::said(n.1@)) == (
            BuildView::FindDeps(MadeView { dir: dir@, ..m@ }),
            seq![LineView::Out("[rlib] Copying deps to "@ + dir@ + "..."@)],
        ),
{
    let line = compose::cat3("[rlib] Copying deps to ", dir.as_str(), "...");
    let made = Made { request: m.request, version: m.version, key: m.key, dir };
    go_on_saying(Build::FindDeps(made), line.as_str())
}

fn deps_found(m: Made, there: bool) -> (n: (Build, Vec<Line>))
    ensures
        (n.0@, dialog::said(n.1@)) == after_find_deps(m@, there),
{
    if there {
        go_on(Build::ListDeps(m))
    } else {
        go_on(Build::LocateDeps(m))
    }
}

/// Whether a state is one that a compilation can be in: it copies a file that
/// there is.
pub open spec fn is_sound(s: BuildView) -> bool {
    s matches BuildView::CopyDep { files, index, .. } ==> 0 <= index < files.len()
}

impl Build {
    /// The first state of a compilation.
    pub fn start(request: Request) -> (r: Build)
        ensures
            r@ == BuildView::MakeBase(request@),
            is_sound(r@),
    {
        Build::MakeBase(request)
    }

    /// The question that the state asks.
    pub fn ask(&self) -> (r: Ask)
        ensures
            r@ == question(self@),
    {
        match self {
            Build::Finished => Ask::Return,
            Build::Stopped(c) => Ask::Exit(*c),
            Build::MakeBase(_) => Ask::MakeDirs(Place::Base),
            Build::FindProject(_) => Ask::Exists(Place::Project),
            Build::NewProject(_) => {
                let mut args = one("new");
                request::add_text(&mut args, "--lib");
                request::add_text(&mut args, "rlib_gen");
                assert(text::texts(args@) =~= seq!["new"@, "--lib"@, "rlib_gen"@]);
                Ask::Launch(dialog::program("cargo", args, Some(Place::Base)))
            },
            Build::ReadManifest(_) => Ask::Read(Place::ProjectManifest),
            Build::WriteManifest { text, .. } => Ask::Write {
                place: Place::ProjectManifest,
                text: text.clone(),
            },
            Build::FindTarget(_) => Ask::Exists(Place::ProjectTarget),
            Build::RemoveTarget(_) => Ask::RemoveDirs(Place::ProjectTarget),
            Build::AddLibrary(r) => Ask::Launch(
                dialog::program("cargo", request::cargo_add_args(r), Some(Place::Project)),
            ),
            Build::Compile(_) => {
                let mut args = one("build");
                request::add_text(&mut args, "--release");
                assert(text::texts(args@) =~= seq!["build"@, "--release"@]);
                Ask::Launch(dialog::program("cargo", args, Some(Place::Project)))
            },
            Build::ReadLock(_) => Ask::Read(Place::ProjectLock),
            Build::MakeOutput(m) => Ask::MakeDirs(Place::Library(m.key.clone())),
            Build::LocateOutput(m) => Ask::Locate(Place::Library(m.key.clone())),
            Build::FindDeps(_) => Ask::Exists(Place::ProjectDeps),
            Build::LocateDeps(_) => Ask::Locate(Place::ProjectDeps),
            Build::ListDeps(_) => Ask::Files(Place::ProjectDeps),
            Build::CopyDep { made, index, .. } => Ask::Copy {
                index: *index,
                to: Place::Library(made.key.clone()),
            },
            Build::ListOutput(m) => Ask::Names(Place::Library(m.key.clone())),
            Build::LoadIndex { .. } => Ask::LoadRegistry,
            Build::SaveIndex { registry, .. } => Ask::SaveRegistry(registry.copy()),
        }
    }

    /// The state that an answer leads to, and what is said on the way.
    pub fn advance(self, answer: Answer) -> (n: (Build, Vec<Line>))
        requires
            is_sound(self@),
        ensures
            (n.0@, dialog::said(n.1@)) == next(self@, answer@),
            is_sound(n.0@),
    {
        match answer {
            Answer::Text(content) => match self {
                Build::ReadManifest(r) => manifest_read(r, content),
                Build::ReadLock(r) => go_on(Build::MakeOutput(find_out_version(r, content))),
                s => go_on(s),
            },
            Answer::Done(done) => match self {
                Build::MakeBase(r) => base_made(r, done),
                Build::WriteManifest { request, .. } => manifest_written(request, done),
                Build::RemoveTarget(r) => target_removed(r, done),
                Build::MakeOutput(m) => output_made(m, done),
                Build::CopyDep { made, files, index } => copied(made, files, index, done),
                Build::SaveIndex { key, .. } => (Build::Finished, saved(key, done)),
                s => go_on(s),
            },
            Answer::Flag(there) => match self {
                Build::FindProject(r) => project_found(r, there),
                Build::FindTarget(r) => target_found(r, there),
                Build::FindDeps(m) => deps_found(m, there),
                s => go_on(s),
            },
            Answer::Located(path) => match self {
                Build::LocateOutput(m) => output_located(m, path),
                Build::LocateDeps(m) => go_on_warning(
                    Build::ListOutput(m),
                    compose::cat2("[rlib] deps directory not found: ", path.as_str()),
                ),
                s => go_on(s),
            },
            Answer::Names(names) => match self {
                Build::ListDeps(m) => start_copying(m, names),
                Build::ListOutput(m) => go_on(list_flags(m, names)),
                s => go_on(s),
            },
            Answer::Known(index) => match self {
                Build::LoadIndex { made, flags } => go_on(record(made, flags, index)),
                s => go_on(s),
            },
            Answer::Exited(end) => match self {
                Build::NewProject(r) => project_made(r, end),
                Build::AddLibrary(r) => library_added(r, end),
                Build::Compile(r) => compiled(r, end),
                s => go_on(s),
            },
            _ => go_on(self),
        }
    }
}

} // verus!
