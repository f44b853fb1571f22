//! What a command says to the user and asks of its surroundings.
//!
//! A command runs as a dialog: it is in a state, the state asks one question
//! (to read a file, to run a program), the answer leads to the next state, and
//! on the way there are lines to print. The last state asks to return or to
//! exit.

use crate::registry::{EntryView, Registry};
use crate::text;
use vstd::prelude::*;
use vstd::string::*;

verus! {

// ---- lines

/// Something to print.
#[derive(Debug)]
pub enum Line {
    /// A line on the standard output.
    Out(String),
    /// A line on the standard error output.
    Warn(String),
    /// A text on the standard error output, with nothing after it.
    WarnText(String),
    /// Clear the terminal.
    Clear,
}

/// The texts of a `Line`.
pub enum LineView {
    Out(Seq<char>),
    Warn(Seq<char>),
    WarnText(Seq<char>),
    Clear,
}

impl View for Line {
    type V = LineView;

    open spec fn view(&self) -> LineView {
        match self {
            Line::Out(s) => LineView::Out(s@),
            Line::Warn(s) => LineView::Warn(s@),
            Line::WarnText(s) => LineView::WarnText(s@),
            Line::Clear => LineView::Clear,
        }
    }
}

/// The texts of a list of lines.
pub open spec fn said(v: Seq<Line>) -> Seq<LineView> {
    v.map_values(|l: Line| l@)
}

/// No lines.
pub fn say_nothing() -> (r: Vec<Line>)
    ensures
        said(r@) == Seq::<LineView>::empty(),
{
    let r: Vec<Line> = Vec::new();
    assert(said(r@) =~= Seq::<LineView>::empty());
    r
}

/// One line.
pub fn say(l: Line) -> (r: Vec<Line>)
    ensures
        said(r@) == seq![l@],
{
    let mut r: Vec<Line> = Vec::new();
    r.push(l);
    assert(said(r@) =~= seq![l@]);
    r
}

/// One more line.
pub fn say_more(v: &mut Vec<Line>, l: Line)
    ensures
        said(final(v)@) == said(old(v)@).push(l@),
{
    v.push(l);
    assert(said(v@) =~= said(old(v)@).push(l@));
}

// ---- places and programs

/// A place in the file system.
#[derive(Debug)]
pub enum Place {
    /// A path, relative to the current directory unless it is absolute.
    Path(String),
    /// The directory of the compiled libraries, `~/.rlib`.
    Base,
    /// The directory of the library with a key.
    Library(String),
    /// The project in which libraries are compiled.
    Project,
    /// The `Cargo.toml` of that project.
    ProjectManifest,
    /// The `Cargo.lock` of that project.
    ProjectLock,
    /// The `target` directory of that project.
    ProjectTarget,
    /// The directory in which that project has its compiled libraries.
    ProjectDeps,
}

/// The texts of a `Place`.
pub enum PlaceView {
    Path(Seq<char>),
    Base,
    Library(Seq<char>),
    Project,
    ProjectManifest,
    ProjectLock,
    ProjectTarget,
    ProjectDeps,
}

impl View for Place {
    type V = PlaceView;

    open spec fn view(&self) -> PlaceView {
        match self {
            Place::Path(s) => PlaceView::Path(s@),
            Place::Base => PlaceView::Base,
            Place::Library(s) => PlaceView::Library(s@),
            Place::Project => PlaceView::Project,
            Place::ProjectManifest => PlaceView::ProjectManifest,
            Place::ProjectLock => PlaceView::ProjectLock,
            Place::ProjectTarget => PlaceView::ProjectTarget,
            Place::ProjectDeps => PlaceView::ProjectDeps,
        }
    }
}

/// A program to run.
#[derive(Debug)]
pub struct Program {
    pub name: String,
    pub args: Vec<String>,
    /// The directory to run it in; `None` for the current one.
    pub dir: Option<Place>,
    /// Variables to add to its environment, in this order.
    pub env: Vec<(String, String)>,
}

/// The texts of a `Program`.
pub struct ProgramView {
    pub name: Seq<char>,
    pub args: Seq<Seq<char>>,
    pub dir: Option<PlaceView>,
    pub env: Seq<(Seq<char>, Seq<char>)>,
}

/// The texts of a list of variables.
pub open spec fn variables(v: Seq<(String, String)>) -> Seq<(Seq<char>, Seq<char>)> {
    v.map_values(|p: (String, String)| (p.0@, p.1@))
}

impl View for Program {
    type V = ProgramView;

    open spec fn view(&self) -> ProgramView {
        ProgramView {
            name: self.name@,
            args: text::texts(self.args@),
            dir: match self.dir {
                Some(p) => Some(p@),
                None => None,
            },
            env: variables(self.env@),
        }
    }
}

/// A program with its arguments, run in a directory without further variables.
pub open spec fn plain_program(
    name: Seq<char>,
    args: Seq<Seq<char>>,
    dir: Option<PlaceView>,
) -> ProgramView {
    ProgramView { name, args, dir, env: seq![] }
}

/// A program with its arguments.
pub fn program(name: &str, args: Vec<String>, dir: Option<Place>) -> (r: Program)
    ensures
        r@ == plain_program(
            name@,
            text::texts(args@),
            match dir {
                Some(p) => Some(p@),
                None => None,
            },
        ),
{
    let env: Vec<(String, String)> = Vec::new();
    assert(variables(env@) =~= Seq::<(Seq<char>, Seq<char>)>::empty());
    Program { name: name.to_owned(), args, dir, env }
}

impl Place {
    /// A copy of the place.
    pub fn copy(&self) -> (r: Place)
        ensures
            r@ == self@,
    {
        match self {
            Place::Path(s) => Place::Path(s.clone()),
            Place::Base => Place::Base,
            Place::Library(s) => Place::Library(s.clone()),
            Place::Project => Place::Project,
            Place::ProjectManifest => Place::ProjectManifest,
            Place::ProjectLock => Place::ProjectLock,
            Place::ProjectTarget => Place::ProjectTarget,
            Place::ProjectDeps => Place::ProjectDeps,
        }
    }
}

impl Program {
    /// A copy of the program.
    pub fn copy(&self) -> (r: Program)
        ensures
            r@ == self@,
    {
        let mut env: Vec<(String, String)> = Vec::new();
        let mut i: usize = 0;
        let ghost all = variables(self.env@);
        assert(variables(env@) =~= all.take(0));
        while i < self.env.len()
            invariant
                i <= self.env@.len(),
                all == variables(self.env@),
                variables(env@) == all.take(i as int),
            decreases self.env@.len() - i,
        {
            let pair = (self.env[i].0.clone(), self.env[i].1.clone());
            let ghost before = variables(env@);
            proof {
                assert(all[i as int] == (pair.0@, pair.1@));
                assert(all.take(i + 1) =~= all.take(i as int).push((pair.0@, pair.1@)));
            }
            env.push(pair);
            assert(variables(env@) =~= before.push((pair.0@, pair.1@)));
            i += 1;
        }
        assert(all.take(self.env@.len() as int) =~= all);
        let dir = match &self.dir {
            Some(p) => Some(p.copy()),
            None => None,
        };
        Program { name: self.name.clone(), args: text::copy_strings(&self.args), dir, env }
    }
}

/// A program with one more variable in its environment.
pub open spec fn with_variable(
    p: ProgramView,
    name: Seq<char>,
    value: Seq<char>,
) -> ProgramView {
    ProgramView { env: p.env.push((name, value)), ..p }
}

/// Adds a variable to the environment of a program.
pub fn set_variable(p: &mut Program, name: &str, value: &str)
    ensures
        final(p)@ == with_variable(old(p)@, name@, value@),
{
    p.env.push((name.to_owned(), value.to_owned()));
    assert(variables(p.env@) =~= variables(old(p).env@).push((name@, value@)));
}

/// What a program left when it ended: its exit code, which it lacks if a
/// signal ended it, and its output.
#[derive(Debug)]
pub struct Output {
    pub code: Option<i32>,
    pub out: String,
    pub err: String,
}

/// The texts of an `Output`.
pub struct OutputView {
    pub code: Option<i32>,
    pub out: Seq<char>,
    pub err: Seq<char>,
}

impl View for Output {
    type V = OutputView;

    open spec fn view(&self) -> OutputView {
        OutputView { code: self.code, out: self.out@, err: self.err@ }
    }
}

/// What a compilation left: its exit code and the lines of its output.
#[derive(Debug)]
pub struct Compilation {
    pub code: Option<i32>,
    pub lines: Vec<String>,
}

/// The texts of a `Compilation`.
pub struct CompilationView {
    pub code: Option<i32>,
    pub lines: Seq<Seq<char>>,
}

impl View for Compilation {
    type V = CompilationView;

    open spec fn view(&self) -> CompilationView {
        CompilationView { code: self.code, lines: text::texts(self.lines@) }
    }
}

/// A program succeeded if its exit code is zero.
pub open spec fn succeeded(code: Option<i32>) -> bool {
    code == Some(0i32)
}

/// Whether a program succeeded.
pub fn is_success(code: Option<i32>) -> (r: bool)
    ensures
        r == succeeded(code),
{
    match code {
        Some(c) => c == 0,
        None => false,
    }
}

/// The exit code to pass on: that of the program, or 1 if it has none.
pub open spec fn passed_on(code: Option<i32>) -> i32 {
    match code {
        Some(c) => c,
        None => 1,
    }
}

/// The exit code to pass on.
pub fn pass_on(code: Option<i32>) -> (r: i32)
    ensures
        r == passed_on(code),
{
    match code {
        Some(c) => c,
        None => 1,
    }
}

/// One entry of a source directory.
#[derive(Debug)]
pub struct SourceEntry {
    pub path: String,
    /// The last part of the path.
    pub name: String,
    pub is_dir: bool,
    /// When it was last modified, in seconds since 1970, if that can be told.
    pub modified: Option<u64>,
}

/// The texts of a `SourceEntry`.
pub struct SourceEntryView {
    pub path: Seq<char>,
    pub name: Seq<char>,
    pub is_dir: bool,
    pub modified: Option<u64>,
}

impl View for SourceEntry {
    type V = SourceEntryView;

    open spec fn view(&self) -> SourceEntryView {
        SourceEntryView {
            path: self.path@,
            name: self.name@,
            is_dir: self.is_dir,
            modified: self.modified,
        }
    }
}

/// The texts of a list of entries of a source directory.
pub open spec fn sources(v: Seq<SourceEntry>) -> Seq<SourceEntryView> {
    v.map_values(|e: SourceEntry| e@)
}

// ---- questions

/// What a state asks of its surroundings.
#[derive(Debug)]
pub enum Ask {
    /// Return: the command is done.
    Return,
    /// Exit with a code.
    Exit(i32),
    /// Panic with a message, followed by the last failure.
    Panic(String),
    /// Read a text file. Answer: `Text`.
    Read(Place),
    /// Write a text file. Answer: `Done`.
    Write { place: Place, text: String },
    /// Tell whether a place exists. Answer: `Flag`.
    Exists(Place),
    /// Tell whether a directory exists and is not empty. Answer: `Flag`.
    HasEntries(Place),
    /// Make a directory and those above it. Answer: `Done`.
    MakeDirs(Place),
    /// Remove a directory and what it holds. Answer: `Done`.
    RemoveDirs(Place),
    /// Tell the path of a place. Answer: `Located`.
    Locate(Place),
    /// Tell the names of the entries of a directory. Answer: `Names`.
    Names(Place),
    /// Tell the paths of the files of a directory. Answer: `Names`.
    Files(Place),
    /// Copy a file of the last answer to `Files` into a directory. Answer: `Done`.
    Copy { index: usize, to: Place },
    /// Load the registry; it is empty where it cannot be read. Answer: `Known`.
    LoadRegistry,
    /// Store the registry. Answer: `Done`, with a failure only where the file
    /// cannot be opened.
    SaveRegistry(Registry),
    /// Tell whether a program runs with `--version`. Answer: `Flag`.
    Probe(String),
    /// Run a program in the open. Answer: `Exited`.
    Launch(Program),
    /// Run a program and keep the lines of its standard output that are text;
    /// its standard error output is dropped. Answer: `Compiled`.
    Compile(Program),
    /// Run a program and keep its output, where `pause` is set after waiting
    /// for a millisecond. Answer: `Captured`.
    Capture { program: Program, pause: bool },
    /// Tell the time in seconds since 1970. Answer: `Seconds`.
    Clock,
    /// Tell the time in nanoseconds since 1970. Answer: `Nanos`.
    FineClock,
    /// Tell the entries of a source directory. Answer: `Scanned`.
    Scan(String),
    /// Open a file to be read line by line. Answer: `Done`.
    OpenLines(String),
    /// Read the next line of that file. Answer: `NextLine`.
    ReadLine,
}

/// The texts of an `Ask`.
pub enum AskView {
    Return,
    Exit(i32),
    Panic(Seq<char>),
    Read(PlaceView),
    Write { place: PlaceView, text: Seq<char> },
    Exists(PlaceView),
    HasEntries(PlaceView),
    MakeDirs(PlaceView),
    RemoveDirs(PlaceView),
    Locate(PlaceView),
    Names(PlaceView),
    Files(PlaceView),
    Copy { index: int, to: PlaceView },
    LoadRegistry,
    SaveRegistry(Map<Seq<char>, EntryView>),
    Probe(Seq<char>),
    Launch(ProgramView),
    Compile(ProgramView),
    Capture { program: ProgramView, pause: bool },
    Clock,
    FineClock,
    Scan(Seq<char>),
    OpenLines(Seq<char>),
    ReadLine,
}

impl View for Ask {
    type V = AskView;

    open spec fn view(&self) -> AskView {
        match self {
            Ask::Return => AskView::Return,
            Ask::Exit(c) => AskView::Exit(*c),
            Ask::Panic(message) => AskView::Panic(message@),
            Ask::Read(p) => AskView::Read(p@),
            Ask::Write { place, text } => AskView::Write { place: place@, text: text@ },
            Ask::Exists(p) => AskView::Exists(p@),
            Ask::HasEntries(p) => AskView::HasEntries(p@),
            Ask::MakeDirs(p) => AskView::MakeDirs(p@),
            Ask::RemoveDirs(p) => AskView::RemoveDirs(p@),
            Ask::Locate(p) => AskView::Locate(p@),
            Ask::Names(p) => AskView::Names(p@),
            Ask::Files(p) => AskView::Files(p@),
            Ask::Copy { index, to } => AskView::Copy { index: *index as int, to: to@ },
            Ask::LoadRegistry => AskView::LoadRegistry,
            Ask::SaveRegistry(r) => AskView::SaveRegistry(r@),
            Ask::Probe(s) => AskView::Probe(s@),
            Ask::Launch(p) => AskView::Launch(p@),
            Ask::Compile(p) => AskView::Compile(p@),
            Ask::Capture { program, pause } => AskView::Capture {
                program: program@,
                pause: *pause,
            },
            Ask::Clock => AskView::Clock,
            Ask::FineClock => AskView::FineClock,
            Ask::Scan(s) => AskView::Scan(s@),
            Ask::OpenLines(s) => AskView::OpenLines(s@),
            Ask::ReadLine => AskView::ReadLine,
        }
    }
}

// ---- answers

/// What the surroundings answer. A failure is given by its message.
#[derive(Debug)]
pub enum Answer {
    Text(Result<String, String>),
    Done(Result<(), String>),
    Flag(bool),
    Located(String),
    Names(Result<Vec<String>, String>),
    Known(Registry),
    Exited(Result<Option<i32>, String>),
    Compiled(Result<Compilation, String>),
    Captured(Result<Output, String>),
    Seconds(u64),
    Nanos(u128),
    /// The entries, or `None` where the directory cannot be read.
    Scanned(Option<Vec<SourceEntry>>),
    /// The line, `None` at the end of the file.
    NextLine(Option<Result<String, String>>),
}

/// The texts of an `Answer`.
pub enum AnswerView {
    Text(Result<Seq<char>, Seq<char>>),
    Done(Result<(), Seq<char>>),
    Flag(bool),
    Located(Seq<char>),
    Names(Result<Seq<Seq<char>>, Seq<char>>),
    Known(Map<Seq<char>, EntryView>),
    Exited(Result<Option<i32>, Seq<char>>),
    Compiled(Result<CompilationView, Seq<char>>),
    Captured(Result<OutputView, Seq<char>>),
    Seconds(u64),
    Nanos(u128),
    Scanned(Option<Seq<SourceEntryView>>),
    NextLine(Option<Result<Seq<char>, Seq<char>>>),
}

/// The texts of a result.
pub open spec fn text_result(r: Result<String, String>) -> Result<Seq<char>, Seq<char>> {
    match r {
        Ok(s) => Ok(s@),
        Err(e) => Err(e@),
    }
}

/// The texts of a result.
pub open spec fn done_result(r: Result<(), String>) -> Result<(), Seq<char>> {
    match r {
        Ok(_) => Ok(()),
        Err(e) => Err(e@),
    }
}

/// The texts of a result.
pub open spec fn names_result(r: Result<Vec<String>, String>) -> Result<Seq<Seq<char>>, Seq<char>> {
    match r {
        Ok(v) => Ok(text::texts(v@)),
        Err(e) => Err(e@),
    }
}

/// The texts of a result.
pub open spec fn exit_result(r: Result<Option<i32>, String>) -> Result<Option<i32>, Seq<char>> {
    match r {
        Ok(c) => Ok(c),
        Err(e) => Err(e@),
    }
}

/// The texts of a result.
pub open spec fn compile_result(r: Result<Compilation, String>) -> Result<
    CompilationView,
    Seq<char>,
> {
    match r {
        Ok(c) => Ok(c@),
        Err(e) => Err(e@),
    }
}

/// The texts of a result.
pub open spec fn output_result(r: Result<Output, String>) -> Result<OutputView, Seq<char>> {
    match r {
        Ok(o) => Ok(o@),
        Err(e) => Err(e@),
    }
}

impl View for Answer {
    type V = AnswerView;

    open spec fn view(&self) -> AnswerView {
        match self {
            Answer::Text(r) => AnswerView::Text(text_result(*r)),
            Answer::Done(r) => AnswerView::Done(done_result(*r)),
            Answer::Flag(b) => AnswerView::Flag(*b),
            Answer::Located(s) => AnswerView::Located(s@),
            Answer::Names(r) => AnswerView::Names(names_result(*r)),
            Answer::Known(r) => AnswerView::Known(r@),
            Answer::Exited(r) => AnswerView::Exited(exit_result(*r)),
            Answer::Compiled(r) => AnswerView::Compiled(compile_result(*r)),
            Answer::Captured(r) => AnswerView::Captured(output_result(*r)),
            Answer::Seconds(n) => AnswerView::Seconds(*n),
            Answer::Nanos(n) => AnswerView::Nanos(*n),
            Answer::Scanned(o) => AnswerView::Scanned(
                match o {
                    Some(v) => Some(sources(v@)),
                    None => None,
                },
            ),
            Answer::NextLine(o) => AnswerView::NextLine(
                match o {
                    Some(r) => Some(text_result(*r)),
                    None => None,
                },
            ),
        }
    }
}

/// Whether an answer is one to a question. `Return`, `Exit` and `Panic` have
/// none.
pub open spec fn fits(ask: AskView, answer: AnswerView) -> bool {
    match ask {
        AskView::Return => false,
        AskView::Exit(_) => false,
        AskView::Panic(_) => false,
        AskView::Read(_) => answer is Text,
        AskView::Write { .. } => answer is Done,
        AskView::Exists(_) => answer is Flag,
        AskView::HasEntries(_) => answer is Flag,
        AskView::MakeDirs(_) => answer is Done,
        AskView::RemoveDirs(_) => answer is Done,
        AskView::Locate(_) => answer is Located,
        AskView::Names(_) => answer is Names,
        AskView::Files(_) => answer is Names,
        AskView::Copy { .. } => answer is Done,
        AskView::LoadRegistry => answer is Known,
        AskView::SaveRegistry(_) => answer is Done,
        AskView::Probe(_) => answer is Flag,
        AskView::Launch(_) => answer is Exited,
        AskView::Compile(_) => answer is Compiled,
        AskView::Capture { .. } => answer is Captured,
        AskView::Clock => answer is Seconds,
        AskView::FineClock => answer is Nanos,
        AskView::Scan(_) => answer is Scanned,
        AskView::OpenLines(_) => answer is Done,
        AskView::ReadLine => answer is NextLine,
    }
}

/// Whether a question ends the dialog.
pub open spec fn is_last(ask: AskView) -> bool {
    ask is Return || ask is Exit || ask is Panic
}

} // verus!
