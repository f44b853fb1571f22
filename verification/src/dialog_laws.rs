//! What views show, and which answers count.

use crate::config::RlibConfig;
use crate::dialog;
use crate::dialog::{
    Answer, AnswerView, Ask, AskView, Compilation, Line, LineView, Output, Place, PlaceView, Program,
    SourceEntry,
};
use crate::making;
use crate::making::BuildView;
use crate::registry::{LibEntry, Registry};
use crate::request::Request;
use crate::run;
use crate::run::RunView;
use crate::testing;
use crate::testing::TestingView;
use crate::text;
use crate::upkeep;
use crate::upkeep::UpkeepView;
use vstd::prelude::*;
use vstd::string::*;

verus! {

// ---- views

/// The view of a list of texts has each of them in its place.
pub proof fn every_text_is_shown(v: Seq<String>, i: int)
    ensures
        text::texts(v).len() == v.len(),
        0 <= i < v.len() ==> text::texts(v)[i] == v[i]@,
{
}

/// The view of a program has its name, each argument, its folder and each variable.
pub proof fn a_program_is_shown_whole(p: Program, i: int)
    ensures
        p@.name == p.name@,
        p@.args.len() == p.args@.len(),
        0 <= i < p.args@.len() ==> p@.args[i] == p.args@[i]@,
        p@.env.len() == p.env@.len(),
        0 <= i < p.env@.len() ==> p@.env[i] == (p.env@[i].0@, p.env@[i].1@),
        p.dir is None <==> p@.dir is None,
        p.dir is Some ==> p@.dir == Some((p.dir->0)@),
{
}

/// The views of what programs leave, and of the entries of folders, hide nothing.
pub proof fn outputs_are_shown_whole(o: Output, c: Compilation, e: SourceEntry, i: int)
    ensures
        o@.code == o.code && o@.out == o.out@ && o@.err == o.err@,
        c@.code == c.code && c@.lines.len() == c.lines@.len(),
        0 <= i < c.lines@.len() ==> c@.lines[i] == c.lines@[i]@,
        e@.path == e.path@ && e@.name == e.name@ && e@.is_dir == e.is_dir && e@.modified
            == e.modified,
{
}

/// The view of an entry of the registry has its name, its version, its flags and each
/// of its features.
pub proof fn an_entry_is_shown_whole(e: LibEntry, i: int)
    ensures
        e@.name == e.name@,
        e@.version == e.version@,
        e@.flags == e.flags@,
        e@.features.len() == e.features@.len(),
        0 <= i < e.features@.len() ==> e@.features[i] == e.features@[i]@,
{
}

/// The view of a request has its name, each of its features and each of its options.
pub proof fn a_request_is_shown_whole(r: Request, i: int, s: String)
    ensures
        r@.lib_name == r.lib_name@,
        r@.features.len() == r.features@.len(),
        0 <= i < r.features@.len() ==> r@.features[i] == r.features@[i]@,
        r.git == Some(s) ==> r@.git == Some(s@),
        r.branch == Some(s) ==> r@.branch == Some(s@),
        r.tag == Some(s) ==> r@.tag == Some(s@),
        r.rev == Some(s) ==> r@.rev == Some(s@),
        r.git is None <==> r@.git is None,
        r.branch is None <==> r@.branch is None,
        r.tag is None <==> r@.tag is None,
        r.rev is None <==> r@.rev is None,
{
}

/// The view of settings has each of them.
pub proof fn settings_are_shown_whole(c: RlibConfig)
    ensures
        c@.backend == c.backend@,
        c@.linker == c.linker@,
        c@.allocator == c.allocator@,
        c@.nightly == c.nightly,
{
}

/// The view of what is said is what is said, line by line.
pub proof fn every_line_is_shown(v: Seq<Line>, i: int, s: String)
    ensures
        dialog::said(v).len() == v.len(),
        0 <= i < v.len() ==> dialog::said(v)[i] == v[i]@,
        Line::Out(s)@ == LineView::Out(s@),
        Line::Warn(s)@ == LineView::Warn(s@),
        Line::WarnText(s)@ == LineView::WarnText(s@),
        Line::Clear@ == LineView::Clear,
{
}

/// The view of a place is that place.
pub proof fn a_place_is_shown_as_it_is(s: String)
    ensures
        Place::Path(s)@ == PlaceView::Path(s@),
        Place::Library(s)@ == PlaceView::Library(s@),
        Place::Base@ == PlaceView::Base,
        Place::Project@ == PlaceView::Project,
        Place::ProjectManifest@ == PlaceView::ProjectManifest,
        Place::ProjectLock@ == PlaceView::ProjectLock,
        Place::ProjectTarget@ == PlaceView::ProjectTarget,
        Place::ProjectDeps@ == PlaceView::ProjectDeps,
{
}

/// The view of a question is that question.
pub proof fn a_question_is_shown_as_it_is(
    c: i32,
    s: String,
    p: Place,
    program: Program,
    pause: bool,
    index: usize,
    r: Registry,
)
    ensures
        Ask::Return@ == AskView::Return,
        Ask::Exit(c)@ == AskView::Exit(c),
        Ask::Panic(s)@ == AskView::Panic(s@),
        Ask::Read(p)@ == AskView::Read(p@),
        (Ask::Write { place: p, text: s })@ == (AskView::Write { place: p@, text: s@ }),
        Ask::Exists(p)@ == AskView::Exists(p@),
        Ask::HasEntries(p)@ == AskView::HasEntries(p@),
        Ask::MakeDirs(p)@ == AskView::MakeDirs(p@),
        Ask::RemoveDirs(p)@ == AskView::RemoveDirs(p@),
        Ask::Locate(p)@ == AskView::Locate(p@),
        Ask::Names(p)@ == AskView::Names(p@),
        Ask::Files(p)@ == AskView::Files(p@),
        (Ask::Copy { index, to: p })@ == (AskView::Copy { index: index as int, to: p@ }),
        Ask::LoadRegistry@ == AskView::LoadRegistry,
        Ask::SaveRegistry(r)@ == AskView::SaveRegistry(r@),
        Ask::Probe(s)@ == AskView::Probe(s@),
        Ask::Launch(program)@ == AskView::Launch(program@),
        Ask::Compile(program)@ == AskView::Compile(program@),
        (Ask::Capture { program, pause })@ == (AskView::Capture { program: program@, pause }),
        Ask::Clock@ == AskView::Clock,
        Ask::FineClock@ == AskView::FineClock,
        Ask::Scan(s)@ == AskView::Scan(s@),
        Ask::OpenLines(s)@ == AskView::OpenLines(s@),
        Ask::ReadLine@ == AskView::ReadLine,
{
}

/// The view of an answer is that answer, with the message of a failure.
pub proof fn an_answer_is_shown_as_it_is(
    s: String,
    b: bool,
    v: Vec<String>,
    r: Registry,
    code: Option<i32>,
    c: Compilation,
    o: Output,
    n: u64,
    m: u128,
    entries: Vec<SourceEntry>,
    i: int,
)
    ensures
        Answer::Text(Ok(s))@ == AnswerView::Text(Ok(s@)),
        Answer::Text(Err(s))@ == AnswerView::Text(Err(s@)),
        Answer::Done(Ok(()))@ == AnswerView::Done(Ok(())),
        Answer::Done(Err(s))@ == AnswerView::Done(Err(s@)),
        Answer::Flag(b)@ == AnswerView::Flag(b),
        Answer::Located(s)@ == AnswerView::Located(s@),
        Answer::Names(Ok(v))@ == AnswerView::Names(Ok(text::texts(v@))),
        Answer::Names(Err(s))@ == AnswerView::Names(Err(s@)),
        Answer::Known(r)@ == AnswerView::Known(r@),
        Answer::Exited(Ok(code))@ == AnswerView::Exited(Ok(code)),
        Answer::Exited(Err(s))@ == AnswerView::Exited(Err(s@)),
        Answer::Compiled(Ok(c))@ == AnswerView::Compiled(Ok(c@)),
        Answer::Compiled(Err(s))@ == AnswerView::Compiled(Err(s@)),
        Answer::Captured(Ok(o))@ == AnswerView::Captured(Ok(o@)),
        Answer::Captured(Err(s))@ == AnswerView::Captured(Err(s@)),
        Answer::Seconds(n)@ == AnswerView::Seconds(n),
        Answer::Nanos(m)@ == AnswerView::Nanos(m),
        Answer::Scanned(None)@ == AnswerView::Scanned(None),
        Answer::Scanned(Some(entries))@ == AnswerView::Scanned(Some(dialog::sources(entries@))),
        dialog::sources(entries@).len() == entries@.len(),
        0 <= i < entries@.len() ==> dialog::sources(entries@)[i] == entries@[i]@,
        Answer::NextLine(None)@ == AnswerView::NextLine(None),
        Answer::NextLine(Some(Ok(s)))@ == AnswerView::NextLine(Some(Ok(s@))),
        Answer::NextLine(Some(Err(s)))@ == AnswerView::NextLine(Some(Err(s@))),
{
}

// ---- answers

/// To what may be read a text is the answer; to what may be done whether it was done;
/// to a program how it ended; and to the end there is no answer.
pub proof fn a_question_has_one_kind_of_answer(ask: AskView, a: AnswerView)
    ensures
        ask is Return || ask is Exit || ask is Panic ==> !dialog::fits(ask, a),
        ask is Read ==> (dialog::fits(ask, a) <==> a is Text),
        ask is Write || ask is MakeDirs || ask is RemoveDirs || ask is Copy || ask is SaveRegistry
            || ask is OpenLines ==> (dialog::fits(ask, a) <==> a is Done),
        ask is Exists || ask is HasEntries || ask is Probe ==> (dialog::fits(ask, a) <==> a is Flag),
        ask is Locate ==> (dialog::fits(ask, a) <==> a is Located),
        ask is Names || ask is Files ==> (dialog::fits(ask, a) <==> a is Names),
        ask is LoadRegistry ==> (dialog::fits(ask, a) <==> a is Known),
        ask is Launch ==> (dialog::fits(ask, a) <==> a is Exited),
        ask is Compile ==> (dialog::fits(ask, a) <==> a is Compiled),
        ask is Capture ==> (dialog::fits(ask, a) <==> a is Captured),
        ask is Clock ==> (dialog::fits(ask, a) <==> a is Seconds),
        ask is FineClock ==> (dialog::fits(ask, a) <==> a is Nanos),
        ask is Scan ==> (dialog::fits(ask, a) <==> a is Scanned),
        ask is ReadLine ==> (dialog::fits(ask, a) <==> a is NextLine),
        dialog::is_last(ask) <==> ask is Return || ask is Exit || ask is Panic,
{
}

/// An answer that does not fit the question changes nothing, and nothing is said.
pub proof fn other_answers_change_nothing(
    u: UpkeepView,
    b: BuildView,
    r: RunView,
    t: TestingView,
    a: AnswerView,
)
    ensures
        !dialog::fits(upkeep::question(u), a) ==> upkeep::next(u, a) == (
            u,
            Seq::<LineView>::empty(),
        ),
        !dialog::fits(making::question(b), a) ==> making::next(b, a) == (
            b,
            Seq::<LineView>::empty(),
        ),
        !dialog::fits(run::question(r), a) ==> run::next(r, a) == (r, Seq::<LineView>::empty()),
        !dialog::fits(testing::question(t), a) ==> testing::next(t, a) == (
            t,
            Seq::<LineView>::empty(),
        ),
{
}

/// A program succeeded if it exited with 0, and only then; its exit code is passed on,
/// and 1 in place of none.
pub proof fn zero_is_success(code: Option<i32>, c: i32)
    ensures
        dialog::succeeded(code) <==> code is Some && code->0 == 0,
        dialog::passed_on(Some(c)) == c,
        dialog::passed_on(None) == 1,
{
}

} // verus!
