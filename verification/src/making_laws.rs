//! What holds of every compilation.

use crate::dialog;
use crate::dialog::AnswerView;
use crate::making;
use crate::making::BuildView;
use crate::request::RequestView;
use vstd::prelude::*;

verus! {

/// How far a state is along the way.
pub open spec fn rank(s: BuildView) -> int {
    match s {
        BuildView::MakeBase(_) => 0,
        BuildView::FindProject(_) => 1,
        BuildView::NewProject(_) => 2,
        BuildView::ReadManifest(_) => 3,
        BuildView::WriteManifest { .. } => 4,
        BuildView::FindTarget(_) => 5,
        BuildView::RemoveTarget(_) => 6,
        BuildView::AddLibrary(_) => 7,
        BuildView::Compile(_) => 8,
        BuildView::ReadLock(_) => 9,
        BuildView::MakeOutput(_) => 10,
        BuildView::LocateOutput(_) => 11,
        BuildView::FindDeps(_) => 12,
        BuildView::LocateDeps(_) => 13,
        BuildView::ListDeps(_) => 14,
        BuildView::CopyDep { .. } => 15,
        BuildView::ListOutput(_) => 16,
        BuildView::LoadIndex { .. } => 17,
        BuildView::SaveIndex { .. } => 18,
        BuildView::Finished => 19,
        BuildView::Stopped(_) => 20,
    }
}

/// Every answer leads forward: to a later state, or, while files are being
/// copied, to the next file. So a compilation comes to an end.
pub proof fn goes_forward(s: BuildView, a: AnswerView)
    requires
        dialog::fits(making::question(s), a),
    ensures
        rank(s) < rank(making::next(s, a).0) || (match (s, making::next(s, a).0) {
            (
                BuildView::CopyDep { made, files, index },
                BuildView::CopyDep { made: made2, files: files2, index: index2 },
            ) => made2 == made && files2 == files && index2 == index + 1 && index2 < files.len(),
            _ => false,
        }),
{
}

/// A compilation that stops early exits with code 1, after a message.
pub proof fn stops_with_a_message(s: BuildView, a: AnswerView)
    requires
        dialog::fits(making::question(s), a),
        making::next(s, a).0 is Stopped,
    ensures
        making::next(s, a).0 == BuildView::Stopped(1),
        making::next(s, a).1.len() == 1,
        making::next(s, a).1[0] is Warn,
{
}

/// Whether some state on the way is `Compile` or `AddLibrary`, as `adds` says,
/// and the program that it runs succeeds.
pub open spec fn program_succeeded(r: RequestView, answers: Seq<AnswerView>, adds: bool) -> bool {
    exists|i: int|
        0 <= i < answers.len() && #[trigger] answers[i] == AnswerView::Exited(Ok(Some(0i32)))
            && making::after(BuildView::MakeBase(r), answers.take(i)) == (if adds {
            BuildView::AddLibrary(r)
        } else {
            BuildView::Compile(r)
        })
}

proof fn lemma_program_succeeded_before(r: RequestView, answers: Seq<AnswerView>, adds: bool)
    requires
        answers.len() > 0,
        program_succeeded(r, answers.drop_last(), adds),
    ensures
        program_succeeded(r, answers, adds),
{
    let front = answers.drop_last();
    let i = choose|i: int|
        0 <= i < front.len() && #[trigger] front[i] == AnswerView::Exited(Ok(Some(0i32))) && making::after(
            BuildView::MakeBase(r),
            front.take(i),
        ) == (if adds {
            BuildView::AddLibrary(r)
        } else {
            BuildView::Compile(r)
        });
    assert(front.take(i) == answers.take(i));
    assert(answers[i] == front[i]);
}

/// The request that a state before the compilation is for.
pub open spec fn request_in(s: BuildView) -> Option<RequestView> {
    match s {
        BuildView::MakeBase(r) => Some(r),
        BuildView::FindProject(r) => Some(r),
        BuildView::NewProject(r) => Some(r),
        BuildView::ReadManifest(r) => Some(r),
        BuildView::WriteManifest { request, .. } => Some(request),
        BuildView::FindTarget(r) => Some(r),
        BuildView::RemoveTarget(r) => Some(r),
        BuildView::AddLibrary(r) => Some(r),
        BuildView::Compile(r) => Some(r),
        BuildView::ReadLock(r) => Some(r),
        BuildView::MakeOutput(m) => Some(m.request),
        BuildView::LocateOutput(m) => Some(m.request),
        BuildView::FindDeps(m) => Some(m.request),
        BuildView::LocateDeps(m) => Some(m.request),
        BuildView::ListDeps(m) => Some(m.request),
        BuildView::CopyDep { made, .. } => Some(made.request),
        BuildView::ListOutput(m) => Some(m.request),
        BuildView::LoadIndex { made, .. } => Some(made.request),
        _ => None,
    }
}

proof fn lemma_way(r: RequestView, answers: Seq<AnswerView>)
    ensures
        request_in(making::after(BuildView::MakeBase(r), answers)) matches Some(q) ==> q == r,
        8 <= rank(making::after(BuildView::MakeBase(r), answers)) <= 19 ==> program_succeeded(
            r,
            answers,
            true,
        ),
        9 <= rank(making::after(BuildView::MakeBase(r), answers)) <= 19 ==> program_succeeded(
            r,
            answers,
            false,
        ),
    decreases answers.len(),
{
    if answers.len() > 0 {
        let front = answers.drop_last();
        lemma_way(r, front);
        let s = making::after(BuildView::MakeBase(r), front);
        let a = answers.last();
        assert(answers.take(answers.len() - 1) == front);
        assert(answers[answers.len() - 1] == a);
        if 8 <= rank(s) <= 19 {
            lemma_program_succeeded_before(r, answers, true);
        }
        if 9 <= rank(s) <= 19 {
            lemma_program_succeeded_before(r, answers, false);
        }
    }
}

/// Whatever the answers, the registry is stored, and the compilation reported as
/// done, only after `cargo add` and `cargo build` have both succeeded.
pub proof fn records_only_what_was_compiled(r: RequestView, answers: Seq<AnswerView>)
    requires
        making::question(making::after(BuildView::MakeBase(r), answers)) is SaveRegistry || making::after(
            BuildView::MakeBase(r),
            answers,
        ) is Finished,
    ensures
        program_succeeded(r, answers, true),
        program_succeeded(r, answers, false),
{
    lemma_way(r, answers);
}

} // verus!
