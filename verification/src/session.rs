//! What a command line asks for, and the dialog that does it.

use crate::dialog;
use crate::dialog::{Answer, AnswerView, Ask, AskView, Line, LineView, PlaceView};
use crate::folder;
use crate::help;
use crate::making;
use crate::making::{Build, BuildView};
use crate::request;
use crate::run;
use crate::run::{Run, RunView};
use crate::testing;
use crate::testing::{Testing, TestingView};
use crate::text;
use crate::upkeep;
use crate::upkeep::{Upkeep, UpkeepView};
use vstd::prelude::*;
use vstd::string::*;

verus! {

/// What is being done.
#[derive(Debug)]
pub enum Task {
    Upkeep(Upkeep),
    Build(Build),
    Run(Run),
    Testing(Testing),
}

/// The texts of a `Task`.
pub enum TaskView {
    Upkeep(UpkeepView),
    Build(BuildView),
    Run(RunView),
    Testing(TestingView),
}

impl View for Task {
    type V = TaskView;

    open spec fn view(&self) -> TaskView {
        match self {
            Task::Upkeep(u) => TaskView::Upkeep(u@),
            Task::Build(b) => TaskView::Build(b@),
            Task::Run(r) => TaskView::Run(r@),
            Task::Testing(t) => TaskView::Testing(t@),
        }
    }
}

/// Whether a task is in a state that it can be in.
pub open spec fn is_sound(t: TaskView) -> bool {
    match t {
        TaskView::Upkeep(u) => upkeep::is_sound(u),
        TaskView::Build(b) => making::is_sound(b),
        TaskView::Run(r) => run::is_sound(r),
        TaskView::Testing(_) => true,
    }
}

/// The question that a task asks.
pub open spec fn question(t: TaskView) -> AskView {
    match t {
        TaskView::Upkeep(u) => upkeep::question(u),
        TaskView::Build(b) => making::question(b),
        TaskView::Run(r) => run::question(r),
        TaskView::Testing(t) => testing::question(t),
    }
}

/// The state that an answer leads a task to, and what is said on the way.
pub open spec fn next(t: TaskView, a: AnswerView) -> (TaskView, Seq<LineView>) {
    match t {
        TaskView::Upkeep(u) => {
            let n = upkeep::next(u, a);
            (TaskView::Upkeep(n.0), n.1)
        },
        TaskView::Build(b) => {
            let n = making::next(b, a);
            (TaskView::Build(n.0), n.1)
        },
        TaskView::Run(r) => {
            let n = run::next(r, a);
            (TaskView::Run(n.0), n.1)
        },
        TaskView::Testing(t) => {
            let n = testing::next(t, a);
            (TaskView::Testing(n.0), n.1)
        },
    }
}

// ---- the command line

/// Something to keep up, with nothing to say yet.
pub open spec fn to_keep(u: UpkeepView) -> (TaskView, Seq<LineView>) {
    (TaskView::Upkeep(u), seq![])
}

/// A refusal, with a message and the exit code 1.
pub open spec fn refusal(message: Seq<char>) -> (TaskView, Seq<LineView>) {
    (TaskView::Upkeep(UpkeepView::Stopped(1)), seq![LineView::Warn(message)])
}

/// The help, after which `u` follows.
pub open spec fn help_and(u: UpkeepView) -> (TaskView, Seq<LineView>) {
    (TaskView::Upkeep(u), seq![LineView::Out(help::HELP@)])
}

/// What `init` asks for.
pub open spec fn init_of(args: Seq<Seq<char>>) -> (TaskView, Seq<LineView>) {
    if args.len() < 3 || args[2] == ""@ {
        to_keep(UpkeepView::CheckConfig { both: true })
    } else if args[2] == "list"@ {
        to_keep(UpkeepView::CheckList)
    } else if args[2] == "config"@ {
        to_keep(UpkeepView::CheckConfig { both: false })
    } else {
        refusal("[rlib] Usage: rlib init | rlib init list | rlib init config"@)
    }
}

/// A command line with a list file put in the place of `args[1]`, and without
/// the word `comptime`.
pub open spec fn comptime_args(args: Seq<Seq<char>>, list: Seq<char>) -> Seq<Seq<char>> {
    seq![args[0], list] + args.skip(3)
}

/// The evaluation that a command line asks for.
pub open spec fn testing_of(args: Seq<Seq<char>>, list: Seq<char>, windows: bool) -> (
    TaskView,
    Seq<LineView>,
) {
    let n = testing::first(comptime_args(args, list), windows);
    (TaskView::Testing(n.0), n.1)
}

/// The run that a command line asks for.
pub open spec fn run_of(args: Seq<Seq<char>>) -> (TaskView, Seq<LineView>) {
    let n = run::first(args);
    (TaskView::Run(n.0), n.1)
}

/// What `this` asks for: something with `rlib.list` in the current directory.
pub open spec fn this_of(args: Seq<Seq<char>>, windows: bool) -> (TaskView, Seq<LineView>) {
    let path = "rlib.list"@;
    if args.len() < 3 {
        refusal(
            "[rlib] Usage: rlib this [add|remove] <key>, rlib this print, rlib this print for cargo, or rlib this cargo <args>"@,
        )
    } else if args[2] == "comptime"@ {
        testing_of(args, path, windows)
    } else if args[2] == "add"@ {
        if args.len() < 4 {
            refusal("[rlib] Usage: rlib this add <key>"@)
        } else {
            to_keep(UpkeepView::ReadForAdd { path, key: args[3] })
        }
    } else if args[2] == "remove"@ {
        if args.len() < 4 {
            refusal("[rlib] Usage: rlib this remove <key>"@)
        } else {
            to_keep(UpkeepView::ReadForDrop { path, key: args[3] })
        }
    } else if args[2] == "print"@ {
        if args.len() == 5 && args[3] == "for"@ && args[4] == "cargo"@ {
            to_keep(UpkeepView::ReadForPrint { path })
        } else if args.len() == 3 {
            to_keep(UpkeepView::ShowList { path })
        } else {
            refusal(
                "[rlib] Unknown command. Did you mean 'rlib this print' or 'rlib this print for cargo'?"@,
            )
        }
    } else {
        run_of(args.update(1, path))
    }
}

/// Whether the first word of a command line is a list file.
pub open spec fn looks_like_list(word: Seq<char>, is_file: bool) -> bool {
    word.contains('/') || word.contains('\\') || text::has_suffix(word, ".list"@) || is_file
}

/// What a command line asks for that begins with a list file.
pub open spec fn list_of(args: Seq<Seq<char>>, windows: bool) -> (TaskView, Seq<LineView>) {
    let path = args[1];
    if args.len() >= 3 && args[2] == "comptime"@ {
        testing_of(args, path, windows)
    } else if args.len() >= 4 && args[2] == "add"@ {
        to_keep(UpkeepView::ReadForAdd { path, key: args[3] })
    } else if args.len() >= 4 && args[2] == "remove"@ {
        to_keep(UpkeepView::ReadForDrop { path, key: args[3] })
    } else if args.len() >= 5 && args[2] == "print"@ && args[3] == "for"@ && args[4] == "cargo"@ {
        to_keep(UpkeepView::ReadForPrint { path })
    } else {
        run_of(args)
    }
}

/// What a command line asks for, the name of the program being its first word;
/// `is_file` tells whether the next word is the path of a file, and `windows`
/// whether the system is Windows.
pub open spec fn first(args: Seq<Seq<char>>, is_file: bool, windows: bool) -> (
    TaskView,
    Seq<LineView>,
) {
    if args.len() < 2 {
        help_and(UpkeepView::Stopped(0))
    } else if args[1] == "--help"@ || args[1] == "-h"@ || args[1] == "help"@ {
        help_and(UpkeepView::Finished)
    } else if args[1] == "init"@ {
        init_of(args)
    } else if args[1] == "list"@ {
        if args.len() >= 3 {
            to_keep(UpkeepView::ShowList { path: args[2] })
        } else {
            to_keep(UpkeepView::ShowRegistry)
        }
    } else if args[1] == "this"@ {
        this_of(args, windows)
    } else if args[1] == "remove"@ {
        if args.len() < 3 {
            refusal("[rlib] Usage: rlib remove <key>"@)
        } else {
            to_keep(UpkeepView::LoadForRemoval { key: args[2], windows })
        }
    } else if looks_like_list(args[1], is_file) {
        list_of(args, windows)
    } else {
        (TaskView::Build(BuildView::MakeBase(request::request_of(args))), seq![])
    }
}

fn keep(u: Upkeep) -> (r: (Task, Vec<Line>))
    ensures
        (r.0@, dialog::said(r.1@)) == to_keep(u@),
{
    (Task::Upkeep(u), dialog::say_nothing())
}

fn refuse(message: &str) -> (r: (Task, Vec<Line>))
    ensures
        (r.0@, dialog::said(r.1@)) == refusal(message@),
{
    (Task::Upkeep(Upkeep::Stopped(1)), dialog::say(Line::Warn(message.to_owned())))
}

fn print_help(u: Upkeep) -> (r: (Task, Vec<Line>))
    ensures
        (r.0@, dialog::said(r.1@)) == help_and(u@),
{
    (Task::Upkeep(u), dialog::say(Line::Out(help::HELP.to_owned())))
}

/// Whether a text stands at a place of a command line.
fn stands_at(args: &Vec<String>, i: usize, word: &str) -> (r: bool)
    ensures
        r == (i < args@.len() && text::texts(args@)[i as int] == word@),
{
    i < args.len() && text::same_str(args[i].as_str(), word)
}

fn read_init(args: &Vec<String>) -> (r: (Task, Vec<Line>))
    ensures
        (r.0@, dialog::said(r.1@)) == init_of(text::texts(args@)),
{
    if args.len() < 3 || stands_at(args, 2, "") {
        keep(Upkeep::CheckConfig { both: true })
    } else if stands_at(args, 2, "list") {
        keep(Upkeep::CheckList)
    } else if stands_at(args, 2, "config") {
        keep(Upkeep::CheckConfig { both: false })
    } else {
        refuse("[rlib] Usage: rlib init | rlib init list | rlib init config")
    }
}

/// A command line with a list file put in the place of its second word, followed
/// by the words from `from` on.
fn with_list(args: &Vec<String>, list: &str, from: usize) -> (r: Vec<String>)
    requires
        1 <= from <= args@.len(),
    ensures
        text::texts(r@) == seq![text::texts(args@)[0], list@] + text::texts(args@).skip(
            from as int,
        ),
{
    let ghost all = text::texts(args@);
    let ghost head = seq![all[0], list@];
    let mut r: Vec<String> = Vec::new();
    request::add_text(&mut r, args[0].as_str());
    request::add_text(&mut r, list);
    let mut i: usize = from;
    assert(text::texts(r@) =~= head + all.subrange(from as int, from as int));
    while i < args.len()
        invariant
            from <= i <= args@.len(),
            all == text::texts(args@),
            text::texts(r@) == head + all.subrange(from as int, i as int),
        decreases args@.len() - i,
    {
        assert((head + all.subrange(from as int, i as int)).push(all[i as int]) =~= head
            + all.subrange(from as int, i + 1));
        request::add_text(&mut r, args[i].as_str());
        i += 1;
    }
    assert(all.subrange(from as int, args@.len() as int) =~= all.skip(from as int));
    r
}

fn evaluate(args: &Vec<String>, list: &str, windows: bool) -> (r: (Task, Vec<Line>))
    requires
        args@.len() >= 3,
    ensures
        (r.0@, dialog::said(r.1@)) == testing_of(text::texts(args@), list@, windows),
{
    let n = testing::handle_comptime_subcommand(&with_list(args, list, 3), windows);
    (Task::Testing(n.0), n.1)
}

fn launch(args: &Vec<String>) -> (r: (Task, Vec<Line>))
    ensures
        (r.0@, dialog::said(r.1@)) == run_of(text::texts(args@)),
        is_sound(r.0@),
{
    let n = run::cmd_run(args);
    (Task::Run(n.0), n.1)
}

fn read_this(args: &Vec<String>, windows: bool) -> (r: (Task, Vec<Line>))
    requires
        args@.len() >= 2,
    ensures
        (r.0@, dialog::said(r.1@)) == this_of(text::texts(args@), windows),
        is_sound(r.0@),
{
    let ghost t = text::texts(args@);
    let path = "rlib.list";
    if args.len() < 3 {
        return refuse(
            "[rlib] Usage: rlib this [add|remove] <key>, rlib this print, rlib this print for cargo, or rlib this cargo <args>",
        );
    }
    if stands_at(args, 2, "comptime") {
        return evaluate(args, path, windows);
    }
    if stands_at(args, 2, "add") {
        if args.len() < 4 {
            return refuse("[rlib] Usage: rlib this add <key>");
        }
        return keep(Upkeep::ReadForAdd { path: path.to_owned(), key: args[3].clone() });
    }
    if stands_at(args, 2, "remove") {
        if args.len() < 4 {
            return refuse("[rlib] Usage: rlib this remove <key>");
        }
        return keep(Upkeep::ReadForDrop { path: path.to_owned(), key: args[3].clone() });
    }
    if stands_at(args, 2, "print") {
        if args.len() == 5 && stands_at(args, 3, "for") && stands_at(args, 4, "cargo") {
            return keep(Upkeep::ReadForPrint { path: path.to_owned() });
        }
        if args.len() == 3 {
            return keep(Upkeep::ShowList { path: path.to_owned() });
        }
        return refuse(
            "[rlib] Unknown command. Did you mean 'rlib this print' or 'rlib this print for cargo'?",
        );
    }
    let all = with_list(args, path, 2);
    assert(text::texts(all@) =~= t.update(1, path@));
    launch(&all)
}

/// Whether a word looks like the path of a list file.
fn is_list(word: &str, is_file: bool) -> (r: bool)
    ensures
        r == looks_like_list(word@, is_file),
{
    let chars = text::chars_of(word);
    let n: usize = chars.len();
    let s = chars.as_slice();
    proof {
        text::lemma_find_char(word@, '/');
        text::lemma_find_char(word@, '\\');
        assert(word@.skip(0) == word@);
    }
    text::find_char_from(s, '/', 0) < n || text::find_char_from(s, '\\', 0) < n || text::ends_with(
        s,
        ".list",
    ) || is_file
}

fn read_list(args: &Vec<String>, windows: bool) -> (r: (Task, Vec<Line>))
    requires
        args@.len() >= 2,
    ensures
        (r.0@, dialog::said(r.1@)) == list_of(text::texts(args@), windows),
        is_sound(r.0@),
{
    let path = args[1].as_str();
    if stands_at(args, 2, "comptime") {
        return evaluate(args, path, windows);
    }
    if args.len() >= 4 && stands_at(args, 2, "add") {
        return keep(Upkeep::ReadForAdd { path: path.to_owned(), key: args[3].clone() });
    }
    if args.len() >= 4 && stands_at(args, 2, "remove") {
        return keep(Upkeep::ReadForDrop { path: path.to_owned(), key: args[3].clone() });
    }
    if args.len() >= 5 && stands_at(args, 2, "print") && stands_at(args, 3, "for") && stands_at(
        args,
        4,
        "cargo",
    ) {
        return keep(Upkeep::ReadForPrint { path: path.to_owned() });
    }
    launch(args)
}

/// What a command line asks for, and what is said at once.
pub fn read_command_line(args: &Vec<String>, is_file: bool, windows: bool) -> (r: (
    Task,
    Vec<Line>,
))
    ensures
        (r.0@, dialog::said(r.1@)) == first(text::texts(args@), is_file, windows),
        is_sound(r.0@),
{
    if args.len() < 2 {
        return print_help(Upkeep::Stopped(0));
    }
    if stands_at(args, 1, "--help") || stands_at(args, 1, "-h") || stands_at(args, 1, "help") {
        return print_help(Upkeep::Finished);
    }
    if stands_at(args, 1, "init") {
        return read_init(args);
    }
    if stands_at(args, 1, "list") {
        if args.len() >= 3 {
            return keep(Upkeep::ShowList { path: args[2].clone() });
        }
        return keep(Upkeep::ShowRegistry);
    }
    if stands_at(args, 1, "this") {
        return read_this(args, windows);
    }
    if stands_at(args, 1, "remove") {
        if args.len() < 3 {
            return refuse("[rlib] Usage: rlib remove <key>");
        }
        return keep(Upkeep::LoadForRemoval { key: args[2].clone(), windows });
    }
    if is_list(args[1].as_str(), is_file) {
        return read_list(args, windows);
    }
    (Task::Build(Build::start(request::read_request(args))), dialog::say_nothing())
}

// ---- the dialog

/// A task in one of the states that it can be in.
#[derive(Debug)]
pub struct Session {
    task: Task,
}

impl View for Session {
    type V = TaskView;

    closed spec fn view(&self) -> TaskView {
        self.task@
    }
}

impl Session {
    #[verifier::type_invariant]
    spec fn wf(self) -> bool {
        is_sound(self.task@)
    }

    /// The session that a command line asks for, and what is said at once.
    pub fn start(args: &Vec<String>, is_file: bool, windows: bool) -> (r: (Session, Vec<Line>))
        ensures
            (r.0@, dialog::said(r.1@)) == first(text::texts(args@), is_file, windows),
            is_sound(r.0@),
    {
        let n = read_command_line(args, is_file, windows);
        (Session { task: n.0 }, n.1)
    }

    /// The question that the session asks.
    pub fn ask(&self) -> (r: Ask)
        ensures
            r@ == question(self@),
    {
        proof {
            use_type_invariant(self);
        }
        match &self.task {
            Task::Upkeep(u) => u.ask(),
            Task::Build(b) => b.ask(),
            Task::Run(r) => r.ask(),
            Task::Testing(t) => t.ask(),
        }
    }

    /// The session after an answer, and what is said on the way.
    pub fn advance(self, answer: Answer) -> (n: (Session, Vec<Line>))
        ensures
            (n.0@, dialog::said(n.1@)) == next(self@, answer@),
            is_sound(n.0@),
    {
        proof {
            use_type_invariant(&self);
        }
        match self.task {
            Task::Upkeep(u) => {
                let n = u.advance(answer);
                (Session { task: Task::Upkeep(n.0) }, n.1)
            },
            Task::Build(b) => {
                let n = b.advance(answer);
                (Session { task: Task::Build(n.0) }, n.1)
            },
            Task::Run(r) => {
                let n = r.advance(answer);
                (Session { task: Task::Run(n.0) }, n.1)
            },
            Task::Testing(t) => {
                let n = t.advance(answer);
                (Session { task: Task::Testing(n.0) }, n.1)
            },
        }
    }
}

// ---- laws

/// `this` stands for `rlib.list`: what can be asked of a list file by its path
/// can be asked of the one in the current directory, with the same words.
pub proof fn this_is_the_list_here(
    args: Seq<Seq<char>>,
    is_file: bool,
    other_is_file: bool,
    windows: bool,
)
    requires
        args.len() >= 3,
        args[1] == "this"@,
        args[2] == "add"@ || args[2] == "remove"@ ==> args.len() >= 4,
        args[2] == "print"@ ==> args.len() == 5 && args[3] == "for"@ && args[4] == "cargo"@,
    ensures
        first(args, is_file, windows) == first(
            args.update(1, "rlib.list"@),
            other_is_file,
            windows,
        ),
{
    reveal_strlit("rlib.list");
    reveal_strlit("this");
    reveal_strlit("--help");
    reveal_strlit("-h");
    reveal_strlit("help");
    reveal_strlit("init");
    reveal_strlit("list");
    reveal_strlit("remove");
    reveal_strlit("add");
    reveal_strlit("print");
    reveal_strlit("comptime");
    reveal_strlit(".list");
    let path = "rlib.list"@;
    let other = args.update(1, path);
    assert(path[0] == 'r' && path.len() == 9);
    assert("this"@[0] == 't' && "--help"@[0] == '-' && "-h"@[0] == '-' && "help"@[0] == 'h');
    assert("init"@[0] == 'i' && "list"@[0] == 'l' && "remove"@.len() == 6);
    assert(path.skip(4) =~= ".list"@);
    assert(looks_like_list(path, other_is_file));
    assert(args.skip(3) =~= other.skip(3));
    assert(comptime_args(args, path) =~= comptime_args(other, path));
    assert("add"@[0] == 'a' && "print"@[0] == 'p' && "comptime"@[0] == 'c');
    assert("remove"@[0] == 'r');
}

/// A command line that is refused at once gets the exit code 1 and one message
/// that says what is wrong; only one without words gets the help and the exit
/// code 0.
pub proof fn refusals_say_why(args: Seq<Seq<char>>, is_file: bool, windows: bool, code: i32)
    requires
        first(args, is_file, windows).0 == TaskView::Upkeep(UpkeepView::Stopped(code)),
    ensures
        args.len() < 2 ==> code == 0 && first(args, is_file, windows).1 == seq![
            LineView::Out(help::HELP@),
        ],
        args.len() >= 2 ==> code == 1 && first(args, is_file, windows).1.len() == 1 && first(
            args,
            is_file,
            windows,
        ).1[0] is Warn,
{
}

/// The task after answers.
pub open spec fn after(t: TaskView, answers: Seq<AnswerView>) -> TaskView
    decreases answers.len(),
{
    if answers.len() == 0 {
        t
    } else {
        next(after(t, answers.drop_last()), answers.last()).0
    }
}

/// Whether a task that removes a library is on the given kind of system, and in a
/// state that it can be in.
spec fn removes_on(t: TaskView, windows: bool) -> bool {
    match t {
        TaskView::Upkeep(u) => upkeep::is_sound(u) && match u {
            UpkeepView::LoadForRemoval { windows: w, .. } => w == windows,
            UpkeepView::SaveRemoval { windows: w, .. } => w == windows,
            UpkeepView::LocateRemoval { windows: w, .. } => w == windows,
            UpkeepView::FindRemoval { windows: w, .. } => w == windows,
            UpkeepView::DeleteRemoval { windows: w, .. } => w == windows,
            _ => true,
        },
        _ => true,
    }
}

proof fn lemma_removes_on(t: TaskView, windows: bool, answers: Seq<AnswerView>)
    requires
        removes_on(t, windows),
    ensures
        removes_on(after(t, answers), windows),
    decreases answers.len(),
{
    if answers.len() > 0 {
        lemma_removes_on(t, windows, answers.drop_last());
        if let TaskView::Upkeep(u) = after(t, answers.drop_last()) {
            upkeep::next_is_sound(u, answers.last());
        }
    }
}

/// Whatever the command line and the answers, what is removed with all that it
/// holds is either the `target` directory of the project in which libraries are
/// compiled, or the folder of a key below `~/.rlib`.
pub proof fn removes_only_below_the_base(
    args: Seq<Seq<char>>,
    is_file: bool,
    windows: bool,
    answers: Seq<AnswerView>,
)
    requires
        question(after(first(args, is_file, windows).0, answers)) is RemoveDirs,
    ensures
        match question(after(first(args, is_file, windows).0, answers)) {
            AskView::RemoveDirs(PlaceView::ProjectTarget) => true,
            AskView::RemoveDirs(PlaceView::Library(key)) => folder::stays_below(key, windows),
            _ => false,
        },
{
    lemma_removes_on(first(args, is_file, windows).0, windows, answers);
}

/// After the end nothing follows: whatever the answer, the task stays as it is
/// and says nothing more.
pub proof fn nothing_follows_the_end(t: TaskView, a: AnswerView)
    requires
        dialog::is_last(question(t)),
    ensures
        next(t, a) == (t, Seq::<LineView>::empty()),
{
}

} // verus!
