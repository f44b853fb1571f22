//! What each command line leads to.

use crate::dialog::{AnswerView, AskView, LineView, PlaceView};
use crate::help;
use crate::making;
use crate::making::BuildView;
use crate::request;
use crate::run;
use crate::run::RunView;
use crate::session;
use crate::session::TaskView;
use crate::testing;
use crate::testing::TestingView;
use crate::text;
use crate::text_laws;
use crate::upkeep;
use crate::upkeep::UpkeepView;
use vstd::prelude::*;

verus! {

/// Whether a command line leads to a question at once, and says these lines.
pub open spec fn opens(
    args: Seq<Seq<char>>,
    is_file: bool,
    windows: bool,
    ask: AskView,
    lines: Seq<LineView>,
) -> bool {
    let n = session::first(args, is_file, windows);
    session::question(n.0) == ask && n.1 == lines
}

/// Without arguments, and where it is asked for, there is the help and nothing else;
/// without arguments the program exits with 0.
pub proof fn help_is_shown(args: Seq<Seq<char>>, is_file: bool, windows: bool)
    ensures
        args.len() < 2 ==> opens(
            args,
            is_file,
            windows,
            AskView::Exit(0),
            seq![LineView::Out(help::HELP@)],
        ),
        args.len() >= 2 && (args[1] == "--help"@ || args[1] == "-h"@ || args[1] == "help"@) ==> opens(
            args,
            is_file,
            windows,
            AskView::Return,
            seq![LineView::Out(help::HELP@)],
        ),
{
}

proof fn lemma_first_words()
    ensures
        "init"@ != "--help"@,
        "init"@ != "-h"@,
        "init"@ != "help"@,
        "list"@ != "--help"@,
        "list"@ != "-h"@,
        "list"@ != "help"@,
        "list"@ != "init"@,
        "this"@ != "--help"@,
        "this"@ != "-h"@,
        "this"@ != "help"@,
        "this"@ != "init"@,
        "this"@ != "list"@,
        "remove"@ != "--help"@,
        "remove"@ != "-h"@,
        "remove"@ != "help"@,
        "remove"@ != "init"@,
        "remove"@ != "list"@,
        "remove"@ != "this"@,
{
    reveal_strlit("init");
    reveal_strlit("--help");
    reveal_strlit("-h");
    reveal_strlit("help");
    reveal_strlit("list");
    reveal_strlit("this");
    reveal_strlit("remove");
    assert("init"@[0] == 'i');
    assert("help"@[0] == 'h');
    assert("list"@[0] == 'l');
    assert("this"@[0] == 't');
    assert("init"@.len() == 4 && "help"@.len() == 4 && "list"@.len() == 4 && "this"@.len() == 4);
    assert("-h"@.len() == 2 && "--help"@.len() == 6 && "remove"@.len() == 6);
    assert("--help"@[0] == '-');
    assert("remove"@[0] == 'r');
}

/// `init` begins with the settings file, and goes on to the list file unless it is
/// asked for one of them.
pub proof fn init_sets_up(args: Seq<Seq<char>>, is_file: bool, windows: bool)
    requires
        args.len() >= 2,
        args[1] == "init"@,
    ensures
        ({
            let config = AskView::Exists(PlaceView::Path("rlib.config"@));
            let list = AskView::Exists(PlaceView::Path("rlib.list"@));
            let all = args.len() == 2 || args[2].len() == 0;
            let t = session::first(args, is_file, windows).0;
            let written = session::next(
                session::next(t, AnswerView::Flag(false)).0,
                AnswerView::Done(Ok(())),
            ).0;
            &&& all ==> opens(args, is_file, windows, config, seq![]) && session::question(written)
                == list
            &&& !all && args[2] == "config"@ ==> opens(args, is_file, windows, config, seq![])
                && session::question(written) == AskView::Return
            &&& !all && args[2] == "list"@ ==> opens(args, is_file, windows, list, seq![])
            &&& !all && args[2] != "config"@ && args[2] != "list"@ ==> opens(
                args,
                is_file,
                windows,
                AskView::Exit(1),
                seq![LineView::Warn("[rlib] Usage: rlib init | rlib init list | rlib init config"@)],
            )
        }),
{
    lemma_first_words();
    reveal_strlit("");
    reveal_strlit("config");
    reveal_strlit("list");
    assert("config"@.len() == 6 && "list"@.len() == 4 && ""@.len() == 0);
    if args.len() > 2 && args[2].len() == 0 {
        assert(args[2] =~= ""@);
    }
}

/// `list` shows the registry, or the list file that follows it; `remove` loads the
/// registry to take out the key that follows it.
pub proof fn list_and_remove_name_their_subject(
    args: Seq<Seq<char>>,
    is_file: bool,
    windows: bool,
)
    requires
        args.len() >= 2,
    ensures
        ({
            let t = session::first(args, is_file, windows).0;
            &&& args[1] == "list"@ && args.len() == 2 ==> opens(
                args,
                is_file,
                windows,
                AskView::LoadRegistry,
                seq![],
            ) && t == TaskView::Upkeep(UpkeepView::ShowRegistry)
            &&& args[1] == "list"@ && args.len() > 2 ==> opens(
                args,
                is_file,
                windows,
                AskView::Read(PlaceView::Path(args[2])),
                seq![],
            ) && t == TaskView::Upkeep(UpkeepView::ShowList { path: args[2] })
            &&& args[1] == "remove"@ && args.len() == 2 ==> opens(
                args,
                is_file,
                windows,
                AskView::Exit(1),
                seq![LineView::Warn("[rlib] Usage: rlib remove <key>"@)],
            )
            &&& args[1] == "remove"@ && args.len() > 2 ==> opens(
                args,
                is_file,
                windows,
                AskView::LoadRegistry,
                seq![],
            ) && t == TaskView::Upkeep(UpkeepView::LoadForRemoval { key: args[2], windows })
        }),
{
    lemma_first_words();
}

proof fn lemma_second_words()
    ensures
        "add"@ != "comptime"@,
        "remove"@ != "comptime"@,
        "remove"@ != "add"@,
        "print"@ != "comptime"@,
        "print"@ != "add"@,
        "print"@ != "remove"@,
{
    reveal_strlit("add");
    reveal_strlit("comptime");
    reveal_strlit("remove");
    reveal_strlit("print");
    assert("add"@.len() == 3 && "comptime"@.len() == 8 && "remove"@.len() == 6 && "print"@.len()
        == 5);
}

/// `this` is about the list file `rlib.list`: its keys are added, removed or shown, its
/// dependencies are printed, and everything else is run with it.
pub proof fn this_is_about_the_list_here(args: Seq<Seq<char>>, is_file: bool, windows: bool)
    requires
        args.len() >= 2,
        args[1] == "this"@,
    ensures
        ({
            let path = "rlib.list"@;
            let read = AskView::Read(PlaceView::Path(path));
            let t = session::first(args, is_file, windows).0;
            let lines = session::first(args, is_file, windows).1;
            let for_cargo = args.len() == 5 && args[3] == "for"@ && args[4] == "cargo"@;
            &&& args.len() == 2 ==> opens(
                args,
                is_file,
                windows,
                AskView::Exit(1),
                seq![
                    LineView::Warn(
                        "[rlib] Usage: rlib this [add|remove] <key>, rlib this print, rlib this print for cargo, or rlib this cargo <args>"@,
                    ),
                ],
            )
            &&& args.len() == 3 && args[2] == "add"@ ==> opens(
                args,
                is_file,
                windows,
                AskView::Exit(1),
                seq![LineView::Warn("[rlib] Usage: rlib this add <key>"@)],
            )
            &&& args.len() == 3 && args[2] == "remove"@ ==> opens(
                args,
                is_file,
                windows,
                AskView::Exit(1),
                seq![LineView::Warn("[rlib] Usage: rlib this remove <key>"@)],
            )
            &&& args.len() > 3 && args[2] == "add"@ ==> opens(args, is_file, windows, read, seq![])
                && t == TaskView::Upkeep(UpkeepView::ReadForAdd { path, key: args[3] })
            &&& args.len() > 3 && args[2] == "remove"@ ==> opens(
                args,
                is_file,
                windows,
                read,
                seq![],
            ) && t == TaskView::Upkeep(UpkeepView::ReadForDrop { path, key: args[3] })
            &&& args.len() == 3 && args[2] == "print"@ ==> opens(
                args,
                is_file,
                windows,
                read,
                seq![],
            ) && t == TaskView::Upkeep(UpkeepView::ShowList { path })
            &&& args.len() > 3 && args[2] == "print"@ && for_cargo ==> opens(
                args,
                is_file,
                windows,
                read,
                seq![],
            ) && t == TaskView::Upkeep(UpkeepView::ReadForPrint { path })
            &&& args.len() > 3 && args[2] == "print"@ && !for_cargo ==> opens(
                args,
                is_file,
                windows,
                AskView::Exit(1),
                seq![
                    LineView::Warn(
                        "[rlib] Unknown command. Did you mean 'rlib this print' or 'rlib this print for cargo'?"@,
                    ),
                ],
            )
            &&& args.len() > 2 && args[2] == "comptime"@ ==> {
                let n = testing::first(seq![args[0], path] + args.skip(3), windows);
                t == TaskView::Testing(n.0) && lines == n.1
            }
            &&& args.len() > 2 && args[2] != "add"@ && args[2] != "remove"@ && args[2] != "print"@
                && args[2] != "comptime"@ ==> {
                let n = run::first(seq![args[0], path] + args.skip(2));
                t == TaskView::Run(n.0) && lines == n.1
            }
        }),
{
    lemma_first_words();
    lemma_second_words();
    if args.len() > 2 {
        assert(args.update(1, "rlib.list"@) =~= seq![args[0], "rlib.list"@] + args.skip(2));
    }
}

/// Whether a word is none of the commands.
pub open spec fn is_no_command(word: Seq<char>) -> bool {
    word != "--help"@ && word != "-h"@ && word != "help"@ && word != "init"@ && word != "list"@
        && word != "this"@ && word != "remove"@
}

/// A word is a list file where it is the path of a file, holds a slash or a backslash,
/// or ends in `.list`; every other word is a library.
pub proof fn paths_are_list_files(a: Seq<char>, b: Seq<char>, word: Seq<char>, is_file: bool)
    ensures
        session::looks_like_list(word, true),
        session::looks_like_list(a + seq!['/'] + b, is_file),
        session::looks_like_list(a + seq!['\\'] + b, is_file),
        session::looks_like_list(a + ".list"@, is_file),
        session::looks_like_list(word, false) ==> word.contains('/') || word.contains('\\') || (
        exists|x: Seq<char>| word == #[trigger] (x + ".list"@)),
{
    assert((a + seq!['/'] + b)[a.len() as int] == '/');
    assert((a + seq!['\\'] + b)[a.len() as int] == '\\');
    assert((a + seq!['/'] + b).contains('/'));
    assert((a + seq!['\\'] + b).contains('\\'));
    text_laws::suffix_and_rest(a + ".list"@, ".list"@, a);
    text_laws::suffix_and_rest(word, ".list"@, a);
    if text::has_suffix(word, ".list"@) {
        let x = text::before_suffix(word, ".list"@);
        assert(word == x + ".list"@);
    }
}

/// With a list file its keys are added and removed, its dependencies are printed, and
/// everything else is run with it.
pub proof fn a_list_file_is_worked_with(args: Seq<Seq<char>>, is_file: bool, windows: bool)
    requires
        args.len() >= 2,
        is_no_command(args[1]),
        session::looks_like_list(args[1], is_file),
    ensures
        ({
            let path = args[1];
            let read = AskView::Read(PlaceView::Path(path));
            let t = session::first(args, is_file, windows).0;
            let lines = session::first(args, is_file, windows).1;
            let adds = args.len() >= 4 && args[2] == "add"@;
            let drops = args.len() >= 4 && args[2] == "remove"@;
            let prints = args.len() >= 5 && args[2] == "print"@ && args[3] == "for"@ && args[4]
                == "cargo"@;
            let evaluates = args.len() >= 3 && args[2] == "comptime"@;
            &&& adds ==> opens(args, is_file, windows, read, seq![]) && t == TaskView::Upkeep(
                UpkeepView::ReadForAdd { path, key: args[3] },
            )
            &&& drops ==> opens(args, is_file, windows, read, seq![]) && t == TaskView::Upkeep(
                UpkeepView::ReadForDrop { path, key: args[3] },
            )
            &&& prints ==> opens(args, is_file, windows, read, seq![]) && t == TaskView::Upkeep(
                UpkeepView::ReadForPrint { path },
            )
            &&& evaluates ==> {
                let n = testing::first(seq![args[0], path] + args.skip(3), windows);
                t == TaskView::Testing(n.0) && lines == n.1
            }
            &&& !adds && !drops && !prints && !evaluates ==> {
                let n = run::first(args);
                t == TaskView::Run(n.0) && lines == n.1
            }
        }),
{
    lemma_second_words();
}

/// Every other word is a library to compile, with the request of the command line.
pub proof fn a_library_is_compiled(args: Seq<Seq<char>>, is_file: bool, windows: bool)
    requires
        args.len() >= 2,
        is_no_command(args[1]),
        !session::looks_like_list(args[1], is_file),
    ensures
        opens(args, is_file, windows, AskView::MakeDirs(PlaceView::Base), seq![]),
        session::first(args, is_file, windows).0 == TaskView::Build(
            BuildView::MakeBase(request::request_of(args)),
        ),
{
}

/// A task asks and goes on as what it is made of does.
pub proof fn a_task_does_what_its_part_does(
    u: UpkeepView,
    b: BuildView,
    r: RunView,
    t: TestingView,
    a: AnswerView,
)
    ensures
        session::question(TaskView::Upkeep(u)) == upkeep::question(u),
        session::question(TaskView::Build(b)) == making::question(b),
        session::question(TaskView::Run(r)) == run::question(r),
        session::question(TaskView::Testing(t)) == testing::question(t),
        session::next(TaskView::Upkeep(u), a) == (
            TaskView::Upkeep(upkeep::next(u, a).0),
            upkeep::next(u, a).1,
        ),
        session::next(TaskView::Build(b), a) == (
            TaskView::Build(making::next(b, a).0),
            making::next(b, a).1,
        ),
        session::next(TaskView::Run(r), a) == (TaskView::Run(run::next(r, a).0), run::next(r, a).1),
        session::next(TaskView::Testing(t), a) == (
            TaskView::Testing(testing::next(t, a).0),
            testing::next(t, a).1,
        ),
{
}

} // verus!
