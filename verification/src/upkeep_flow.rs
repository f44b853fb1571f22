//! What the commands on files, lists and the registry do, step by step.

use crate::compose;
use crate::config;
use crate::dialog::{AnswerView, AskView, LineView, PlaceView};
use crate::folder;
use crate::list;
use crate::order;
use crate::registry;
use crate::registry::EntryView;
use crate::request;
use crate::upkeep;
use crate::upkeep::UpkeepView;
use vstd::prelude::*;

verus! {

/// Whether a step leads to a question and says these lines.
pub open spec fn leads_to(n: (UpkeepView, Seq<LineView>), ask: AskView, lines: Seq<LineView>) -> bool {
    upkeep::question(n.0) == ask && n.1 == lines
}

// ---- init

/// The settings file is written only where there is none; what is written is the
/// template, and where both files are asked for the list file follows.
pub proof fn settings_are_set_up(both: bool, e: Seq<char>)
    ensures
        ({
            let s = UpkeepView::CheckConfig { both };
            let w = upkeep::next(s, AnswerView::Flag(false));
            let place = PlaceView::Path("rlib.config"@);
            &&& upkeep::question(s) == AskView::Exists(place)
            &&& leads_to(
                upkeep::next(s, AnswerView::Flag(true)),
                AskView::Exit(1),
                seq![
                    LineView::Warn("[rlib] rlib.config already exists in the current directory."@),
                ],
            )
            &&& leads_to(
                w,
                AskView::Write { place, text: config::CONFIG_TEMPLATE@ },
                seq![],
            )
            &&& leads_to(
                upkeep::next(w.0, AnswerView::Done(Err(e))),
                AskView::Exit(1),
                seq![LineView::Warn("[rlib] Failed to create rlib.config: "@ + e)],
            )
            &&& leads_to(
                upkeep::next(w.0, AnswerView::Done(Ok(()))),
                if both {
                    AskView::Exists(PlaceView::Path("rlib.list"@))
                } else {
                    AskView::Return
                },
                seq![LineView::Out("[rlib] Created rlib.config in the current directory."@)],
            )
            &&& both ==> upkeep::next(w.0, AnswerView::Done(Ok(()))).0 == UpkeepView::CheckList
        }),
{
}

/// The list file is written only where there is none; what is written is the template.
pub proof fn a_list_is_set_up(e: Seq<char>)
    ensures
        ({
            let s = UpkeepView::CheckList;
            let w = upkeep::next(s, AnswerView::Flag(false));
            let place = PlaceView::Path("rlib.list"@);
            &&& upkeep::question(s) == AskView::Exists(place)
            &&& leads_to(
                upkeep::next(s, AnswerView::Flag(true)),
                AskView::Exit(1),
                seq![LineView::Warn("[rlib] rlib.list already exists in the current directory."@)],
            )
            &&& leads_to(w, AskView::Write { place, text: list::LIST_TEMPLATE@ }, seq![])
            &&& leads_to(
                upkeep::next(w.0, AnswerView::Done(Err(e))),
                AskView::Exit(1),
                seq![LineView::Warn("[rlib] Failed to create rlib.list: "@ + e)],
            )
            &&& leads_to(
                upkeep::next(w.0, AnswerView::Done(Ok(()))),
                AskView::Return,
                seq![LineView::Out("[rlib] Created rlib.list in the current directory."@)],
            )
        }),
{
}

// ---- list

/// The keys of a registry come in alphabetical order, each once, and there are no
/// others.
pub proof fn keys_come_in_order(m: Map<Seq<char>, EntryView>, i: int, j: int, k: Seq<char>)
    requires
        m.dom().finite(),
    ensures
        ({
            let keys = registry::sorted_keys(m);
            &&& keys.len() == m.dom().len()
            &&& keys.contains(k) <==> m.contains_key(k)
            &&& 0 <= i < j < keys.len() ==> keys[i] != keys[j] && order::lex_le(
                keys[i],
                keys[j],
            )
        }),
{
    registry::lemma_sorted_keys(m);
    let keys = registry::sorted_keys(m);
    keys.unique_seq_to_set();
    assert(keys.to_set() =~= m.dom());
    assert(keys.contains(k) <==> m.contains_key(k));
}

/// The whole registry is shown: how many keys there are, then each key indented on a
/// line of its own; one line tells that it is empty.
pub proof fn the_registry_is_shown(m: Map<Seq<char>, EntryView>, i: int)
    requires
        m.dom().finite(),
    ensures
        ({
            let s = UpkeepView::ShowRegistry;
            let n = upkeep::next(s, AnswerView::Known(m));
            let keys = registry::sorted_keys(m);
            &&& upkeep::question(s) == AskView::LoadRegistry
            &&& upkeep::question(n.0) == AskView::Return
            &&& m.dom().len() == 0 ==> n.1 == seq![
                LineView::Out("[rlib] list.json is empty or does not exist."@),
            ]
            &&& m.dom().len() > 0 ==> {
                &&& n.1.len() == 1 + keys.len()
                &&& n.1[0] == LineView::Out(
                    "[rlib] Entries in ~/.rlib/list.json ("@ + compose::decimal(m.dom().len())
                        + "):"@,
                )
                &&& 0 <= i < keys.len() ==> n.1[i + 1] == LineView::Out("  "@ + keys[i])
            }
        }),
{
    keys_come_in_order(m, 0, 0, seq![]);
    if m.dom().len() == 0 {
        assert(m.dom() =~= Set::empty());
        assert(m =~= Map::empty());
    }
}

/// The keys of a list file are shown: how many there are, then each key indented on a
/// line of its own, in the order of the file.
pub proof fn a_list_is_shown(path: Seq<char>, content: Seq<char>, i: int, e: Seq<char>)
    ensures
        ({
            let s = UpkeepView::ShowList { path };
            let n = upkeep::next(s, AnswerView::Text(Ok(content)));
            let keys = list::active(content);
            &&& upkeep::question(s) == AskView::Read(PlaceView::Path(path))
            &&& upkeep::question(n.0) == AskView::Return
            &&& keys.len() == 0 ==> n.1 == seq![
                LineView::Out("[rlib] '"@ + path + "' has no active entries."@),
            ]
            &&& keys.len() > 0 ==> {
                &&& n.1.len() == 1 + keys.len()
                &&& n.1[0] == LineView::Out(
                    "[rlib] Active entries in '"@ + path + "' ("@ + compose::decimal(keys.len())
                        + "):"@,
                )
                &&& 0 <= i < keys.len() ==> n.1[i + 1] == LineView::Out("  "@ + keys[i])
            }
            &&& leads_to(
                upkeep::next(s, AnswerView::Text(Err(e))),
                AskView::Exit(1),
                seq![LineView::Warn("[rlib] Failed to read '"@ + path + "': "@ + e)],
            )
        }),
{
}

// ---- remove

/// To remove a library is to take its key out of the registry, and nothing else; a key
/// that is not there is told. Then the folder of the key is next, if it is one below
/// the folder of the libraries, whether the registry could be stored or not.
pub proof fn a_key_is_taken_out(
    key: Seq<char>,
    windows: bool,
    m: Map<Seq<char>, EntryView>,
    other: Seq<char>,
    done: Result<(), Seq<char>>,
)
    ensures
        ({
            let s = UpkeepView::LoadForRemoval { key, windows };
            let n = upkeep::next(s, AnswerView::Known(m));
            let saved = upkeep::next(n.0, AnswerView::Done(done));
            let unknown = LineView::Warn("[rlib] Key '"@ + key + "' not found in list.json."@);
            let removed = LineView::Out("[rlib] Removed '"@ + key + "' from list.json."@);
            let refused = LineView::Warn("[rlib] Key '"@ + key + "' names no folder in ~/.rlib."@);
            let below = folder::stays_below(key, windows);
            let folder = AskView::Locate(PlaceView::Library(key));
            &&& upkeep::question(s) == AskView::LoadRegistry
            &&& m.contains_key(key) ==> {
                &&& n.1.len() == 0
                &&& match upkeep::question(n.0) {
                    AskView::SaveRegistry(r) => {
                        &&& !r.contains_key(key)
                        &&& other != key ==> r.contains_key(other) == m.contains_key(other)
                        &&& other != key && m.contains_key(other) ==> r[other] == m[other]
                    },
                    _ => false,
                }
                &&& below ==> leads_to(saved, folder, seq![removed])
                &&& !below ==> leads_to(saved, AskView::Exit(1), seq![removed, refused])
            }
            &&& !m.contains_key(key) ==> {
                &&& below ==> leads_to(n, folder, seq![unknown])
                &&& !below ==> leads_to(n, AskView::Exit(1), seq![unknown, refused])
            }
        }),
{
}

/// The folder of a removed library is removed where it is there.
pub proof fn a_folder_is_removed(key: Seq<char>, windows: bool, dir: Seq<char>, e: Seq<char>)
    ensures
        ({
            let s = UpkeepView::LocateRemoval { key, windows };
            let n = upkeep::next(s, AnswerView::Located(dir));
            let there = upkeep::next(n.0, AnswerView::Flag(true));
            &&& upkeep::question(s) == AskView::Locate(PlaceView::Library(key))
            &&& leads_to(n, AskView::Exists(PlaceView::Library(key)), seq![])
            &&& leads_to(
                upkeep::next(n.0, AnswerView::Flag(false)),
                AskView::Return,
                seq![LineView::Out("[rlib] Note: folder '"@ + dir + "' did not exist on disk."@)],
            )
            &&& leads_to(there, AskView::RemoveDirs(PlaceView::Library(key)), seq![])
            &&& leads_to(
                upkeep::next(there.0, AnswerView::Done(Ok(()))),
                AskView::Return,
                seq![LineView::Out("[rlib] Deleted folder '"@ + dir + "'."@)],
            )
            &&& leads_to(
                upkeep::next(there.0, AnswerView::Done(Err(e))),
                AskView::Exit(1),
                seq![LineView::Warn("[rlib] Failed to delete folder '"@ + dir + "': "@ + e)],
            )
        }),
{
}

// ---- the keys of a list file

/// A key is added on a line of its own behind everything that the list file holds, on
/// a line that begins there; a key that is in it is refused. A list file that is not
/// there is made.
pub proof fn a_key_is_added(path: Seq<char>, key: Seq<char>, content: Seq<char>, e: Seq<char>)
    ensures
        ({
            let s = UpkeepView::ReadForAdd { path, key };
            let n = upkeep::next(s, AnswerView::Text(Ok(content)));
            let place = PlaceView::Path(path);
            let unread = upkeep::next(s, AnswerView::Text(Err(e)));
            let missing = upkeep::next(unread.0, AnswerView::Flag(false));
            let line = key + seq!['\n'];
            &&& upkeep::question(s) == AskView::Read(place)
            &&& list::active(content).contains(key) ==> leads_to(
                n,
                AskView::Exit(1),
                seq![
                    LineView::Warn(
                        "[rlib] Error: Key '"@ + key + "' already exists in '"@ + path
                            + "'. Connection rejected."@,
                    ),
                ],
            )
            &&& !list::active(content).contains(key) ==> {
                &&& n.1.len() == 0
                &&& upkeep::question(n.0) == (AskView::Write {
                    place,
                    text: if content.len() == 0 || content[content.len() - 1] == '\n' {
                        content + line
                    } else {
                        content + seq!['\n'] + line
                    },
                })
                &&& leads_to(
                    upkeep::next(n.0, AnswerView::Done(Ok(()))),
                    AskView::Return,
                    seq![LineView::Out("[rlib] Added '"@ + key + "' to '"@ + path + "'."@)],
                )
                &&& leads_to(
                    upkeep::next(n.0, AnswerView::Done(Err(e))),
                    AskView::Exit(1),
                    seq![LineView::Warn("[rlib] Failed to write '"@ + path + "': "@ + e)],
                )
            }
            &&& leads_to(unread, AskView::Exists(place), seq![])
            &&& leads_to(
                upkeep::next(unread.0, AnswerView::Flag(true)),
                AskView::Exit(1),
                seq![LineView::Warn("[rlib] Failed to read '"@ + path + "': "@ + e)],
            )
            &&& leads_to(missing, AskView::Write { place, text: line }, seq![])
            &&& leads_to(
                upkeep::next(missing.0, AnswerView::Done(Ok(()))),
                AskView::Return,
                seq![LineView::Out("[rlib] Added '"@ + key + "' to '"@ + path + "'."@)],
            )
        }),
{
    let line = key + seq!['\n'];
    assert(list::with_key(seq![], key) =~= line);
    if content.len() == 0 || content[content.len() - 1] == '\n' {
        assert(list::with_key(content, key) =~= content + line);
    } else {
        assert(list::with_key(content, key) =~= content + seq!['\n'] + line);
    }
}

/// A key is taken out of a list file by writing it without the lines that hold the key;
/// a key that is not in it is told.
pub proof fn a_key_is_dropped(path: Seq<char>, key: Seq<char>, content: Seq<char>, e: Seq<char>)
    ensures
        ({
            let s = UpkeepView::ReadForDrop { path, key };
            let n = upkeep::next(s, AnswerView::Text(Ok(content)));
            let place = PlaceView::Path(path);
            &&& upkeep::question(s) == AskView::Read(place)
            &&& !list::active(content).contains(key) ==> leads_to(
                n,
                AskView::Return,
                seq![LineView::Out("[rlib] '"@ + key + "' was not found in '"@ + path + "'."@)],
            )
            &&& list::active(content).contains(key) ==> {
                &&& leads_to(
                    n,
                    AskView::Write { place, text: list::without_key(content, key) },
                    seq![],
                )
                &&& leads_to(
                    upkeep::next(n.0, AnswerView::Done(Ok(()))),
                    AskView::Return,
                    seq![LineView::Out("[rlib] Removed '"@ + key + "' from '"@ + path + "'."@)],
                )
                &&& leads_to(
                    upkeep::next(n.0, AnswerView::Done(Err(e))),
                    AskView::Exit(1),
                    seq![LineView::Warn("[rlib] Failed to write '"@ + path + "': "@ + e)],
                )
            }
            &&& leads_to(
                upkeep::next(s, AnswerView::Text(Err(e))),
                AskView::Exit(1),
                seq![LineView::Warn("[rlib] Failed to read '"@ + path + "': "@ + e)],
            )
        }),
{
}

/// The dependencies of a list file are printed on a cleared screen under their header:
/// one line for each key, in the order of the file, which is that of the library or
/// tells that it is not in the registry.
pub proof fn dependencies_are_printed(
    path: Seq<char>,
    content: Seq<char>,
    m: Map<Seq<char>, EntryView>,
    i: int,
    e: Seq<char>,
)
    ensures
        ({
            let s = UpkeepView::ReadForPrint { path };
            let n = upkeep::next(s, AnswerView::Text(Ok(content)));
            let p = upkeep::next(n.0, AnswerView::Known(m));
            let keys = list::active(content);
            &&& upkeep::question(s) == AskView::Read(PlaceView::Path(path))
            &&& keys.len() == 0 ==> leads_to(
                n,
                AskView::Exit(1),
                seq![LineView::Warn("[rlib] '"@ + path + "' has no active entries."@)],
            )
            &&& keys.len() > 0 ==> {
                &&& leads_to(n, AskView::LoadRegistry, seq![])
                &&& upkeep::question(p.0) == AskView::Return
                &&& p.1.len() == 2 + keys.len()
                &&& p.1[0] == LineView::Clear
                &&& p.1[1] == LineView::Out("[dependencies]"@)
                &&& 0 <= i < keys.len() ==> p.1[i + 2] == (if m.contains_key(keys[i]) {
                    LineView::Out(request::dependency(m[keys[i]]))
                } else {
                    LineView::Warn(
                        "[rlib] Warning: '"@ + keys[i]
                            + "' not found in list.json — skipping."@,
                    )
                })
            }
            &&& leads_to(
                upkeep::next(s, AnswerView::Text(Err(e))),
                AskView::Exit(1),
                seq![LineView::Warn("[rlib] Failed to read '"@ + path + "': "@ + e)],
            )
        }),
{
}

} // verus!
