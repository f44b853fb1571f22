//! What holds of the registry and of the list files, whatever is done to them.

use crate::dialog;
use crate::dialog::{AnswerView, AskView, LineView, PlaceView};
use crate::folder;
use crate::list;
use crate::making;
use crate::making::{BuildView, MadeView};
use crate::registry;
use crate::registry::EntryView;
use crate::run;
use crate::text;
use crate::upkeep;
use crate::upkeep::UpkeepView;
use vstd::prelude::*;

verus! {

// ---- files

/// A settings file and a list file are made only where there is none: the
/// question before was whether the file is there, and the answer was no.
pub proof fn init_never_overwrites(s: UpkeepView, a: AnswerView)
    requires
        upkeep::next(s, a).0 is WriteConfig || upkeep::next(s, a).0 is WriteList,
        upkeep::next(s, a).0 != s,
    ensures
        a == AnswerView::Flag(false),
        match upkeep::question(upkeep::next(s, a).0) {
            AskView::Write { place, .. } => upkeep::question(s) == AskView::Exists(place),
            _ => false,
        },
{
}

/// The states of adding a key to a list file, up to the text that is written.
pub open spec fn adds_to(s: UpkeepView, path: Seq<char>, key: Seq<char>) -> bool {
    match s {
        UpkeepView::ReadForAdd { path: p, key: k } => p == path && k == key,
        UpkeepView::FindForAdd { path: p, key: k, .. } => p == path && k == key,
        _ => false,
    }
}

/// A list file is written only after it has been read, or where it is not there:
/// adding a key writes the text that was read with the key after it, or the key
/// alone after the answer that there is no such file.
pub proof fn add_never_overwrites_unread(s: UpkeepView, a: AnswerView)
    requires
        upkeep::next(s, a).0 is WriteAdd,
        s !is WriteAdd,
    ensures
        match upkeep::next(s, a).0 {
            UpkeepView::WriteAdd { path, key, text } => adds_to(s, path, key) && match a {
                AnswerView::Text(Ok(content)) => upkeep::question(s) == AskView::Read(
                    PlaceView::Path(path),
                ) && text == list::with_key(content, key) && text::has_prefix(text, content),
                AnswerView::Flag(there) => !there && upkeep::question(s) == AskView::Exists(
                    PlaceView::Path(path),
                ) && text == list::with_key(seq![], key),
                _ => false,
            },
            _ => false,
        },
{
    if let AnswerView::Text(Ok(content)) = a {
        if let UpkeepView::ReadForAdd { path, key } = s {
            list::add_keeps_the_text(content, key);
        }
    }
}

/// A list file from which a key is removed is written only after it has been
/// read, and what is written is the text that was read without the key.
pub proof fn drop_never_overwrites_unread(s: UpkeepView, a: AnswerView)
    requires
        upkeep::next(s, a).0 is WriteDrop,
        s !is WriteDrop,
    ensures
        match (upkeep::next(s, a).0, a) {
            (
                UpkeepView::WriteDrop { path, key, text },
                AnswerView::Text(Ok(content)),
            ) => upkeep::question(s) == AskView::Read(PlaceView::Path(path)) && text
                == list::without_key(content, key),
            _ => false,
        },
{
}

/// A list file that is there but cannot be read stays as it is: a key is not
/// added, and the failure is told.
pub proof fn unreadable_list_is_kept(path: Seq<char>, key: Seq<char>, failure: Seq<char>)
    ensures
        ({
            let s = upkeep::next(
                UpkeepView::ReadForAdd { path, key },
                AnswerView::Text(Err(failure)),
            ).0;
            upkeep::next(s, AnswerView::Flag(true)) == (
                UpkeepView::Stopped(1),
                seq![upkeep::read_failure(path, failure)],
            )
        }),
{
}

/// A key that is listed already is refused, with a message and the exit code 1,
/// and the list file stays as it is.
pub proof fn duplicates_are_refused(path: Seq<char>, key: Seq<char>, content: Seq<char>)
    requires
        list::active(content).contains(key),
    ensures
        ({
            let n = upkeep::next(
                UpkeepView::ReadForAdd { path, key },
                AnswerView::Text(Ok(content)),
            );
            &&& n.0 == UpkeepView::Stopped(1)
            &&& n.1.len() == 1 && n.1[0] is Warn
        }),
{
}

/// The text that a state writes to a list file.
pub open spec fn written(s: UpkeepView) -> Seq<char> {
    match upkeep::question(s) {
        AskView::Write { text, .. } => text,
        _ => seq![],
    }
}

/// A key that has been added to a list file is shown when the file is, and the
/// keys before it still are.
pub proof fn added_key_is_shown(
    path: Seq<char>,
    key: Seq<char>,
    content: Seq<char>,
    shown: Seq<char>,
)
    requires
        list::is_plain_key(key),
        !list::active(content).contains(key),
        shown == key || list::active(content).contains(shown),
    ensures
        upkeep::list_lines(
            path,
            written(
                upkeep::next(
                    UpkeepView::ReadForAdd { path, key },
                    AnswerView::Text(Ok(content)),
                ).0,
            ),
        ).contains(LineView::Out("  "@ + shown)),
{
    list::add_appends(content, key);
    let t = list::with_key(content, key);
    let keys = list::active(t);
    let i = if shown == key {
        list::active(content).len() as int
    } else {
        choose|i: int| 0 <= i < list::active(content).len() && list::active(content)[i] == shown
    };
    assert(keys[i] == shown);
    lemma_key_shown(keys, i);
    let lines = upkeep::list_lines(path, t);
    assert(lines[i + 1] == upkeep::key_lines(keys)[i]);
}

proof fn lemma_key_shown(keys: Seq<Seq<char>>, i: int)
    requires
        0 <= i < keys.len(),
    ensures
        upkeep::key_lines(keys)[i] == LineView::Out("  "@ + keys[i]),
{
}

/// A key that has been removed from a list file is not shown any more.
pub proof fn removed_key_is_not_shown(path: Seq<char>, key: Seq<char>, content: Seq<char>)
    requires
        list::active(content).contains(key),
    ensures
        !upkeep::list_lines(
            path,
            written(
                upkeep::next(
                    UpkeepView::ReadForDrop { path, key },
                    AnswerView::Text(Ok(content)),
                ).0,
            ),
        ).contains(LineView::Out("  "@ + key)),
{
    list::remove_removes(content, key);
    let t = list::without_key(content, key);
    let lines = upkeep::list_lines(path, t);
    reveal_strlit("[rlib] '");
    reveal_strlit("[rlib] Active entries in '");
    assert("[rlib] '"@[0] == '[');
    assert("[rlib] Active entries in '"@[0] == '[');
    assert(lines.skip(1) =~= upkeep::key_lines(list::active(t)));
    lemma_not_shown(list::active(t), key, lines);
}

/// A key that is not among the keys that are shown, below a first line, is not
/// shown.
proof fn lemma_not_shown(keys: Seq<Seq<char>>, key: Seq<char>, lines: Seq<LineView>)
    requires
        lines.len() > 0,
        lines.skip(1) == upkeep::key_lines(keys),
        lines[0] matches LineView::Out(h) ==> h.len() > 0 && h[0] == '[',
        !keys.contains(key),
    ensures
        !lines.contains(LineView::Out("  "@ + key)),
{
    let line = LineView::Out("  "@ + key);
    reveal_strlit("  ");
    assert(("  "@ + key)[0] == ' ');
    if lines.contains(line) {
        let i = choose|i: int| 0 <= i < lines.len() && lines[i] == line;
        if i > 0 {
            assert(lines.skip(1).len() == upkeep::key_lines(keys).len());
            assert(lines.skip(1)[i - 1] == lines[i]);
            lemma_key_shown(keys, i - 1);
            assert("  "@ + keys[i - 1] == "  "@ + key);
            assert(("  "@ + keys[i - 1]).skip(2) =~= keys[i - 1]);
            assert(("  "@ + key).skip(2) =~= key);
            assert(keys.contains(keys[i - 1]));
        }
    }
}

// ---- the registry

/// A library that has been compiled is listed, and so are all that were listed
/// before.
pub proof fn compiled_library_is_listed(
    made: MadeView,
    flags: Seq<char>,
    m: Map<Seq<char>, EntryView>,
    shown: Seq<char>,
)
    requires
        m.dom().finite(),
        shown == made.key || m.contains_key(shown),
    ensures
        match making::next(BuildView::LoadIndex { made, flags }, AnswerView::Known(m)).0 {
            BuildView::SaveIndex { registry, .. } => upkeep::registry_lines(registry).contains(
                LineView::Out("  "@ + shown),
            ),
            _ => false,
        },
{
    let r = m.insert(made.key, making::entry_of(made, flags));
    registry::lemma_sorted_keys(r);
    let keys = registry::sorted_keys(r);
    assert(r.contains_key(shown));
    assert(keys.contains(shown));
    let i = choose|i: int| 0 <= i < keys.len() && keys[i] == shown;
    lemma_key_shown(keys, i);
    assert(r != Map::<Seq<char>, EntryView>::empty());
    let lines = upkeep::registry_lines(r);
    assert(lines[i + 1] == upkeep::key_lines(keys)[i]);
}

/// A library that has been removed is not listed any more; the registry keeps
/// every other one.
pub proof fn removed_library_is_not_listed(
    key: Seq<char>,
    windows: bool,
    m: Map<Seq<char>, EntryView>,
)
    requires
        m.dom().finite(),
        m.contains_key(key),
    ensures
        match upkeep::next(UpkeepView::LoadForRemoval { key, windows }, AnswerView::Known(m)).0 {
            UpkeepView::SaveRemoval { registry, .. } => {
                &&& !upkeep::registry_lines(registry).contains(LineView::Out("  "@ + key))
                &&& forall|k: Seq<char>|
                    k != key && m.contains_key(k) ==> #[trigger] registry.contains_key(k)
                        && registry[k] == m[k]
            },
            _ => false,
        },
{
    let r = m.remove(key);
    registry::lemma_sorted_keys(r);
    let keys = registry::sorted_keys(r);
    assert(!keys.contains(key));
    let lines = upkeep::registry_lines(r);
    reveal_strlit("[rlib] list.json is empty or does not exist.");
    reveal_strlit("[rlib] Entries in ~/.rlib/list.json (");
    assert("[rlib] list.json is empty or does not exist."@[0] == '[');
    assert("[rlib] Entries in ~/.rlib/list.json ("@[0] == '[');
    if r == Map::<Seq<char>, EntryView>::empty() {
        if keys.len() > 0 {
            assert(keys.contains(keys[0]));
        }
    }
    assert(lines.skip(1) =~= upkeep::key_lines(keys));
    lemma_not_shown(keys, key, lines);
}

/// From the compilation to the run: once a library has been compiled and its key
/// added to a list file, its flags are passed on, behind those of the libraries
/// that were listed before.
pub proof fn compiled_and_added_library_is_passed(
    made: MadeView,
    flags: Seq<char>,
    m: Map<Seq<char>, EntryView>,
    path: Seq<char>,
    content: Seq<char>,
)
    requires
        list::is_plain_key(made.key),
        !list::active(content).contains(made.key),
    ensures
        match making::next(BuildView::LoadIndex { made, flags }, AnswerView::Known(m)).0 {
            BuildView::SaveIndex { registry, .. } => {
                let text = written(
                    upkeep::next(
                        UpkeepView::ReadForAdd { path, key: made.key },
                        AnswerView::Text(Ok(content)),
                    ).0,
                );
                run::library_words(list::active(text), registry) == run::library_words(
                    list::active(content),
                    registry,
                ) + text::words(flags)
            },
            _ => false,
        },
{
    list::add_appends(content, made.key);
    let keys = list::active(content);
    assert(keys.push(made.key).drop_last() == keys);
}

/// A key that names no folder below `~/.rlib` is taken out of the registry, if it
/// is in it, and then refused: no folder is looked for.
pub proof fn removal_looks_only_below(
    key: Seq<char>,
    windows: bool,
    m: Map<Seq<char>, EntryView>,
    a: AnswerView,
)
    requires
        !folder::stays_below(key, windows),
        a is Done,
    ensures
        ({
            let s1 = upkeep::next(
                UpkeepView::LoadForRemoval { key, windows },
                AnswerView::Known(m),
            ).0;
            let s2 = upkeep::next(s1, a).0;
            &&& m.contains_key(key) ==> s1 == (UpkeepView::SaveRemoval {
                key,
                windows,
                registry: m.remove(key),
            })
            &&& s2 == UpkeepView::Stopped(1)
        }),
{
}

/// A key that names a folder below `~/.rlib` has that folder removed, if it is
/// there, whether or not the key was in the registry.
pub proof fn removal_removes_the_folder(
    key: Seq<char>,
    windows: bool,
    m: Map<Seq<char>, EntryView>,
    saved: Result<(), Seq<char>>,
    dir: Seq<char>,
)
    requires
        folder::stays_below(key, windows),
    ensures
        ({
            let s1 = upkeep::next(
                UpkeepView::LoadForRemoval { key, windows },
                AnswerView::Known(m),
            ).0;
            let s2 = if m.contains_key(key) {
                upkeep::next(s1, AnswerView::Done(saved)).0
            } else {
                s1
            };
            let s3 = upkeep::next(s2, AnswerView::Located(dir)).0;
            let s4 = upkeep::next(s3, AnswerView::Flag(true)).0;
            upkeep::question(s4) == AskView::RemoveDirs(PlaceView::Library(key))
        }),
{
}

// ---- how it ends

/// How far a state is along the way.
pub open spec fn rank(s: UpkeepView) -> int {
    match s {
        UpkeepView::CheckConfig { .. } => 0,
        UpkeepView::WriteConfig { .. } => 1,
        UpkeepView::CheckList => 2,
        UpkeepView::WriteList => 3,
        UpkeepView::ShowRegistry => 0,
        UpkeepView::ShowList { .. } => 0,
        UpkeepView::LoadForRemoval { .. } => 0,
        UpkeepView::SaveRemoval { .. } => 1,
        UpkeepView::LocateRemoval { .. } => 2,
        UpkeepView::FindRemoval { .. } => 3,
        UpkeepView::DeleteRemoval { .. } => 4,
        UpkeepView::ReadForAdd { .. } => 0,
        UpkeepView::FindForAdd { .. } => 1,
        UpkeepView::WriteAdd { .. } => 2,
        UpkeepView::ReadForDrop { .. } => 0,
        UpkeepView::WriteDrop { .. } => 1,
        UpkeepView::ReadForPrint { .. } => 0,
        UpkeepView::LoadForPrint { .. } => 1,
        UpkeepView::Finished => 5,
        UpkeepView::Stopped(_) => 5,
    }
}

/// Every answer leads forward, so upkeep comes to an end after at most five.
pub proof fn goes_forward(s: UpkeepView, a: AnswerView)
    requires
        dialog::fits(upkeep::question(s), a),
    ensures
        rank(s) < rank(upkeep::next(s, a).0) <= 5,
{
}

/// Upkeep that stops early exits with the code 1, and what it says last is a
/// message.
pub proof fn stops_with_a_message(s: UpkeepView, a: AnswerView)
    requires
        dialog::fits(upkeep::question(s), a),
        upkeep::next(s, a).0 is Stopped,
    ensures
        upkeep::next(s, a).0 == UpkeepView::Stopped(1),
        upkeep::next(s, a).1.len() > 0,
        upkeep::next(s, a).1.last() is Warn,
{
}

} // verus!
