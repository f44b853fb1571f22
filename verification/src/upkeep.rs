//! The commands that look after the settings, the list files and the registry.

use crate::compose;
use crate::config;
use crate::dialog;
use crate::dialog::{Answer, AnswerView, Ask, AskView, Line, LineView, Place, PlaceView};
use crate::folder;
use crate::list;
use crate::registry;
use crate::registry::{EntryView, Registry};
use crate::request;
use crate::text;
use vstd::prelude::*;
use vstd::string::*;

verus! {

/// The state of a command of upkeep.
#[derive(Debug)]
pub enum Upkeep {
    Finished,
    Stopped(i32),
    /// `init`: is there a settings file? `both` if a list file comes after it.
    CheckConfig { both: bool },
    WriteConfig { both: bool },
    CheckList,
    WriteList,
    /// `list`
    ShowRegistry,
    /// `list <path>`
    ShowList { path: String },
    /// `remove <key>`
    LoadForRemoval { key: String, windows: bool },
    SaveRemoval { key: String, windows: bool, registry: Registry },
    LocateRemoval { key: String, windows: bool },
    FindRemoval { key: String, windows: bool, dir: String },
    DeleteRemoval { key: String, windows: bool, dir: String },
    /// `<path> add <key>`
    ReadForAdd { path: String, key: String },
    FindForAdd { path: String, key: String, failure: String },
    WriteAdd { path: String, key: String, text: String },
    /// `<path> remove <key>`
    ReadForDrop { path: String, key: String },
    WriteDrop { path: String, key: String, text: String },
    /// `<path> print for cargo`
    ReadForPrint { path: String },
    LoadForPrint { keys: Vec<String> },
}

/// The texts of an `Upkeep`.
pub enum UpkeepView {
    Finished,
    Stopped(i32),
    CheckConfig { both: bool },
    WriteConfig { both: bool },
    CheckList,
    WriteList,
    ShowRegistry,
    ShowList { path: Seq<char> },
    LoadForRemoval { key: Seq<char>, windows: bool },
    SaveRemoval { key: Seq<char>, windows: bool, registry: Map<Seq<char>, EntryView> },
    LocateRemoval { key: Seq<char>, windows: bool },
    FindRemoval { key: Seq<char>, windows: bool, dir: Seq<char> },
    DeleteRemoval { key: Seq<char>, windows: bool, dir: Seq<char> },
    ReadForAdd { path: Seq<char>, key: Seq<char> },
    FindForAdd { path: Seq<char>, key: Seq<char>, failure: Seq<char> },
    WriteAdd { path: Seq<char>, key: Seq<char>, text: Seq<char> },
    ReadForDrop { path: Seq<char>, key: Seq<char> },
    WriteDrop { path: Seq<char>, key: Seq<char>, text: Seq<char> },
    ReadForPrint { path: Seq<char> },
    LoadForPrint { keys: Seq<Seq<char>> },
}

impl View for Upkeep {
    type V = UpkeepView;

    open spec fn view(&self) -> UpkeepView {
        match self {
            Upkeep::Finished => UpkeepView::Finished,
            Upkeep::Stopped(c) => UpkeepView::Stopped(*c),
            Upkeep::CheckConfig { both } => UpkeepView::CheckConfig { both: *both },
            Upkeep::WriteConfig { both } => UpkeepView::WriteConfig { both: *both },
            Upkeep::CheckList => UpkeepView::CheckList,
            Upkeep::WriteList => UpkeepView::WriteList,
            Upkeep::ShowRegistry => UpkeepView::ShowRegistry,
            Upkeep::ShowList { path } => UpkeepView::ShowList { path: path@ },
            Upkeep::LoadForRemoval { key, windows } => UpkeepView::LoadForRemoval {
                key: key@,
                windows: *windows,
            },
            Upkeep::SaveRemoval { key, windows, registry } => UpkeepView::SaveRemoval {
                key: key@,
                windows: *windows,
                registry: registry@,
            },
            Upkeep::LocateRemoval { key, windows } => UpkeepView::LocateRemoval {
                key: key@,
                windows: *windows,
            },
            Upkeep::FindRemoval { key, windows, dir } => UpkeepView::FindRemoval {
                key: key@,
                windows: *windows,
                dir: dir@,
            },
            Upkeep::DeleteRemoval { key, windows, dir } => UpkeepView::DeleteRemoval {
                key: key@,
                windows: *windows,
                dir: dir@,
            },
            Upkeep::ReadForAdd { path, key } => UpkeepView::ReadForAdd { path: path@, key: key@ },
            Upkeep::FindForAdd { path, key, failure } => UpkeepView::FindForAdd {
                path: path@,
                key: key@,
                failure: failure@,
            },
            Upkeep::WriteAdd { path, key, text } => UpkeepView::WriteAdd {
                path: path@,
                key: key@,
                text: text@,
            },
            Upkeep::ReadForDrop { path, key } => UpkeepView::ReadForDrop { path: path@, key: key@ },
            Upkeep::WriteDrop { path, key, text } => UpkeepView::WriteDrop {
                path: path@,
                key: key@,
                text: text@,
            },
            Upkeep::ReadForPrint { path } => UpkeepView::ReadForPrint { path: path@ },
            Upkeep::LoadForPrint { keys } => UpkeepView::LoadForPrint { keys: text::texts(keys@) },
        }
    }
}

/// The question that a state asks.
pub open spec fn question(s: UpkeepView) -> AskView {
    match s {
        UpkeepView::Finished => AskView::Return,
        UpkeepView::Stopped(c) => AskView::Exit(c),
        UpkeepView::CheckConfig { .. } => AskView::Exists(PlaceView::Path("rlib.config"@)),
        UpkeepView::WriteConfig { .. } => AskView::Write {
            place: PlaceView::Path("rlib.config"@),
            text: config::CONFIG_TEMPLATE@,
        },
        UpkeepView::CheckList => AskView::Exists(PlaceView::Path("rlib.list"@)),
        UpkeepView::WriteList => AskView::Write {
            place: PlaceView::Path("rlib.list"@),
            text: list::LIST_TEMPLATE@,
        },
        UpkeepView::ShowRegistry => AskView::LoadRegistry,
        UpkeepView::ShowList { path } => AskView::Read(PlaceView::Path(path)),
        UpkeepView::LoadForRemoval { .. } => AskView::LoadRegistry,
        UpkeepView::SaveRemoval { registry, .. } => AskView::SaveRegistry(registry),
        UpkeepView::LocateRemoval { key, .. } => AskView::Locate(PlaceView::Library(key)),
        UpkeepView::FindRemoval { key, .. } => AskView::Exists(PlaceView::Library(key)),
        UpkeepView::DeleteRemoval { key, .. } => AskView::RemoveDirs(PlaceView::Library(key)),
        UpkeepView::ReadForAdd { path, .. } => AskView::Read(PlaceView::Path(path)),
        UpkeepView::FindForAdd { path, .. } => AskView::Exists(PlaceView::Path(path)),
        UpkeepView::WriteAdd { path, text, .. } => AskView::Write {
            place: PlaceView::Path(path),
            text,
        },
        UpkeepView::ReadForDrop { path, .. } => AskView::Read(PlaceView::Path(path)),
        UpkeepView::WriteDrop { path, text, .. } => AskView::Write {
            place: PlaceView::Path(path),
            text,
        },
        UpkeepView::ReadForPrint { path } => AskView::Read(PlaceView::Path(path)),
        UpkeepView::LoadForPrint { .. } => AskView::LoadRegistry,
    }
}

/// Whether a state is one that upkeep can be in: a folder that is looked for or
/// removed is one below `~/.rlib`.
pub open spec fn is_sound(s: UpkeepView) -> bool {
    match s {
        UpkeepView::LocateRemoval { key, windows } => folder::stays_below(key, windows),
        UpkeepView::FindRemoval { key, windows, .. } => folder::stays_below(key, windows),
        UpkeepView::DeleteRemoval { key, windows, .. } => folder::stays_below(key, windows),
        _ => true,
    }
}

// ---- init

/// After the question whether there is a settings file.
pub open spec fn after_check_config(both: bool, there: bool) -> (UpkeepView, Seq<LineView>) {
    if there {
        (
            UpkeepView::Stopped(1),
            seq![LineView::Warn("[rlib] rlib.config already exists in the current directory."@)],
        )
    } else {
        (UpkeepView::WriteConfig { both }, seq![])
    }
}

/// After the settings file has been written.
pub open spec fn after_write_config(both: bool, done: Result<(), Seq<char>>) -> (
    UpkeepView,
    Seq<LineView>,
) {
    match done {
        Err(e) => (
            UpkeepView::Stopped(1),
            seq![LineView::Warn("[rlib] Failed to create rlib.config: "@ + e)],
        ),
        Ok(_) => (
            if both {
                UpkeepView::CheckList
            } else {
                UpkeepView::Finished
            },
            seq![LineView::Out("[rlib] Created rlib.config in the current directory."@)],
        ),
    }
}

/// After the question whether there is a list file.
pub open spec fn after_check_list(there: bool) -> (UpkeepView, Seq<LineView>) {
    if there {
        (
            UpkeepView::Stopped(1),
            seq![LineView::Warn("[rlib] rlib.list already exists in the current directory."@)],
        )
    } else {
        (UpkeepView::WriteList, seq![])
    }
}

/// After the list file has been written.
pub open spec fn after_write_list(done: Result<(), Seq<char>>) -> (UpkeepView, Seq<LineView>) {
    match done {
        Err(e) => (
            UpkeepView::Stopped(1),
            seq![LineView::Warn("[rlib] Failed to create rlib.list: "@ + e)],
        ),
        Ok(_) => (
            UpkeepView::Finished,
            seq![LineView::Out("[rlib] Created rlib.list in the current directory."@)],
        ),
    }
}

// ---- list

/// The keys, each on a line of its own and indented.
pub open spec fn key_lines(keys: Seq<Seq<char>>) -> Seq<LineView> {
    keys.map_values(|k: Seq<char>| LineView::Out("  "@ + k))
}

/// What `list` shows of the registry.
pub open spec fn registry_lines(m: Map<Seq<char>, EntryView>) -> Seq<LineView> {
    if m == Map::<Seq<char>, EntryView>::empty() {
        seq![LineView::Out("[rlib] list.json is empty or does not exist."@)]
    } else {
        let keys = registry::sorted_keys(m);
        seq![
            LineView::Out(
                "[rlib] Entries in ~/.rlib/list.json ("@ + compose::decimal(keys.len()) + "):"@,
            ),
        ] + key_lines(keys)
    }
}

/// What `list <path>` shows of a list file.
pub open spec fn list_lines(path: Seq<char>, content: Seq<char>) -> Seq<LineView> {
    let keys = list::active(content);
    if keys.len() == 0 {
        seq![LineView::Out("[rlib] '"@ + path + "' has no active entries."@)]
    } else {
        seq![
            LineView::Out(
                "[rlib] Active entries in '"@ + path + "' ("@ + compose::decimal(keys.len())
                    + "):"@,
            ),
        ] + key_lines(keys)
    }
}

/// The message that a list file could not be read.
pub open spec fn read_failure(path: Seq<char>, e: Seq<char>) -> LineView {
    LineView::Warn("[rlib] Failed to read '"@ + path + "': "@ + e)
}

/// The message that a list file could not be written.
pub open spec fn write_failure(path: Seq<char>, e: Seq<char>) -> LineView {
    LineView::Warn("[rlib] Failed to write '"@ + path + "': "@ + e)
}

/// After the list file to show has been read.
pub open spec fn after_show_list(path: Seq<char>, content: Result<Seq<char>, Seq<char>>) -> (
    UpkeepView,
    Seq<LineView>,
) {
    match content {
        Err(e) => (UpkeepView::Stopped(1), seq![read_failure(path, e)]),
        Ok(s) => (UpkeepView::Finished, list_lines(path, s)),
    }
}

// ---- remove

/// On to the folder of a key that is not in the registry, or not any more, after
/// a line. A key that names no folder below `~/.rlib` is refused.
pub open spec fn on_to_folder(key: Seq<char>, windows: bool, line: LineView) -> (
    UpkeepView,
    Seq<LineView>,
) {
    if folder::stays_below(key, windows) {
        (UpkeepView::LocateRemoval { key, windows }, seq![line])
    } else {
        (
            UpkeepView::Stopped(1),
            seq![line, LineView::Warn("[rlib] Key '"@ + key + "' names no folder in ~/.rlib."@)],
        )
    }
}

/// After the registry has been loaded to take a key out.
pub open spec fn after_load_for_removal(
    key: Seq<char>,
    windows: bool,
    m: Map<Seq<char>, EntryView>,
) -> (UpkeepView, Seq<LineView>) {
    if m.contains_key(key) {
        (UpkeepView::SaveRemoval { key, windows, registry: m.remove(key) }, seq![])
    } else {
        on_to_folder(
            key,
            windows,
            LineView::Warn("[rlib] Key '"@ + key + "' not found in list.json."@),
        )
    }
}

/// After the question whether the directory of a library is there.
pub open spec fn after_find_removal(
    key: Seq<char>,
    windows: bool,
    dir: Seq<char>,
    there: bool,
) -> (UpkeepView, Seq<LineView>) {
    if there {
        (UpkeepView::DeleteRemoval { key, windows, dir }, seq![])
    } else {
        (
            UpkeepView::Finished,
            seq![LineView::Out("[rlib] Note: folder '"@ + dir + "' did not exist on disk."@)],
        )
    }
}

/// After the directory of a library has been removed.
pub open spec fn after_delete_removal(dir: Seq<char>, done: Result<(), Seq<char>>) -> (
    UpkeepView,
    Seq<LineView>,
) {
    match done {
        Err(e) => (
            UpkeepView::Stopped(1),
            seq![LineView::Warn("[rlib] Failed to delete folder '"@ + dir + "': "@ + e)],
        ),
        Ok(_) => (
            UpkeepView::Finished,
            seq![LineView::Out("[rlib] Deleted folder '"@ + dir + "'."@)],
        ),
    }
}

// ---- add and remove in a list file

/// After the list file to which a key is added has been read. Where it cannot be
/// read, the question is whether it is there.
pub open spec fn after_read_for_add(
    path: Seq<char>,
    key: Seq<char>,
    content: Result<Seq<char>, Seq<char>>,
) -> (UpkeepView, Seq<LineView>) {
    match content {
        Err(failure) => (UpkeepView::FindForAdd { path, key, failure }, seq![]),
        Ok(old_text) => if list::active(old_text).contains(key) {
            (
                UpkeepView::Stopped(1),
                seq![
                    LineView::Warn(
                        "[rlib] Error: Key '"@ + key + "' already exists in '"@ + path
                            + "'. Connection rejected."@,
                    ),
                ],
            )
        } else {
            (UpkeepView::WriteAdd { path, key, text: list::with_key(old_text, key) }, seq![])
        },
    }
}

/// After the question whether the list file that could not be read is there. One
/// that is not there is made, with the key alone; one that is there stays as it is.
pub open spec fn after_find_for_add(
    path: Seq<char>,
    key: Seq<char>,
    failure: Seq<char>,
    there: bool,
) -> (UpkeepView, Seq<LineView>) {
    if there {
        (UpkeepView::Stopped(1), seq![read_failure(path, failure)])
    } else {
        (UpkeepView::WriteAdd { path, key, text: list::with_key(seq![], key) }, seq![])
    }
}

/// After the list file with the added key has been written.
pub open spec fn after_write_add(path: Seq<char>, key: Seq<char>, done: Result<(), Seq<char>>) -> (
    UpkeepView,
    Seq<LineView>,
) {
    match done {
        Err(e) => (UpkeepView::Stopped(1), seq![write_failure(path, e)]),
        Ok(_) => (
            UpkeepView::Finished,
            seq![LineView::Out("[rlib] Added '"@ + key + "' to '"@ + path + "'."@)],
        ),
    }
}

/// After the list file from which a key is taken has been read.
pub open spec fn after_read_for_drop(
    path: Seq<char>,
    key: Seq<char>,
    content: Result<Seq<char>, Seq<char>>,
) -> (UpkeepView, Seq<LineView>) {
    match content {
        Err(e) => (UpkeepView::Stopped(1), seq![read_failure(path, e)]),
        Ok(s) => if list::active(s).contains(key) {
            (UpkeepView::WriteDrop { path, key, text: list::without_key(s, key) }, seq![])
        } else {
            (
                UpkeepView::Finished,
                seq![LineView::Out("[rlib] '"@ + key + "' was not found in '"@ + path + "'."@)],
            )
        },
    }
}

/// After the list file without the key has been written.
pub open spec fn after_write_drop(path: Seq<char>, key: Seq<char>, done: Result<(), Seq<char>>) -> (
    UpkeepView,
    Seq<LineView>,
) {
    match done {
        Err(e) => (UpkeepView::Stopped(1), seq![write_failure(path, e)]),
        Ok(_) => (
            UpkeepView::Finished,
            seq![LineView::Out("[rlib] Removed '"@ + key + "' from '"@ + path + "'."@)],
        ),
    }
}

// ---- print for cargo

/// After the list file whose libraries are printed has been read.
pub open spec fn after_read_for_print(path: Seq<char>, content: Result<Seq<char>, Seq<char>>) -> (
    UpkeepView,
    Seq<LineView>,
) {
    match content {
        Err(e) => (UpkeepView::Stopped(1), seq![read_failure(path, e)]),
        Ok(s) => if list::active(s).len() == 0 {
            (
                UpkeepView::Stopped(1),
                seq![LineView::Warn("[rlib] '"@ + path + "' has no active entries."@)],
            )
        } else {
            (UpkeepView::LoadForPrint { keys: list::active(s) }, seq![])
        },
    }
}

/// The message that a key is not in the registry.
pub open spec fn skipped(key: Seq<char>) -> LineView {
    LineView::Warn("[rlib] Warning: '"@ + key + "' not found in list.json — skipping."@)
}

/// The line that is printed for a key.
pub open spec fn key_line(m: Map<Seq<char>, EntryView>, key: Seq<char>) -> LineView {
    if m.contains_key(key) {
        LineView::Out(request::dependency(m[key]))
    } else {
        skipped(key)
    }
}

/// The dependencies that are printed for keys.
pub open spec fn dependency_lines(m: Map<Seq<char>, EntryView>, keys: Seq<Seq<char>>) -> Seq<
    LineView,
> {
    seq![LineView::Clear, LineView::Out("[dependencies]"@)] + keys.map_values(
        |k: Seq<char>| key_line(m, k),
    )
}

// ---- the dialog

/// The state that an answer leads to, and what is said on the way. An answer
/// that does not fit the question leaves the state as it is.
pub open spec fn next(s: UpkeepView, a: AnswerView) -> (UpkeepView, Seq<LineView>) {
    match (s, a) {
        (UpkeepView::CheckConfig { both }, AnswerView::Flag(b)) => after_check_config(both, b),
        (UpkeepView::WriteConfig { both }, AnswerView::Done(r)) => after_write_config(both, r),
        (UpkeepView::CheckList, AnswerView::Flag(b)) => after_check_list(b),
        (UpkeepView::WriteList, AnswerView::Done(r)) => after_write_list(r),
        (UpkeepView::ShowRegistry, AnswerView::Known(m)) => (
            UpkeepView::Finished,
            registry_lines(m),
        ),
        (UpkeepView::ShowList { path }, AnswerView::Text(r)) => after_show_list(path, r),
        (
            UpkeepView::LoadForRemoval { key, windows },
            AnswerView::Known(m),
        ) => after_load_for_removal(key, windows, m),
        (UpkeepView::SaveRemoval { key, windows, .. }, AnswerView::Done(_)) => on_to_folder(
            key,
            windows,
            LineView::Out("[rlib] Removed '"@ + key + "' from list.json."@),
        ),
        (UpkeepView::LocateRemoval { key, windows }, AnswerView::Located(dir)) => (
            UpkeepView::FindRemoval { key, windows, dir },
            seq![],
        ),
        (
            UpkeepView::FindRemoval { key, windows, dir },
            AnswerView::Flag(b),
        ) => after_find_removal(key, windows, dir, b),
        (UpkeepView::DeleteRemoval { dir, .. }, AnswerView::Done(r)) => after_delete_removal(
            dir,
            r,
        ),
        (UpkeepView::ReadForAdd { path, key }, AnswerView::Text(r)) => after_read_for_add(
            path,
            key,
            r,
        ),
        (
            UpkeepView::FindForAdd { path, key, failure },
            AnswerView::Flag(b),
        ) => after_find_for_add(path, key, failure, b),
        (UpkeepView::WriteAdd { path, key, .. }, AnswerView::Done(r)) => after_write_add(
            path,
            key,
            r,
        ),
        (UpkeepView::ReadForDrop { path, key }, AnswerView::Text(r)) => after_read_for_drop(
            path,
            key,
            r,
        ),
        (UpkeepView::WriteDrop { path, key, .. }, AnswerView::Done(r)) => after_write_drop(
            path,
            key,
            r,
        ),
        (UpkeepView::ReadForPrint { path }, AnswerView::Text(r)) => after_read_for_print(path, r),
        (UpkeepView::LoadForPrint { keys }, AnswerView::Known(m)) => (
            UpkeepView::Finished,
            dependency_lines(m, keys),
        ),
        _ => (s, seq![]),
    }
}

fn say_keys(v: &mut Vec<Line>, keys: &Vec<String>)
    ensures
        dialog::said(final(v)@) == dialog::said(old(v)@) + key_lines(text::texts(keys@)),
{
    let ghost before = dialog::said(v@);
    let ghost all = key_lines(text::texts(keys@));
    let mut i: usize = 0;
    assert(before + all.take(0) =~= before);
    while i < keys.len()
        invariant
            i <= keys@.len(),
            all == key_lines(text::texts(keys@)),
            dialog::said(v@) == before + all.take(i as int),
        decreases keys@.len() - i,
    {
        let l = Line::Out(compose::cat2("  ", keys[i].as_str()));
        proof {
            assert(all[i as int] == l@);
            assert(all.take(i + 1) =~= all.take(i as int).push(l@));
            assert((before + all.take(i as int)).push(l@) =~= before + all.take(i + 1));
        }
        dialog::say_more(v, l);
        i += 1;
    }
    assert(all.take(keys@.len() as int) =~= all);
}

fn count_line(head: &str, keys: &Vec<String>) -> (r: Line)
    ensures
        r@ == LineView::Out(head@ + compose::decimal(keys@.len()) + "):"@),
{
    let n = compose::to_decimal(keys.len() as u128);
    Line::Out(compose::cat3(head, n.as_str(), "):"))
}

/// What `list` shows of the registry.
pub fn show_registry(registry: &Registry) -> (r: Vec<Line>)
    ensures
        dialog::said(r@) == registry_lines(registry@),
{
    if registry.is_empty() {
        return dialog::say(Line::Out("[rlib] list.json is empty or does not exist.".to_owned()));
    }
    let keys = registry.keys();
    let mut r = dialog::say(count_line("[rlib] Entries in ~/.rlib/list.json (", &keys));
    say_keys(&mut r, &keys);
    r
}

/// What `list <path>` shows of a list file.
pub fn show_list(path: &str, content: &str) -> (r: Vec<Line>)
    ensures
        dialog::said(r@) == list_lines(path@, content@),
{
    let keys = list::active_lines(content);
    assert(text::texts(keys@).len() == keys@.len());
    if keys.len() == 0 {
        return dialog::say(
            Line::Out(compose::cat3("[rlib] '", path, "' has no active entries.")),
        );
    }
    let head = compose::cat3("[rlib] Active entries in '", path, "' (");
    let mut r = dialog::say(count_line(head.as_str(), &keys));
    say_keys(&mut r, &keys);
    r
}

/// The dependencies that are printed for keys.
pub fn print_for_cargo(registry: &Registry, keys: &Vec<String>) -> (r: Vec<Line>)
    ensures
        dialog::said(r@) == dependency_lines(registry@, text::texts(keys@)),
{
    let mut r = dialog::say(Line::Clear);
    dialog::say_more(&mut r, Line::Out("[dependencies]".to_owned()));
    let ghost head = seq![LineView::Clear, LineView::Out("[dependencies]"@)];
    let ghost all = text::texts(keys@).map_values(|k: Seq<char>| key_line(registry@, k));
    let mut i: usize = 0;
    assert(dialog::said(r@) =~= head + all.take(0));
    while i < keys.len()
        invariant
            i <= keys@.len(),
            all == text::texts(keys@).map_values(|k: Seq<char>| key_line(registry@, k)),
            dialog::said(r@) == head + all.take(i as int),
        decreases keys@.len() - i,
    {
        let l = match registry.get(keys[i].as_str()) {
            Some(e) => Line::Out(request::dependency_line(e)),
            None => Line::Warn(
                compose::cat3(
                    "[rlib] Warning: '",
                    keys[i].as_str(),
                    "' not found in list.json — skipping.",
                ),
            ),
        };
        proof {
            assert(all[i as int] == l@);
            assert((head + all.take(i as int)).push(l@) =~= head + all.take(i + 1));
        }
        dialog::say_more(&mut r, l);
        i += 1;
    }
    assert(all.take(keys@.len() as int) =~= all);
    r
}

fn stop(text: String) -> (r: (Upkeep, Vec<Line>))
    ensures
        r.0@ == UpkeepView::Stopped(1),
        dialog::said(r.1@) == seq![LineView::Warn(text@)],
{
    (Upkeep::Stopped(1), dialog::say(Line::Warn(text)))
}

fn finish(text: String) -> (r: (Upkeep, Vec<Line>))
    ensures
        r.0@ == UpkeepView::Finished,
        dialog::said(r.1@) == seq![LineView::Out(text@)],
{
    (Upkeep::Finished, dialog::say(Line::Out(text)))
}

fn go_on(s: Upkeep) -> (r: (Upkeep, Vec<Line>))
    ensures
        r.0@ == s@,
        dialog::said(r.1@) == Seq::<LineView>::empty(),
{
    (s, dialog::say_nothing())
}

fn add_to(path: String, key: String, content: Result<String, String>) -> (r: (Upkeep, Vec<Line>))
    ensures
        (r.0@, dialog::said(r.1@)) == after_read_for_add(
            path@,
            key@,
            dialog::text_result(content),
        ),
{
    match content {
        Err(failure) => go_on(Upkeep::FindForAdd { path, key, failure }),
        Ok(existing) => {
            let keys = list::active_lines(existing.as_str());
            if list::has_string(&keys, key.as_str()) {
                let head = compose::cat3(
                    "[rlib] Error: Key '",
                    key.as_str(),
                    "' already exists in '",
                );
                stop(compose::cat3(head.as_str(), path.as_str(), "'. Connection rejected."))
            } else {
                let text = list::append_key(existing.as_str(), key.as_str());
                go_on(Upkeep::WriteAdd { path, key, text })
            }
        },
    }
}

fn add_to_new(path: String, key: String, failure: String, there: bool) -> (r: (Upkeep, Vec<Line>))
    ensures
        (r.0@, dialog::said(r.1@)) == after_find_for_add(path@, key@, failure@, there),
{
    if there {
        stop(compose::cat4("[rlib] Failed to read '", path.as_str(), "': ", failure.as_str()))
    } else {
        let empty = String::new();
        assert(empty@ =~= Seq::<char>::empty());
        let text = list::append_key(empty.as_str(), key.as_str());
        go_on(Upkeep::WriteAdd { path, key, text })
    }
}

fn drop_from(path: String, key: String, content: Result<String, String>) -> (r: (
    Upkeep,
    Vec<Line>,
))
    ensures
        (r.0@, dialog::said(r.1@)) == after_read_for_drop(
            path@,
            key@,
            dialog::text_result(content),
        ),
{
    match content {
        Err(e) => stop(
            compose::cat4("[rlib] Failed to read '", path.as_str(), "': ", e.as_str()),
        ),
        Ok(s) => {
            let keys = list::active_lines(s.as_str());
            if list::has_string(&keys, key.as_str()) {
                let text = list::drop_key(s.as_str(), key.as_str());
                go_on(Upkeep::WriteDrop { path, key, text })
            } else {
                finish(
                    compose::cat5(
                        "[rlib] '",
                        key.as_str(),
                        "' was not found in '",
                        path.as_str(),
                        "'.",
                    ),
                )
            }
        },
    }
}

fn read_for_print(path: String, content: Result<String, String>) -> (r: (Upkeep, Vec<Line>))
    ensures
        (r.0@, dialog::said(r.1@)) == after_read_for_print(path@, dialog::text_result(content)),
{
    match content {
        Err(e) => stop(
            compose::cat4("[rlib] Failed to read '", path.as_str(), "': ", e.as_str()),
        ),
        Ok(s) => {
            let keys = list::active_lines(s.as_str());
            assert(text::texts(keys@).len() == keys@.len());
            if keys.len() == 0 {
                stop(compose::cat3("[rlib] '", path.as_str(), "' has no active entries."))
            } else {
                go_on(Upkeep::LoadForPrint { keys })
            }
        },
    }
}

fn go_to_folder(key: String, windows: bool, line: Line) -> (r: (Upkeep, Vec<Line>))
    ensures
        (r.0@, dialog::said(r.1@)) == on_to_folder(key@, windows, line@),
{
    let ghost first = line@;
    let mut lines = dialog::say(line);
    if folder::is_below(key.as_str(), windows) {
        return (Upkeep::LocateRemoval { key, windows }, lines);
    }
    let l = Line::Warn(compose::cat3("[rlib] Key '", key.as_str(), "' names no folder in ~/.rlib."));
    let ghost second = l@;
    dialog::say_more(&mut lines, l);
    assert(dialog::said(lines@) =~= seq![first, second]);
    (Upkeep::Stopped(1), lines)
}

fn take_out(key: String, windows: bool, registry: Registry) -> (r: (Upkeep, Vec<Line>))
    ensures
        (r.0@, dialog::said(r.1@)) == after_load_for_removal(key@, windows, registry@),
{
    let (rest, was_there) = registry.remove(key.as_str());
    if was_there {
        go_on(Upkeep::SaveRemoval { key, windows, registry: rest })
    } else {
        let l = Line::Warn(
            compose::cat3("[rlib] Key '", key.as_str(), "' not found in list.json."),
        );
        go_to_folder(key, windows, l)
    }
}

fn written(
    done: Result<(), String>,
    path: &str,
    head: &str,
    key: &str,
    middle: &str,
) -> (r: (Upkeep, Vec<Line>))
    ensures
        (r.0@, dialog::said(r.1@)) == (match dialog::done_result(done) {
            Err(e) => (UpkeepView::Stopped(1), seq![write_failure(path@, e)]),
            Ok(_) => (
                UpkeepView::Finished,
                seq![LineView::Out(head@ + key@ + middle@ + path@ + "'."@)],
            ),
        }),
{
    match done {
        Err(e) => stop(compose::cat4("[rlib] Failed to write '", path, "': ", e.as_str())),
        Ok(_) => finish(compose::cat5(head, key, middle, path, "'.")),
    }
}

impl Upkeep {
    /// The question that the state asks.
    pub fn ask(&self) -> (r: Ask)
        ensures
            r@ == question(self@),
    {
        match self {
            Upkeep::Finished => Ask::Return,
            Upkeep::Stopped(c) => Ask::Exit(*c),
            Upkeep::CheckConfig { .. } => Ask::Exists(Place::Path("rlib.config".to_owned())),
            Upkeep::WriteConfig { .. } => Ask::Write {
                place: Place::Path("rlib.config".to_owned()),
                text: config::CONFIG_TEMPLATE.to_owned(),
            },
            Upkeep::CheckList => Ask::Exists(Place::Path("rlib.list".to_owned())),
            Upkeep::WriteList => Ask::Write {
                place: Place::Path("rlib.list".to_owned()),
                text: list::LIST_TEMPLATE.to_owned(),
            },
            Upkeep::ShowRegistry => Ask::LoadRegistry,
            Upkeep::ShowList { path } => Ask::Read(Place::Path(path.clone())),
            Upkeep::LoadForRemoval { .. } => Ask::LoadRegistry,
            Upkeep::SaveRemoval { registry, .. } => Ask::SaveRegistry(registry.copy()),
            Upkeep::LocateRemoval { key, .. } => Ask::Locate(Place::Library(key.clone())),
            Upkeep::FindRemoval { key, .. } => Ask::Exists(Place::Library(key.clone())),
            Upkeep::DeleteRemoval { key, .. } => Ask::RemoveDirs(Place::Library(key.clone())),
            Upkeep::ReadForAdd { path, .. } => Ask::Read(Place::Path(path.clone())),
            Upkeep::FindForAdd { path, .. } => Ask::Exists(Place::Path(path.clone())),
            Upkeep::WriteAdd { path, text, .. } => Ask::Write {
                place: Place::Path(path.clone()),
                text: text.clone(),
            },
            Upkeep::ReadForDrop { path, .. } => Ask::Read(Place::Path(path.clone())),
            Upkeep::WriteDrop { path, text, .. } => Ask::Write {
                place: Place::Path(path.clone()),
                text: text.clone(),
            },
            Upkeep::ReadForPrint { path } => Ask::Read(Place::Path(path.clone())),
            Upkeep::LoadForPrint { .. } => Ask::LoadRegistry,
        }
    }

    /// The state that an answer leads to, and what is said on the way.
    pub fn advance(self, answer: Answer) -> (r: (Upkeep, Vec<Line>))
        ensures
            (r.0@, dialog::said(r.1@)) == next(self@, answer@),
            is_sound(self@) ==> is_sound(r.0@),
    {
        proof {
            if is_sound(self@) {
                next_is_sound(self@, answer@);
            }
        }
        match (self, answer) {
            (Upkeep::CheckConfig { both }, Answer::Flag(there)) => if there {
                stop("[rlib] rlib.config already exists in the current directory.".to_owned())
            } else {
                go_on(Upkeep::WriteConfig { both })
            },
            (Upkeep::WriteConfig { both }, Answer::Done(done)) => match done {
                Err(e) => stop(compose::cat2("[rlib] Failed to create rlib.config: ", e.as_str())),
                Ok(_) => {
                    let l = Line::Out(
                        "[rlib] Created rlib.config in the current directory.".to_owned(),
                    );
                    if both {
                        (Upkeep::CheckList, dialog::say(l))
                    } else {
                        (Upkeep::Finished, dialog::say(l))
                    }
                },
            },
            (Upkeep::CheckList, Answer::Flag(there)) => if there {
                stop("[rlib] rlib.list already exists in the current directory.".to_owned())
            } else {
                go_on(Upkeep::WriteList)
            },
            (Upkeep::WriteList, Answer::Done(done)) => match done {
                Err(e) => stop(compose::cat2("[rlib] Failed to create rlib.list: ", e.as_str())),
                Ok(_) => finish("[rlib] Created rlib.list in the current directory.".to_owned()),
            },
            (Upkeep::ShowRegistry, Answer::Known(registry)) => (
                Upkeep::Finished,
                show_registry(&registry),
            ),
            (Upkeep::ShowList { path }, Answer::Text(content)) => match content {
                Err(e) => stop(
                    compose::cat4("[rlib] Failed to read '", path.as_str(), "': ", e.as_str()),
                ),
                Ok(s) => (Upkeep::Finished, show_list(path.as_str(), s.as_str())),
            },
            (Upkeep::LoadForRemoval { key, windows }, Answer::Known(registry)) => take_out(
                key,
                windows,
                registry,
            ),
            (Upkeep::SaveRemoval { key, windows, .. }, Answer::Done(_)) => {
                let l = Line::Out(
                    compose::cat3("[rlib] Removed '", key.as_str(), "' from list.json."),
                );
                go_to_folder(key, windows, l)
            },
            (Upkeep::LocateRemoval { key, windows }, Answer::Located(dir)) => go_on(
                Upkeep::FindRemoval { key, windows, dir },
            ),
            (Upkeep::FindRemoval { key, windows, dir }, Answer::Flag(there)) => if there {
                go_on(Upkeep::DeleteRemoval { key, windows, dir })
            } else {
                finish(
                    compose::cat3("[rlib] Note: folder '", dir.as_str(), "' did not exist on disk."),
                )
            },
            (Upkeep::DeleteRemoval { dir, .. }, Answer::Done(done)) => match done {
                Err(e) => stop(
                    compose::cat4(
                        "[rlib] Failed to delete folder '",
                        dir.as_str(),
                        "': ",
                        e.as_str(),
                    ),
                ),
                Ok(_) => finish(compose::cat3("[rlib] Deleted folder '", dir.as_str(), "'.")),
            },
            (Upkeep::ReadForAdd { path, key }, Answer::Text(content)) => add_to(path, key, content),
            (Upkeep::FindForAdd { path, key, failure }, Answer::Flag(there)) => add_to_new(
                path,
                key,
                failure,
                there,
            ),
            (Upkeep::WriteAdd { path, key, .. }, Answer::Done(done)) => written(
                done,
                path.as_str(),
                "[rlib] Added '",
                key.as_str(),
                "' to '",
            ),
            (Upkeep::ReadForDrop { path, key }, Answer::Text(content)) => drop_from(
                path,
                key,
                content,
            ),
            (Upkeep::WriteDrop { path, key, .. }, Answer::Done(done)) => written(
                done,
                path.as_str(),
                "[rlib] Removed '",
                key.as_str(),
                "' from '",
            ),
            (Upkeep::ReadForPrint { path }, Answer::Text(content)) => read_for_print(path, content),
            (Upkeep::LoadForPrint { keys }, Answer::Known(registry)) => (
                Upkeep::Finished,
                print_for_cargo(&registry, &keys),
            ),
            (s, _) => go_on(s),
        }
    }
}

// ---- laws

/// Whatever the answer, upkeep is led from a state that it can be in to another
/// such state. So what it removes is a folder below `~/.rlib`.
pub proof fn next_is_sound(s: UpkeepView, a: AnswerView)
    requires
        is_sound(s),
    ensures
        is_sound(next(s, a).0),
{
}

} // verus!
