//! Requests to compile a library.

use crate::compose;
use crate::list;
use crate::registry::{EntryView, LibEntry};
use crate::search;
use crate::text;
use vstd::prelude::*;
use vstd::string::*;

verus! {

/// A request to compile a library.
#[derive(Debug)]
pub struct Request {
    pub lib_name: String,
    pub features: Vec<String>,
    pub git: Option<String>,
    pub branch: Option<String>,
    pub tag: Option<String>,
    pub rev: Option<String>,
}

/// The texts of a `Request`.
pub struct RequestView {
    pub lib_name: Seq<char>,
    pub features: Seq<Seq<char>>,
    pub git: Option<Seq<char>>,
    pub branch: Option<Seq<char>>,
    pub tag: Option<Seq<char>>,
    pub rev: Option<Seq<char>>,
}

/// The text of an optional string.
pub open spec fn opt_text(o: Option<String>) -> Option<Seq<char>> {
    match o {
        Some(s) => Some(s@),
        None => None,
    }
}

impl View for Request {
    type V = RequestView;

    open spec fn view(&self) -> RequestView {
        RequestView {
            lib_name: self.lib_name@,
            features: text::texts(self.features@),
            git: opt_text(self.git),
            branch: opt_text(self.branch),
            tag: opt_text(self.tag),
            rev: opt_text(self.rev),
        }
    }
}

// ---- the command line

/// The value of the last argument that begins with `prefix`.
pub open spec fn option_in(args: Seq<Seq<char>>, prefix: Seq<char>) -> Option<Seq<char>>
    decreases args.len(),
{
    if args.len() == 0 {
        None
    } else if text::has_prefix(args.last(), prefix) {
        Some(text::after_prefix(args.last(), prefix))
    } else {
        option_in(args.drop_last(), prefix)
    }
}

/// The texts that are not empty.
pub open spec fn nonempty(v: Seq<Seq<char>>) -> Seq<Seq<char>> {
    v.filter(|s: Seq<char>| s.len() > 0)
}

/// The features in a list with commas, trimmed, without empty ones.
pub open spec fn features_in(value: Seq<char>) -> Seq<Seq<char>> {
    nonempty(list::all_trimmed(text::pieces(value, ',')))
}

/// The request that a command line makes, after the name of the program: the
/// library, then options, of which the last of a kind counts.
pub open spec fn request_of(args: Seq<Seq<char>>) -> RequestView {
    let options = args.skip(2);
    RequestView {
        lib_name: args[1],
        features: match option_in(options, "features="@) {
            Some(v) => features_in(v),
            None => seq![],
        },
        git: option_in(options, "git="@),
        branch: option_in(options, "branch="@),
        tag: option_in(options, "tag="@),
        rev: option_in(options, "rev="@),
    }
}

fn read_option(args: &Vec<String>, prefix: &str) -> (r: Option<String>)
    requires
        args@.len() >= 2,
    ensures
        opt_text(r) == option_in(text::texts(args@).skip(2), prefix@),
{
    let ghost options = text::texts(args@).skip(2);
    let mut i: usize = args.len();
    assert(options.take(options.len() as int) == options);
    while i > 2
        invariant
            2 <= i <= args@.len(),
            options == text::texts(args@).skip(2),
            option_in(options, prefix@) == option_in(options.take(i - 2), prefix@),
        decreases i,
    {
        let arg = text::chars_of(args[i - 1].as_str());
        proof {
            let t = options.take(i - 2);
            assert(t.drop_last() == options.take(i - 3));
            assert(t.last() == args@[i - 1]@);
        }
        if let Some(v) = text::strip_prefix(arg.as_slice(), prefix) {
            return Some(text::string_of(v));
        }
        i -= 1;
    }
    None
}

fn read_features(value: &str) -> (r: Vec<String>)
    ensures
        text::texts(r@) == features_in(value@),
{
    let source = text::chars_of(value);
    let parts = text::split_on(source.as_slice(), ',');
    let ghost all = list::all_trimmed(text::slices(parts@));
    let mut r: Vec<String> = Vec::new();
    let mut i: usize = 0;
    proof {
        reveal(Seq::filter);
        assert(all.take(0) == Seq::<Seq<char>>::empty());
        assert(text::texts(r@) == nonempty(all.take(0)));
    }
    while i < parts.len()
        invariant
            i <= parts@.len(),
            all == list::all_trimmed(text::slices(parts@)),
            text::texts(r@) == nonempty(all.take(i as int)),
        decreases parts@.len() - i,
    {
        let t = text::trim(parts[i]);
        proof {
            reveal(Seq::filter);
            assert(all.take(i + 1).drop_last() == all.take(i as int));
            assert(all.take(i + 1).last() == t@);
        }
        let ghost before = text::texts(r@);
        if t.len() > 0 {
            let s = text::string_of(t);
            r.push(s);
            assert(text::texts(r@) == before.push(s@));
        }
        i += 1;
    }
    assert(all.take(parts@.len() as int) == all);
    r
}

/// The request that a command line makes.
pub fn read_request(args: &Vec<String>) -> (r: Request)
    requires
        args@.len() >= 2,
    ensures
        r@ == request_of(text::texts(args@)),
{
    let features = match read_option(args, "features=") {
        Some(v) => read_features(v.as_str()),
        None => Vec::new(),
    };
    let r = Request {
        lib_name: args[1].clone(),
        features,
        git: read_option(args, "git="),
        branch: read_option(args, "branch="),
        tag: read_option(args, "tag="),
        rev: read_option(args, "rev="),
    };
    assert(r@.features =~= request_of(text::texts(args@)).features);
    r
}

// ---- what the request leads to

/// The arguments that select a git reference: a branch before a tag before a
/// revision.
pub open spec fn reference_args(r: RequestView) -> Seq<Seq<char>> {
    if r.branch is Some {
        seq!["--branch"@, r.branch->0]
    } else if r.tag is Some {
        seq!["--tag"@, r.tag->0]
    } else if r.rev is Some {
        seq!["--rev"@, r.rev->0]
    } else {
        seq![]
    }
}

/// The arguments of `cargo` that add the library to a project.
pub open spec fn add_args(r: RequestView) -> Seq<Seq<char>> {
    seq!["add"@] + (if r.git is Some {
        seq!["--git"@, r.git->0] + reference_args(r)
    } else {
        seq![]
    }) + seq![r.lib_name] + (if r.features.len() > 0 {
        seq!["--features"@, compose::joined(r.features, ","@)]
    } else {
        seq![]
    })
}

/// Adds a string to a list.
pub fn add_text(v: &mut Vec<String>, s: &str)
    ensures
        text::texts(final(v)@) == text::texts(old(v)@).push(s@),
{
    v.push(s.to_owned());
    assert(text::texts(v@) =~= text::texts(old(v)@).push(s@));
}

/// The arguments of `cargo` that add the library to a project.
pub fn cargo_add_args(r: &Request) -> (v: Vec<String>)
    ensures
        text::texts(v@) == add_args(r@),
{
    let mut v: Vec<String> = Vec::new();
    add_text(&mut v, "add");
    if let Some(url) = &r.git {
        add_text(&mut v, "--git");
        add_text(&mut v, url.as_str());
        if let Some(branch) = &r.branch {
            add_text(&mut v, "--branch");
            add_text(&mut v, branch.as_str());
        } else if let Some(tag) = &r.tag {
            add_text(&mut v, "--tag");
            add_text(&mut v, tag.as_str());
        } else if let Some(rev) = &r.rev {
            add_text(&mut v, "--rev");
            add_text(&mut v, rev.as_str());
        }
    }
    add_text(&mut v, r.lib_name.as_str());
    if r.features.len() > 0 {
        add_text(&mut v, "--features");
        add_text(&mut v, compose::join(&r.features, ",").as_str());
    }
    assert(text::texts(v@) =~= add_args(r@));
    v
}

/// The key of a compiled library: its name, its version and its features, with
/// underscores between them.
pub open spec fn key_of(
    lib_name: Seq<char>,
    version: Seq<char>,
    features: Seq<Seq<char>>,
) -> Seq<char> {
    let head = search::replaced(lib_name, '-', '_') + "_"@ + search::replaced(version, '.', '_');
    let tail = compose::joined(features, "_"@);
    if tail.len() > 0 {
        head + "_"@ + tail
    } else {
        head
    }
}

/// The key of a compiled library.
pub fn folder_name(lib_name: &str, version: &str, features: &Vec<String>) -> (r: String)
    ensures
        r@ == key_of(lib_name@, version@, text::texts(features@)),
{
    let name = search::replace_char(lib_name, '-', '_');
    let safe = search::replace_char(version, '.', '_');
    let head = compose::cat3(name.as_str(), "_", safe.as_str());
    let tail = compose::join(features, "_");
    if tail.as_str().is_empty() {
        head
    } else {
        compose::cat3(head.as_str(), "_", tail.as_str())
    }
}

/// Hyphens and underscores in the name of a library lead to the same key.
pub proof fn key_ignores_hyphens(
    lib_name: Seq<char>,
    version: Seq<char>,
    features: Seq<Seq<char>>,
)
    ensures
        key_of(search::replaced(lib_name, '-', '_'), version, features) == key_of(
            lib_name,
            version,
            features,
        ),
{
    assert(search::replaced(search::replaced(lib_name, '-', '_'), '-', '_') =~= search::replaced(
        lib_name,
        '-',
        '_',
    ));
}

/// Whether no character of a text is white space.
pub open spec fn has_no_white(s: Seq<char>) -> bool {
    forall|i: int| 0 <= i < s.len() ==> !text::white(#[trigger] s[i])
}

proof fn lemma_add_no_white(a: Seq<char>, b: Seq<char>)
    requires
        has_no_white(a),
        has_no_white(b),
    ensures
        has_no_white(a + b),
{
    assert forall|i: int| 0 <= i < (a + b).len() implies !text::white(#[trigger] (a + b)[i]) by {
        if i < a.len() {
            assert((a + b)[i] == a[i]);
        } else {
            assert((a + b)[i] == b[i - a.len()]);
        }
    }
}

proof fn lemma_joined_no_white(parts: Seq<Seq<char>>, sep: Seq<char>)
    requires
        forall|i: int| 0 <= i < parts.len() ==> has_no_white(#[trigger] parts[i]),
        has_no_white(sep),
    ensures
        has_no_white(compose::joined(parts, sep)),
    decreases parts.len(),
{
    if parts.len() == 1 {
        assert(has_no_white(parts[0]));
    } else if parts.len() > 1 {
        let front = parts.drop_last();
        assert forall|i: int| 0 <= i < front.len() implies has_no_white(#[trigger] front[i]) by {
            assert(has_no_white(parts[i]));
        }
        lemma_joined_no_white(front, sep);
        assert(has_no_white(parts[parts.len() - 1]));
        lemma_add_no_white(compose::joined(front, sep), sep);
        lemma_add_no_white(compose::joined(front, sep) + sep, parts.last());
    }
}

/// The key of a library can stand in a list file, where the name of the library
/// is no comment, and there is no white space in name, version and features.
pub proof fn keys_can_be_listed(
    lib_name: Seq<char>,
    version: Seq<char>,
    features: Seq<Seq<char>>,
)
    requires
        lib_name.len() > 0,
        lib_name[0] != '#',
        has_no_white(lib_name),
        has_no_white(version),
        forall|i: int| 0 <= i < features.len() ==> has_no_white(#[trigger] features[i]),
    ensures
        list::is_plain_key(key_of(lib_name, version, features)),
{
    reveal_strlit("_");
    let name = search::replaced(lib_name, '-', '_');
    let safe = search::replaced(version, '.', '_');
    let tail = compose::joined(features, "_"@);
    let head = name + "_"@ + safe;
    let key = key_of(lib_name, version, features);
    assert(has_no_white("_"@)) by {
        assert("_"@[0] == '_');
    }
    assert forall|i: int| 0 <= i < name.len() implies !text::white(#[trigger] name[i]) by {
        assert(!text::white(lib_name[i]));
    }
    assert forall|i: int| 0 <= i < safe.len() implies !text::white(#[trigger] safe[i]) by {
        assert(!text::white(version[i]));
    }
    lemma_joined_no_white(features, "_"@);
    lemma_add_no_white(name, "_"@);
    lemma_add_no_white(name + "_"@, safe);
    lemma_add_no_white(head, "_"@);
    lemma_add_no_white(head + "_"@, tail);
    assert(has_no_white(key));
    assert(key[0] == name[0]);
    assert(!text::white(key[0]) && !text::white(key[key.len() - 1]));
    assert(text::trimmed(key) == key);
    if key.contains('\n') {
        let i = choose|i: int| 0 <= i < key.len() && key[i] == '\n';
        assert(!text::white(key[i]));
    }
}

// ---- dependency lines

/// A text in double quotes.
pub open spec fn quoted(s: Seq<char>) -> Seq<char> {
    "\""@ + s + "\""@
}

/// The line for a library in the dependencies of a `Cargo.toml`.
pub open spec fn dependency(e: EntryView) -> Seq<char> {
    if e.features.len() == 0 {
        e.name + " = \""@ + e.version + "\""@
    } else {
        e.name + " = { version = \""@ + e.version + "\", features = ["@ + compose::joined(
            e.features.map_values(|f: Seq<char>| quoted(f)),
            ", "@,
        ) + "] }"@
    }
}

/// The line for a library in the dependencies of a `Cargo.toml`.
pub fn dependency_line(e: &LibEntry) -> (r: String)
    ensures
        r@ == dependency(e@),
{
    if e.features.len() == 0 {
        return compose::cat4(e.name.as_str(), " = \"", e.version.as_str(), "\"");
    }
    let ghost all = text::texts(e.features@).map_values(|f: Seq<char>| quoted(f));
    let mut parts: Vec<String> = Vec::new();
    let mut i: usize = 0;
    assert(text::texts(parts@) =~= all.take(0));
    while i < e.features.len()
        invariant
            i <= e.features@.len(),
            all == text::texts(e.features@).map_values(|f: Seq<char>| quoted(f)),
            text::texts(parts@) == all.take(i as int),
        decreases e.features@.len() - i,
    {
        let q = compose::cat3("\"", e.features[i].as_str(), "\"");
        assert(all.take(i + 1) == all.take(i as int).push(q@));
        add_text(&mut parts, q.as_str());
        i += 1;
    }
    assert(all.take(e.features@.len() as int) == all);
    let list = compose::join(&parts, ", ");
    let head = compose::cat4(
        e.name.as_str(),
        " = { version = \"",
        e.version.as_str(),
        "\", features = [",
    );
    compose::cat3(head.as_str(), list.as_str(), "] }")
}

} // verus!
