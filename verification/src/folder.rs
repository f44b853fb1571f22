//! Keys as folders below `~/.rlib`.

use crate::compose;
use crate::request;
use crate::search;
use crate::text;
use vstd::prelude::*;
use vstd::string::*;

verus! {

/// A key with a slash wherever the system has a separator: on Windows a backslash
/// is one too, elsewhere it is a character like any other.
pub open spec fn slashed(key: Seq<char>, windows: bool) -> Seq<char> {
    if windows {
        search::replaced(key, '\\', '/')
    } else {
        key
    }
}

/// The parts of a key between separators.
pub open spec fn parts_of(key: Seq<char>, windows: bool) -> Seq<Seq<char>> {
    text::pieces(slashed(key, windows), '/')
}

/// How many folders down the parts of a path lead; `None` where they lead up out of
/// the folder in which they begin. An empty part and `.` lead nowhere, `..` leads
/// up, and any other part leads down.
pub open spec fn depth(parts: Seq<Seq<char>>) -> Option<nat>
    decreases parts.len(),
{
    if parts.len() == 0 {
        Some(0)
    } else {
        let part = parts.last();
        match depth(parts.drop_last()) {
            None => None,
            Some(d) => if part.len() == 0 || part == "."@ {
                Some(d)
            } else if part != ".."@ {
                Some(d + 1)
            } else if d > 0 {
                Some((d - 1) as nat)
            } else {
                None
            },
        }
    }
}

/// Whether a key names a folder below `~/.rlib`: it is no absolute path, on Windows
/// it names no drive, it does not lead up out of `~/.rlib`, and it does not stand
/// for `~/.rlib` itself.
pub open spec fn stays_below(key: Seq<char>, windows: bool) -> bool {
    let parts = parts_of(key, windows);
    &&& parts[0].len() > 0
    &&& !(windows && key.len() >= 2 && key[1] == ':')
    &&& depth(parts) is Some
    &&& depth(parts)->0 > 0
}

proof fn lemma_depth_bound(parts: Seq<Seq<char>>)
    ensures
        depth(parts) matches Some(d) ==> d <= parts.len(),
    decreases parts.len(),
{
    if parts.len() > 0 {
        lemma_depth_bound(parts.drop_last());
    }
}

proof fn lemma_out_for_good(parts: Seq<Seq<char>>, n: int)
    requires
        0 <= n <= parts.len(),
        depth(parts.take(n)) is None,
    ensures
        depth(parts) is None,
    decreases parts.len() - n,
{
    if n < parts.len() {
        assert(parts.take(n + 1).drop_last() =~= parts.take(n));
        lemma_out_for_good(parts, n + 1);
    } else {
        assert(parts.take(n) =~= parts);
    }
}

fn find_depth(parts: &Vec<&[char]>) -> (r: Option<usize>)
    ensures
        r is Some <==> depth(text::slices(parts@)) is Some,
        r matches Some(d) ==> d == depth(text::slices(parts@))->0,
{
    let ghost all = text::slices(parts@);
    let mut d: usize = 0;
    let mut i: usize = 0;
    assert(all.take(0) =~= Seq::<Seq<char>>::empty());
    while i < parts.len()
        invariant
            i <= parts@.len(),
            all == text::slices(parts@),
            depth(all.take(i as int)) == Some(d as nat),
        decreases parts@.len() - i,
    {
        let part = parts[i];
        proof {
            assert(all.take(i + 1).drop_last() =~= all.take(i as int));
            assert(all.take(i + 1).last() == part@);
            lemma_depth_bound(all.take(i as int));
        }
        if text::same(part, "..") {
            proof {
                reveal_strlit("..");
                reveal_strlit(".");
            }
            if d == 0 {
                proof {
                    lemma_out_for_good(all, i + 1);
                }
                return None;
            }
            d -= 1;
        } else if part.len() > 0 && !text::same(part, ".") {
            d += 1;
        }
        i += 1;
    }
    assert(all.take(parts@.len() as int) =~= all);
    Some(d)
}

/// Whether a key names a folder below `~/.rlib`.
pub fn is_below(key: &str, windows: bool) -> (r: bool)
    ensures
        r == stays_below(key@, windows),
{
    let chars = text::chars_of(key);
    if windows && chars.len() >= 2 && chars[1] == ':' {
        return false;
    }
    let path = if windows {
        search::replace_char(key, '\\', '/')
    } else {
        key.to_owned()
    };
    let source = text::chars_of(path.as_str());
    let parts = text::split_on(source.as_slice(), '/');
    assert(text::slices(parts@).len() == parts@.len());
    assert(text::slices(parts@)[0] == parts@[0]@);
    if parts[0].len() == 0 {
        return false;
    }
    match find_depth(&parts) {
        Some(d) => d > 0,
        None => false,
    }
}

// ---- laws

/// Whether no two dots follow each other in a text.
pub open spec fn has_no_double_dot(s: Seq<char>) -> bool {
    forall|i: int| 0 <= i < s.len() - 1 && #[trigger] s[i] == '.' ==> s[i + 1] != '.'
}

proof fn lemma_bound(a: Seq<char>, b: Seq<char>)
    requires
        has_no_double_dot(a),
        has_no_double_dot(b),
    ensures
        has_no_double_dot(a + "_"@ + b),
{
    reveal_strlit("_");
    let s = a + "_"@ + b;
    assert forall|i: int| 0 <= i < s.len() - 1 && #[trigger] s[i] == '.' implies s[i + 1] != '.' by {
        if i < a.len() - 1 {
            assert(s[i] == a[i] && s[i + 1] == a[i + 1]);
        } else if i == a.len() - 1 {
            assert(s[i + 1] == '_');
        } else if i == a.len() {
            assert(s[i] == '_');
        } else {
            assert(s[i] == b[i - a.len() - 1] && s[i + 1] == b[i - a.len()]);
        }
    }
}

proof fn lemma_joined(parts: Seq<Seq<char>>)
    requires
        forall|i: int| 0 <= i < parts.len() ==> has_no_double_dot(#[trigger] parts[i]),
    ensures
        has_no_double_dot(compose::joined(parts, "_"@)),
    decreases parts.len(),
{
    if parts.len() == 1 {
        assert(has_no_double_dot(parts[0]));
    } else if parts.len() > 1 {
        let front = parts.drop_last();
        assert forall|i: int| 0 <= i < front.len() implies has_no_double_dot(#[trigger] front[i]) by {
            assert(has_no_double_dot(parts[i]));
        }
        lemma_joined(front);
        assert(has_no_double_dot(parts[parts.len() - 1]));
        lemma_bound(compose::joined(front, "_"@), parts.last());
    }
}

proof fn lemma_pieces(s: Seq<char>, c: char)
    requires
        has_no_double_dot(s),
    ensures
        !text::pieces(s, c).contains(".."@),
    decreases s.len(),
{
    reveal_strlit("..");
    let i = text::find_char(s, c);
    text::lemma_find_char(s, c);
    let all = text::pieces(s, c);
    let first = s.take(i);
    if first == ".."@ {
        assert(first.len() == 2);
        assert(s[0] == first[0] && s[1] == first[1]);
        assert(".."@[0] == '.' && ".."@[1] == '.');
    }
    if i < s.len() {
        let rest = s.skip(i + 1);
        assert forall|j: int| 0 <= j < rest.len() - 1 && #[trigger] rest[j] == '.' implies rest[j + 1]
            != '.' by {
            assert(s[j + i + 1] == '.');
        }
        lemma_pieces(rest, c);
        if all.contains(".."@) {
            let k = choose|k: int| 0 <= k < all.len() && all[k] == ".."@;
            assert(text::pieces(rest, c)[k - 1] == ".."@);
        }
    } else {
        assert(s.take(i) == s);
        if all.contains(".."@) {
            let k = choose|k: int| 0 <= k < all.len() && all[k] == ".."@;
            assert(all[k] == s);
        }
    }
}

proof fn lemma_depth_down(parts: Seq<Seq<char>>, i: int)
    requires
        !parts.contains(".."@),
        0 <= i < parts.len(),
        parts[i].len() > 0,
        parts[i] != "."@,
    ensures
        depth(parts) is Some,
        depth(parts)->0 > 0,
    decreases parts.len(),
{
    let front = parts.drop_last();
    assert(parts.contains(parts.last()));
    assert forall|k: int| 0 <= k < front.len() implies #[trigger] front[k] != ".."@ by {
        assert(parts.contains(parts[k]));
    }
    if i < front.len() {
        assert(front[i] == parts[i]);
        lemma_depth_down(front, i);
    } else {
        lemma_depth_some(front);
    }
}

proof fn lemma_depth_some(parts: Seq<Seq<char>>)
    requires
        !parts.contains(".."@),
    ensures
        depth(parts) is Some,
    decreases parts.len(),
{
    if parts.len() > 0 {
        let front = parts.drop_last();
        assert(parts.contains(parts.last()));
        assert forall|k: int| 0 <= k < front.len() implies #[trigger] front[k] != ".."@ by {
            assert(parts.contains(parts[k]));
        }
        lemma_depth_some(front);
    }
}

/// A plain name stays below: one that is not empty, holds no separator, names no
/// drive, and is not `.` or `..`.
pub proof fn plain_names_stay_below(key: Seq<char>, windows: bool)
    requires
        key.len() > 0,
        !slashed(key, windows).contains('/'),
        windows && key.len() >= 2 ==> key[1] != ':',
        key != "."@,
        key != ".."@,
    ensures
        stays_below(key, windows),
{
    let s = slashed(key, windows);
    text::lemma_find_char(s, '/');
    let i = text::find_char(s, '/');
    if i < s.len() {
        assert(s.contains(s[i]));
    }
    let parts = parts_of(key, windows);
    assert(parts =~= seq![s]);
    if windows {
        assert forall|j: int| 0 <= j < key.len() implies s[j] == #[trigger] key[j] by {
            assert(s.contains(s[j]));
        }
        assert(s =~= key);
    }
    assert(parts.drop_last() =~= Seq::<Seq<char>>::empty());
    assert(depth(Seq::<Seq<char>>::empty()) == Some(0nat));
    assert(parts.last() == key);
}

/// The key of a compiled library names a folder below `~/.rlib`, where the name of
/// the library does not begin with a dot or a separator or name a drive, and no
/// two dots follow each other in it or in a feature. So what has been compiled can
/// be removed.
pub proof fn keys_stay_below(
    lib_name: Seq<char>,
    version: Seq<char>,
    features: Seq<Seq<char>>,
    windows: bool,
)
    requires
        lib_name.len() > 0,
        lib_name[0] != '.' && lib_name[0] != '/',
        windows ==> lib_name[0] != '\\',
        windows && lib_name.len() >= 2 ==> lib_name[1] != ':',
        has_no_double_dot(lib_name),
        forall|i: int| 0 <= i < features.len() ==> has_no_double_dot(#[trigger] features[i]),
    ensures
        stays_below(request::key_of(lib_name, version, features), windows),
{
    reveal_strlit("_");
    reveal_strlit(".");
    let name = search::replaced(lib_name, '-', '_');
    let safe = search::replaced(version, '.', '_');
    let tail = compose::joined(features, "_"@);
    let key = request::key_of(lib_name, version, features);
    assert forall|i: int| 0 <= i < name.len() - 1 && #[trigger] name[i] == '.' implies name[i + 1]
        != '.' by {
        assert(lib_name[i] == '.');
    }
    assert forall|i: int| 0 <= i < safe.len() implies #[trigger] safe[i] != '.' by {
        assert(safe[i] != '.');
    }
    assert(has_no_double_dot(safe));
    lemma_joined(features);
    lemma_bound(name, safe);
    lemma_bound(name + "_"@ + safe, tail);
    assert(has_no_double_dot(key));
    let s = slashed(key, windows);
    assert forall|i: int| 0 <= i < s.len() - 1 && #[trigger] s[i] == '.' implies s[i + 1] != '.' by {
        assert(key[i] == '.');
    }
    lemma_pieces(s, '/');
    assert(key[0] == name[0]);
    assert(key.len() >= 2 && key[1] == (if name.len() >= 2 {
        name[1]
    } else {
        '_'
    }));
    text::lemma_find_char(s, '/');
    let i = text::find_char(s, '/');
    assert(s[0] == key[0]);
    assert(i > 0);
    let parts = parts_of(key, windows);
    assert(parts[0] == s.take(i)) by {
        assert(s.take(s.len() as int) == s);
    }
    assert(parts[0][0] == s[0]);
    assert("."@[0] == '.');
    lemma_depth_down(parts, 0);
}

} // verus!
