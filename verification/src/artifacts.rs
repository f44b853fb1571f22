//! Compiled library files and the flags that make them available.

use crate::compose;
use crate::order;
use crate::text;
use vstd::prelude::*;
use vstd::slice::slice_subrange;
use vstd::string::*;

verus! {

/// The place of the last `c` in `s`, or -1 if there is none.
pub open spec fn find_last_char(s: Seq<char>, c: char) -> int
    decreases s.len(),
{
    if s.len() == 0 {
        -1
    } else if s.last() == c {
        s.len() - 1
    } else {
        find_last_char(s.drop_last(), c)
    }
}

proof fn lemma_find_last_char(s: Seq<char>, c: char)
    ensures
        -1 <= find_last_char(s, c) < s.len(),
        0 <= find_last_char(s, c) ==> s[find_last_char(s, c)] == c,
        forall|j: int| find_last_char(s, c) < j < s.len() ==> s[j] != c,
    decreases s.len(),
{
    if s.len() > 0 && s.last() != c {
        lemma_find_last_char(s.drop_last(), c);
        assert forall|j: int| find_last_char(s, c) < j < s.len() implies s[j] != c by {
            if j < s.len() - 1 {
                assert(s[j] == s.drop_last()[j]);
            }
        }
    }
}

proof fn lemma_find_last_char_is(s: Seq<char>, c: char, i: int)
    requires
        -1 <= i < s.len(),
        0 <= i ==> s[i] == c,
        forall|j: int| i < j < s.len() ==> s[j] != c,
    ensures
        find_last_char(s, c) == i,
{
    lemma_find_last_char(s, c);
    let k = find_last_char(s, c);
    if k < i {
        assert(s[i] != c);
    } else if i < k {
        assert(s[k] != c);
    }
}

fn last_place(s: &[char], c: char) -> (r: Option<usize>)
    ensures
        r is None <==> find_last_char(s@, c) == -1,
        r matches Some(i) ==> i < s@.len() && i == find_last_char(s@, c),
{
    let mut i: usize = s.len();
    while i > 0
        invariant
            i <= s@.len(),
            forall|j: int| i <= j < s@.len() ==> s@[j] != c,
        decreases i,
    {
        if s[i - 1] == c {
            proof {
                lemma_find_last_char_is(s@, c, i - 1);
            }
            return Some(i - 1);
        }
        i -= 1;
    }
    proof {
        lemma_find_last_char_is(s@, c, -1);
    }
    None
}

/// The crate that a library file holds: what stands between `lib` and the last
/// hyphen, or between `lib` and `.rlib` where there is no hyphen.
pub open spec fn crate_of(fname: Seq<char>) -> Option<Seq<char>> {
    if !text::has_prefix(fname, "lib"@) {
        None
    } else {
        let rest = text::after_prefix(fname, "lib"@);
        if !text::has_suffix(rest, ".rlib"@) {
            None
        } else {
            let stem = text::before_suffix(rest, ".rlib"@);
            let i = find_last_char(stem, '-');
            if i < 0 {
                Some(stem)
            } else {
                Some(stem.take(i))
            }
        }
    }
}

/// The crate that a library file holds, if its name is that of a library file.
pub fn extract_crate_name(fname: &str) -> (r: Option<String>)
    ensures
        r is Some <==> crate_of(fname@) is Some,
        r matches Some(name) ==> name@ == crate_of(fname@)->0,
{
    let source = text::chars_of(fname);
    match text::strip_prefix(source.as_slice(), "lib") {
        None => None,
        Some(rest) => match text::strip_suffix(rest, ".rlib") {
            None => None,
            Some(stem) => match last_place(stem, '-') {
                None => Some(text::string_of(stem)),
                Some(i) => Some(text::string_of(slice_subrange(stem, 0, i))),
            },
        },
    }
}

/// The file that holds a crate under a hash that has no hyphen is recognised,
/// whatever the name of the crate.
pub proof fn hashed_file_names_its_crate(name: Seq<char>, hash: Seq<char>)
    requires
        !hash.contains('-'),
    ensures
        crate_of("lib"@ + name + "-"@ + hash + ".rlib"@) == Some(name),
{
    reveal_strlit("-");
    let pre = "lib"@;
    let ext = ".rlib"@;
    let stem = name + "-"@ + hash;
    let fname = "lib"@ + name + "-"@ + hash + ".rlib"@;
    assert(fname.take(pre.len() as int) == pre);
    let rest = text::after_prefix(fname, pre);
    assert(rest == stem + ext);
    assert(rest.skip(rest.len() - ext.len()) == ext);
    assert(text::before_suffix(rest, ext) == stem);
    let i = name.len() as int;
    assert(stem[i] == '-');
    assert forall|j: int| i < j < stem.len() implies stem[j] != '-' by {
        assert(stem[j] == hash[j - i - 1]);
        assert(hash.contains(hash[j - i - 1]));
    }
    lemma_find_last_char_is(stem, '-', i);
    assert(stem.take(i) == name);
}

/// Whether `ext` is the extension of a file name: what stands after the last
/// dot, where that is not the first character.
pub open spec fn has_extension(fname: Seq<char>, ext: Seq<char>) -> bool {
    let i = find_last_char(fname, '.');
    0 < i && fname.skip(i + 1) == ext
}

/// Whether `ext` is the extension of a file name.
pub fn extension_is(fname: &str, ext: &str) -> (r: bool)
    ensures
        r == has_extension(fname@, ext@),
{
    let source = text::chars_of(fname);
    let n: usize = source.len();
    match last_place(source.as_slice(), '.') {
        None => false,
        Some(i) => {
            assert(source@.subrange(i + 1, source@.len() as int) == source@.skip(i + 1));
            i > 0 && text::same(slice_subrange(source.as_slice(), i + 1, n), ext)
        },
    }
}

// ---- the flags for a directory of library files

/// The library files among the names, each with its crate before it.
pub open spec fn libraries(names: Seq<Seq<char>>) -> Seq<(Seq<char>, Seq<char>)>
    decreases names.len(),
{
    if names.len() == 0 {
        seq![]
    } else {
        let front = libraries(names.drop_last());
        let last = names.last();
        if has_extension(last, "rlib"@) && crate_of(last) is Some {
            front.push((crate_of(last)->0, last))
        } else {
            front
        }
    }
}

/// The pairs of `v` whose first text is `k`.
pub open spec fn with_name(v: Seq<(Seq<char>, Seq<char>)>, k: Seq<char>) -> Seq<
    (Seq<char>, Seq<char>),
> {
    v.filter(|p: (Seq<char>, Seq<char>)| p.0 == k)
}

/// Whether `r` holds the pairs of `v` in the alphabetical order of their first
/// texts, those with the same first text in the order in which `v` has them.
pub open spec fn is_stable_sorting(
    r: Seq<(Seq<char>, Seq<char>)>,
    v: Seq<(Seq<char>, Seq<char>)>,
) -> bool {
    &&& forall|i: int, j: int| 0 <= i <= j < r.len() ==> order::lex_le(r[i].0, r[j].0)
    &&& forall|k: Seq<char>| #[trigger] with_name(r, k) == with_name(v, k)
}

/// The pairs of `v` in the alphabetical order of their first texts.
pub open spec fn sorted_by_name(v: Seq<(Seq<char>, Seq<char>)>) -> Seq<(Seq<char>, Seq<char>)> {
    choose|r: Seq<(Seq<char>, Seq<char>)>| is_stable_sorting(r, v)
}

proof fn lemma_with_name_nonempty(v: Seq<(Seq<char>, Seq<char>)>, k: Seq<char>)
    ensures
        with_name(v, k).len() > 0 <==> exists|i: int| 0 <= i < v.len() && (#[trigger] v[i]).0 == k,
    decreases v.len(),
{
    reveal(Seq::filter);
    if v.len() > 0 {
        let front = v.drop_last();
        lemma_with_name_nonempty(front, k);
        if v.last().0 == k {
            assert(v[v.len() - 1].0 == k);
        } else {
            if with_name(front, k).len() > 0 {
                let i = choose|i: int| 0 <= i < front.len() && (#[trigger] front[i]).0 == k;
                assert(v[i].0 == k);
            }
            if exists|i: int| 0 <= i < v.len() && (#[trigger] v[i]).0 == k {
                let i = choose|i: int| 0 <= i < v.len() && (#[trigger] v[i]).0 == k;
                assert(front[i].0 == k);
            }
        }
    }
}

/// There is only one way to sort pairs and keep the order of those with the
/// same first text.
pub proof fn stable_sorting_is_unique(
    a: Seq<(Seq<char>, Seq<char>)>,
    b: Seq<(Seq<char>, Seq<char>)>,
    v: Seq<(Seq<char>, Seq<char>)>,
)
    requires
        is_stable_sorting(a, v),
        is_stable_sorting(b, v),
    ensures
        a == b,
{
    assert forall|k: Seq<char>| #[trigger] with_name(a, k) == with_name(b, k) by {
        assert(with_name(a, k) == with_name(v, k));
        assert(with_name(b, k) == with_name(v, k));
    }
    lemma_same_groups(a, b);
}

proof fn lemma_same_groups(a: Seq<(Seq<char>, Seq<char>)>, b: Seq<(Seq<char>, Seq<char>)>)
    requires
        forall|i: int, j: int| 0 <= i <= j < a.len() ==> order::lex_le(a[i].0, a[j].0),
        forall|i: int, j: int| 0 <= i <= j < b.len() ==> order::lex_le(b[i].0, b[j].0),
        forall|k: Seq<char>| #[trigger] with_name(a, k) == with_name(b, k),
    ensures
        a == b,
    decreases a.len(),
{
    reveal(Seq::filter);
    if a.len() == 0 {
        if b.len() > 0 {
            let k = b[0].0;
            lemma_with_name_nonempty(b, k);
            lemma_with_name_nonempty(a, k);
            assert(with_name(a, k) == with_name(b, k));
        }
        assert(a =~= b);
    } else {
        let k = a.last().0;
        lemma_with_name_nonempty(a, k);
        lemma_with_name_nonempty(b, k);
        assert(a[a.len() - 1].0 == k);
        assert(with_name(a, k) == with_name(b, k));
        let i = choose|i: int| 0 <= i < b.len() && (#[trigger] b[i]).0 == k;
        let m = b.last().0;
        lemma_with_name_nonempty(a, m);
        lemma_with_name_nonempty(b, m);
        assert(b[b.len() - 1].0 == m);
        assert(with_name(a, m) == with_name(b, m));
        let j = choose|j: int| 0 <= j < a.len() && (#[trigger] a[j]).0 == m;
        assert(order::lex_le(b[i].0, b[b.len() - 1].0));
        assert(order::lex_le(a[j].0, a[a.len() - 1].0));
        order::lex_antisymmetric(k, m);
        assert(with_name(a, k).last() == a.last());
        assert(with_name(b, k).last() == b.last());
        let c = a.drop_last();
        let d = b.drop_last();
        assert forall|x: Seq<char>| #[trigger] with_name(c, x) == with_name(d, x) by {
            assert(with_name(a, x) == with_name(b, x));
            if x == k {
                assert(with_name(c, x) == with_name(a, x).drop_last());
                assert(with_name(d, x) == with_name(b, x).drop_last());
            }
        }
        lemma_same_groups(c, d);
        assert(a == c.push(a.last()));
        assert(b == d.push(b.last()));
    }
}

/// A library file and the crate that it holds.
pub struct Library {
    pub name: String,
    pub file: String,
}

impl View for Library {
    type V = (Seq<char>, Seq<char>);

    open spec fn view(&self) -> (Seq<char>, Seq<char>) {
        (self.name@, self.file@)
    }
}

/// The texts of a list of library files.
pub open spec fn pairs(v: Seq<Library>) -> Seq<(Seq<char>, Seq<char>)> {
    v.map_values(|l: Library| l@)
}

proof fn lemma_insert_keeps_groups(
    u: Seq<(Seq<char>, Seq<char>)>,
    v: Seq<(Seq<char>, Seq<char>)>,
    p: int,
    x: (Seq<char>, Seq<char>),
)
    requires
        is_stable_sorting(u, v),
        0 <= p <= u.len(),
        forall|j: int| 0 <= j < p ==> order::lex_le((#[trigger] u[j]).0, x.0),
        forall|j: int| p <= j < u.len() ==> !order::lex_le((#[trigger] u[j]).0, x.0),
    ensures
        is_stable_sorting(u.insert(p, x), v.push(x)),
{
    reveal(Seq::filter);
    let w = u.insert(p, x);
    assert forall|i: int, j: int| 0 <= i <= j < w.len() implies order::lex_le(w[i].0, w[j].0) by {
        if i < p {
            assert(w[i] == u[i]);
            if j < p {
                assert(w[j] == u[j]);
            } else if j > p {
                assert(w[j] == u[j - 1]);
                assert(order::lex_le(u[i].0, u[j - 1].0));
            }
        } else if i == p {
            if j > p {
                assert(w[j] == u[j - 1]);
                order::lex_total(x.0, u[j - 1].0);
            } else {
                order::lex_total(x.0, x.0);
            }
        } else {
            assert(w[i] == u[i - 1]);
            assert(w[j] == u[j - 1]);
            assert(order::lex_le(u[i - 1].0, u[j - 1].0));
        }
    }
    assert forall|k: Seq<char>| #[trigger] with_name(w, k) == with_name(v.push(x), k) by {
        let pred = |q: (Seq<char>, Seq<char>)| q.0 == k;
        let a = u.take(p);
        let b = u.skip(p);
        assert(u == a + b);
        assert(w == (a + seq![x]) + b);
        Seq::filter_distributes_over_add(a, b, pred);
        Seq::filter_distributes_over_add(a + seq![x], b, pred);
        assert(a + seq![x] == a.push(x));
        assert(a.push(x).drop_last() == a);
        assert(v.push(x).drop_last() == v);
        assert(with_name(u, k) == with_name(v, k));
        if k == x.0 {
            lemma_with_name_nonempty(b, k);
            if with_name(b, k).len() > 0 {
                let i = choose|i: int| 0 <= i < b.len() && (#[trigger] b[i]).0 == k;
                assert(u[p + i] == b[i]);
                order::lex_total(k, k);
                assert(!order::lex_le(u[p + i].0, x.0));
            }
            assert(with_name(b, k) =~= Seq::<(Seq<char>, Seq<char>)>::empty());
            assert(with_name(w, k) == with_name(a, k).push(x) + with_name(b, k));
            assert(with_name(u, k) =~= with_name(a, k));
            assert(with_name(w, k) =~= with_name(u, k).push(x));
        } else {
            assert(with_name(a.push(x), k) == with_name(a, k));
        }
    }
}

/// Puts a library file into a sorted list, after those that are not after it.
fn put_in_order(v: &mut Vec<Library>, x: Library, Ghost(all): Ghost<Seq<(Seq<char>, Seq<char>)>>)
    requires
        is_stable_sorting(pairs(old(v)@), all),
    ensures
        is_stable_sorting(pairs(final(v)@), all.push(x@)),
{
    let ghost u = pairs(v@);
    let mut p: usize = v.len();
    while p > 0
        invariant
            p <= v@.len(),
            u == pairs(v@),
            is_stable_sorting(u, all),
            forall|j: int| p <= j < u.len() ==> !order::lex_le((#[trigger] u[j]).0, x.name@),
        ensures
            p <= v@.len(),
            forall|j: int| 0 <= j < p ==> order::lex_le((#[trigger] u[j]).0, x.name@),
        decreases p,
    {
        assert(u[p - 1].0 == v@[p - 1].name@);
        if order::in_order(v[p - 1].name.as_str(), x.name.as_str()) {
            proof {
                assert forall|j: int| 0 <= j < p implies order::lex_le(
                    (#[trigger] u[j]).0,
                    x.name@,
                ) by {
                    assert(order::lex_le(u[j].0, u[p - 1].0));
                    order::lex_transitive(u[j].0, u[p - 1].0, x.name@);
                }
            }
            break ;
        }
        p -= 1;
    }
    proof {
        lemma_insert_keeps_groups(u, all, p as int, x@);
        assert(pairs(v@.insert(p as int, x)) == u.insert(p as int, x@));
    }
    v.insert(p, x);
}

/// The flag that makes a library file of the directory available.
pub open spec fn extern_flag(dir: Seq<char>, lib: (Seq<char>, Seq<char>)) -> Seq<char> {
    "--extern "@ + lib.0 + "="@ + dir + "/"@ + lib.1
}

/// The flags that make the library files of a directory available, one by one.
pub open spec fn single_flags(dir: Seq<char>, names: Seq<Seq<char>>) -> Seq<Seq<char>> {
    seq!["-L "@ + dir] + sorted_by_name(libraries(names)).map_values(
        |l: (Seq<char>, Seq<char>)| extern_flag(dir, l),
    )
}

/// The flags that make the library files of a directory available.
pub open spec fn flags_for(dir: Seq<char>, names: Seq<Seq<char>>) -> Seq<char> {
    compose::joined(single_flags(dir, names), " "@)
}

/// The flags that make the library files of a directory available; `names` are
/// the files that the directory holds.
pub fn build_flags(dir: &str, names: &Vec<String>) -> (r: String)
    ensures
        r@ == flags_for(dir@, text::texts(names@)),
{
    let ghost all = text::texts(names@);
    let mut libs: Vec<Library> = Vec::new();
    let mut i: usize = 0;
    proof {
        reveal(Seq::filter);
        assert(all.take(0) == Seq::<Seq<char>>::empty());
        assert(pairs(libs@) == libraries(all.take(0)));
        assert(is_stable_sorting(pairs(libs@), libraries(all.take(0))));
    }
    while i < names.len()
        invariant
            i <= names@.len(),
            all == text::texts(names@),
            is_stable_sorting(pairs(libs@), libraries(all.take(i as int))),
        decreases names@.len() - i,
    {
        proof {
            let t = all.take(i + 1);
            assert(t.drop_last() == all.take(i as int));
            assert(t.last() == names@[i as int]@);
        }
        let fname = names[i].as_str();
        if extension_is(fname, "rlib") {
            if let Some(name) = extract_crate_name(fname) {
                let lib = Library { name, file: fname.to_owned() };
                put_in_order(&mut libs, lib, Ghost(libraries(all.take(i as int))));
            }
        }
        i += 1;
    }
    assert(all.take(names@.len() as int) == all);
    let ghost sorted = pairs(libs@);
    proof {
        stable_sorting_is_unique(sorted, sorted_by_name(libraries(all)), libraries(all));
    }
    let ghost flags = sorted.map_values(|l: (Seq<char>, Seq<char>)| extern_flag(dir@, l));
    let mut parts: Vec<String> = Vec::new();
    parts.push(compose::cat2("-L ", dir));
    let mut j: usize = 0;
    assert(text::texts(parts@) =~= seq!["-L "@ + dir@] + flags.take(0));
    while j < libs.len()
        invariant
            j <= libs@.len(),
            sorted == pairs(libs@),
            flags == sorted.map_values(|l: (Seq<char>, Seq<char>)| extern_flag(dir@, l)),
            text::texts(parts@) == seq!["-L "@ + dir@] + flags.take(j as int),
        decreases libs@.len() - j,
    {
        let head = compose::cat4("--extern ", libs[j].name.as_str(), "=", dir);
        let flag = compose::cat3(head.as_str(), "/", libs[j].file.as_str());
        let ghost before = text::texts(parts@);
        proof {
            assert(sorted[j as int] == libs@[j as int]@);
            assert(flag@ == extern_flag(dir@, sorted[j as int]));
            assert(flags.take(j + 1) == flags.take(j as int).push(flag@));
            assert(before.push(flag@) == seq!["-L "@ + dir@] + flags.take(j + 1));
        }
        parts.push(flag);
        assert(text::texts(parts@) == before.push(flag@));
        j += 1;
    }
    assert(flags.take(libs@.len() as int) == flags);
    compose::join(&parts, " ")
}

// ---- laws

proof fn lemma_place(u: Seq<(Seq<char>, Seq<char>)>, k: Seq<char>) -> (p: int)
    requires
        forall|i: int, j: int| 0 <= i <= j < u.len() ==> order::lex_le(u[i].0, u[j].0),
    ensures
        0 <= p <= u.len(),
        forall|j: int| 0 <= j < p ==> order::lex_le((#[trigger] u[j]).0, k),
        forall|j: int| p <= j < u.len() ==> !order::lex_le((#[trigger] u[j]).0, k),
    decreases u.len(),
{
    if u.len() == 0 {
        0
    } else if order::lex_le(u.last().0, k) {
        assert forall|j: int| 0 <= j < u.len() implies order::lex_le((#[trigger] u[j]).0, k) by {
            assert(order::lex_le(u[j].0, u[u.len() - 1].0));
            order::lex_transitive(u[j].0, u.last().0, k);
        }
        u.len() as int
    } else {
        let front = u.drop_last();
        let p = lemma_place(front, k);
        assert forall|j: int| 0 <= j < p implies order::lex_le((#[trigger] u[j]).0, k) by {
            assert(front[j] == u[j]);
        }
        assert forall|j: int| p <= j < u.len() implies !order::lex_le((#[trigger] u[j]).0, k) by {
            if j < front.len() {
                assert(front[j] == u[j]);
            }
        }
        p
    }
}

proof fn lemma_can_be_sorted(v: Seq<(Seq<char>, Seq<char>)>) -> (r: Seq<(Seq<char>, Seq<char>)>)
    ensures
        is_stable_sorting(r, v),
        r.len() == v.len(),
    decreases v.len(),
{
    if v.len() == 0 {
        v
    } else {
        let front = v.drop_last();
        let u = lemma_can_be_sorted(front);
        let p = lemma_place(u, v.last().0);
        lemma_insert_keeps_groups(u, front, p, v.last());
        assert(front.push(v.last()) == v);
        u.insert(p, v.last())
    }
}

proof fn lemma_libraries_hold(names: Seq<Seq<char>>, i: int)
    requires
        0 <= i < names.len(),
        has_extension(names[i], "rlib"@),
        crate_of(names[i]) is Some,
    ensures
        libraries(names).contains((crate_of(names[i])->0, names[i])),
    decreases names.len(),
{
    let front = names.drop_last();
    let lib = (crate_of(names[i])->0, names[i]);
    let all = libraries(names);
    if i < front.len() {
        assert(front[i] == names[i]);
        lemma_libraries_hold(front, i);
        let k = choose|k: int| 0 <= k < libraries(front).len() && libraries(front)[k] == lib;
        assert(all[k] == lib);
    } else {
        assert(all.last() == lib);
    }
}

/// Every library file of a directory has its flag, under the name of its crate.
pub proof fn every_library_file_has_its_flag(dir: Seq<char>, names: Seq<Seq<char>>, i: int)
    requires
        0 <= i < names.len(),
        has_extension(names[i], "rlib"@),
        crate_of(names[i]) is Some,
    ensures
        single_flags(dir, names).contains(extern_flag(dir, (crate_of(names[i])->0, names[i]))),
{
    let v = libraries(names);
    let r = sorted_by_name(v);
    let lib = (crate_of(names[i])->0, names[i]);
    let any = lemma_can_be_sorted(v);
    assert(is_stable_sorting(r, v));
    lemma_libraries_hold(names, i);
    let k = choose|k: int| 0 <= k < v.len() && v[k] == lib;
    let same = |p: (Seq<char>, Seq<char>)| p.0 == lib.0;
    v.lemma_filter_contains(same, k);
    assert(with_name(v, lib.0).contains(lib));
    assert(with_name(r, lib.0) == with_name(v, lib.0));
    r.lemma_filter_contains_rev(same, lib);
    let at = choose|at: int| 0 <= at < r.len() && r[at] == lib;
    assert(single_flags(dir, names)[at + 1] == extern_flag(dir, lib));
}

proof fn lemma_libraries_from(names: Seq<Seq<char>>, k: int) -> (j: int)
    requires
        0 <= k < libraries(names).len(),
    ensures
        0 <= j < names.len(),
        has_extension(names[j], "rlib"@),
        crate_of(names[j]) is Some,
        libraries(names)[k] == (crate_of(names[j])->0, names[j]),
    decreases names.len(),
{
    let front = names.drop_last();
    if k < libraries(front).len() {
        lemma_libraries_from(front, k)
    } else {
        names.len() - 1
    }
}

/// Every flag behind that for the folder is the one of some library file.
pub proof fn every_flag_is_of_a_library_file(dir: Seq<char>, names: Seq<Seq<char>>, k: int)
    requires
        1 <= k < single_flags(dir, names).len(),
    ensures
        exists|j: int|
            0 <= j < names.len() && has_extension(#[trigger] names[j], "rlib"@) && crate_of(
                names[j],
            ) is Some && single_flags(dir, names)[k] == extern_flag(
                dir,
                (crate_of(names[j])->0, names[j]),
            ),
{
    let v = libraries(names);
    let r = sorted_by_name(v);
    let any = lemma_can_be_sorted(v);
    assert(is_stable_sorting(r, v));
    let lib = r[k - 1];
    let same = |p: (Seq<char>, Seq<char>)| p.0 == lib.0;
    r.lemma_filter_contains(same, k - 1);
    assert(with_name(r, lib.0).contains(lib));
    assert(with_name(r, lib.0) == with_name(v, lib.0));
    v.lemma_filter_contains_rev(same, lib);
    let at = choose|at: int| 0 <= at < v.len() && v[at] == lib;
    let j = lemma_libraries_from(names, at);
    assert(single_flags(dir, names)[k] == extern_flag(dir, lib));
    assert(has_extension(names[j], "rlib"@));
}

/// Sorting keeps the number of pairs, and brings them into the order of their first
/// texts.
pub proof fn sorting_keeps_the_number(v: Seq<(Seq<char>, Seq<char>)>)
    ensures
        sorted_by_name(v).len() == v.len(),
        forall|a: int, b: int|
            0 <= a <= b < sorted_by_name(v).len() ==> order::lex_le(
                (#[trigger] sorted_by_name(v)[a]).0,
                (#[trigger] sorted_by_name(v)[b]).0,
            ),
{
    let r = lemma_can_be_sorted(v);
    assert(is_stable_sorting(sorted_by_name(v), v));
    stable_sorting_is_unique(r, sorted_by_name(v), v);
}

proof fn lemma_with_name_is(
    v: Seq<(Seq<char>, Seq<char>)>,
    k: Seq<char>,
    same: spec_fn((Seq<char>, Seq<char>)) -> bool,
)
    requires
        forall|p: (Seq<char>, Seq<char>)| #[trigger] same(p) <==> p.0 == k,
    ensures
        with_name(v, k) == v.filter(same),
    decreases v.len(),
{
    reveal(Seq::filter);
    if v.len() > 0 {
        lemma_with_name_is(v.drop_last(), k, same);
        assert(same(v.last()) <==> v.last().0 == k);
    }
}

/// Sorting leaves the pairs with the same first text in the order in which they were.
pub proof fn sorting_keeps_the_order_of_equals(
    v: Seq<(Seq<char>, Seq<char>)>,
    k: Seq<char>,
    same: spec_fn((Seq<char>, Seq<char>)) -> bool,
)
    requires
        forall|p: (Seq<char>, Seq<char>)| #[trigger] same(p) <==> p.0 == k,
    ensures
        sorted_by_name(v).filter(same) == v.filter(same),
{
    let r = lemma_can_be_sorted(v);
    assert(is_stable_sorting(sorted_by_name(v), v));
    assert(with_name(sorted_by_name(v), k) == with_name(v, k));
    lemma_with_name_is(v, k, same);
    lemma_with_name_is(sorted_by_name(v), k, same);
}

} // verus!
