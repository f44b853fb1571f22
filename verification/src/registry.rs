//! The record of the libraries that have been compiled, by key.

use crate::order;
use crate::text;
use vstd::prelude::*;

verus! {

/// What is known of one compiled library.
#[derive(Debug)]
pub struct LibEntry {
    /// The compiler flags that make the library available.
    pub flags: String,
    /// The name of the library.
    pub name: String,
    /// The version that was compiled.
    pub version: String,
    /// The features that it was compiled with.
    pub features: Vec<String>,
}

/// The texts of a `LibEntry`.
pub struct EntryView {
    pub flags: Seq<char>,
    pub name: Seq<char>,
    pub version: Seq<char>,
    pub features: Seq<Seq<char>>,
}

impl View for LibEntry {
    type V = EntryView;

    open spec fn view(&self) -> EntryView {
        EntryView {
            flags: self.flags@,
            name: self.name@,
            version: self.version@,
            features: text::texts(self.features@),
        }
    }
}

impl LibEntry {
    /// A copy of the entry.
    pub fn copy(&self) -> (r: LibEntry)
        ensures
            r@ == self@,
    {
        LibEntry {
            flags: self.flags.clone(),
            name: self.name.clone(),
            version: self.version.clone(),
            features: text::copy_strings(&self.features),
        }
    }
}

/// The compiled libraries: at most one entry for a key.
#[derive(Debug)]
pub struct Registry {
    items: Vec<(String, LibEntry)>,
}

/// The map from keys to entries that a list of pairs stands for.
spec fn map_of(items: Seq<(String, LibEntry)>) -> Map<Seq<char>, EntryView>
    decreases items.len(),
{
    if items.len() == 0 {
        Map::empty()
    } else {
        map_of(items.drop_last()).insert(items.last().0@, items.last().1@)
    }
}

spec fn distinct(items: Seq<(String, LibEntry)>) -> bool {
    forall|i: int, j: int|
        0 <= i < j < items.len() ==> (#[trigger] items[i]).0@ != (#[trigger] items[j]).0@
}

/// Whether `s` lists the keys of `m` alphabetically, each once.
pub open spec fn lists_keys(s: Seq<Seq<char>>, m: Map<Seq<char>, EntryView>) -> bool {
    &&& order::is_sorted(s)
    &&& s.no_duplicates()
    &&& forall|k: Seq<char>| #[trigger] s.contains(k) <==> m.contains_key(k)
}

/// The keys of `m` in alphabetical order.
pub open spec fn sorted_keys(m: Map<Seq<char>, EntryView>) -> Seq<Seq<char>> {
    choose|s: Seq<Seq<char>>| lists_keys(s, m)
}

proof fn lemma_map_of(items: Seq<(String, LibEntry)>)
    requires
        distinct(items),
    ensures
        forall|i: int|
            0 <= i < items.len() ==> map_of(items).contains_key((#[trigger] items[i]).0@) && map_of(
                items,
            )[items[i].0@] == items[i].1@,
        forall|k: Seq<char>| #[trigger]
            map_of(items).contains_key(k) ==> exists|i: int|
                0 <= i < items.len() && (#[trigger] items[i]).0@ == k,
        map_of(items).dom().finite(),
    decreases items.len(),
{
    if items.len() > 0 {
        let front = items.drop_last();
        lemma_map_of(front);
        assert forall|i: int| 0 <= i < items.len() implies map_of(items).contains_key(
            (#[trigger] items[i]).0@,
        ) && map_of(items)[items[i].0@] == items[i].1@ by {
            if i < front.len() {
                assert(front[i] == items[i]);
                assert(items[i].0@ != items[items.len() - 1].0@);
            }
        }
        assert forall|k: Seq<char>| #[trigger] map_of(items).contains_key(k) implies exists|i: int|
            0 <= i < items.len() && (#[trigger] items[i]).0@ == k by {
            if k == items.last().0@ {
                assert(items[items.len() - 1].0@ == k);
            } else {
                assert(map_of(front).contains_key(k));
                let i = choose|i: int| 0 <= i < front.len() && (#[trigger] front[i]).0@ == k;
                assert(items[i].0@ == k);
            }
        }
    }
}

/// Two alphabetical lists of the same texts, each once, are equal.
pub proof fn lemma_sorted_unique(a: Seq<Seq<char>>, b: Seq<Seq<char>>)
    requires
        order::is_sorted(a),
        order::is_sorted(b),
        a.no_duplicates(),
        b.no_duplicates(),
        forall|k: Seq<char>| #[trigger] a.contains(k) <==> b.contains(k),
    ensures
        a == b,
    decreases a.len(),
{
    if a.len() == 0 {
        if b.len() > 0 {
            assert(b.contains(b[0]));
            assert(a.contains(b[0]));
        }
        assert(a =~= b);
    } else if b.len() == 0 {
        assert(a.contains(a[0]));
    } else {
        let x = a.last();
        let y = b.last();
        assert(a.contains(x));
        assert(b.contains(y));
        assert(a.contains(y));
        let i = choose|i: int| 0 <= i < b.len() && b[i] == x;
        let j = choose|j: int| 0 <= j < a.len() && a[j] == y;
        assert(order::lex_le(b[i], b[b.len() - 1]));
        assert(order::lex_le(a[j], a[a.len() - 1]));
        order::lex_antisymmetric(x, y);
        let c = a.drop_last();
        let d = b.drop_last();
        assert forall|k: Seq<char>| #[trigger] c.contains(k) <==> d.contains(k) by {
            if c.contains(k) {
                let m = choose|m: int| 0 <= m < c.len() && c[m] == k;
                assert(a[m] == k);
                assert(a.contains(k));
                assert(b.contains(k));
                let n = choose|n: int| 0 <= n < b.len() && b[n] == k;
                assert(a[m] != a[a.len() - 1]);
                assert(n < b.len() - 1);
                assert(d[n] == k);
            }
            if d.contains(k) {
                let m = choose|m: int| 0 <= m < d.len() && d[m] == k;
                assert(b[m] == k);
                assert(b.contains(k));
                assert(a.contains(k));
                let n = choose|n: int| 0 <= n < a.len() && a[n] == k;
                assert(b[m] != b[b.len() - 1]);
                assert(n < a.len() - 1);
                assert(c[n] == k);
            }
        }
        lemma_sorted_unique(c, d);
        assert(a == c.push(x));
        assert(b == d.push(y));
    }
}

proof fn lemma_sorted_insert(s: Seq<Seq<char>>, k: Seq<char>) -> (r: Seq<Seq<char>>)
    requires
        order::is_sorted(s),
        s.no_duplicates(),
        !s.contains(k),
    ensures
        order::is_sorted(r),
        r.no_duplicates(),
        forall|x: Seq<char>| #[trigger] r.contains(x) <==> s.contains(x) || x == k,
    decreases s.len(),
{
    if s.len() == 0 {
        let r = seq![k];
        assert(r[0] == k);
        order::lex_total(k, k);
        r
    } else {
        let last = s.last();
        let front = s.drop_last();
        order::lex_total(last, k);
        let before = if order::lex_le(last, k) {
            s
        } else {
            assert forall|x: Seq<char>| front.contains(x) implies s.contains(x) by {
                let i = choose|i: int| 0 <= i < front.len() && front[i] == x;
                assert(s[i] == x);
            }
            lemma_sorted_insert(front, k)
        };
        let end = if order::lex_le(last, k) {
            k
        } else {
            last
        };
        let r = before.push(end);
        assert forall|x: Seq<char>| #[trigger] r.contains(x) <==> s.contains(x) || x == k by {
            if r.contains(x) {
                let i = choose|i: int| 0 <= i < r.len() && r[i] == x;
                if i < before.len() {
                    assert(before.contains(x));
                }
                if front.contains(x) {
                    let j = choose|j: int| 0 <= j < front.len() && front[j] == x;
                    assert(s[j] == x);
                }
                assert(s.contains(last));
            }
            if s.contains(x) || x == k {
                if s.contains(x) {
                    let i = choose|i: int| 0 <= i < s.len() && s[i] == x;
                    if i < front.len() {
                        assert(front[i] == x);
                        assert(front.contains(x));
                    }
                }
                if before.contains(x) {
                    let i = choose|i: int| 0 <= i < before.len() && before[i] == x;
                    assert(r[i] == x);
                }
                assert(r[r.len() - 1] == end);
            }
        }
        assert forall|i: int| 0 <= i < before.len() implies order::lex_le(
            #[trigger] before[i],
            end,
        ) && before[i] != end by {
            assert(before.contains(before[i]));
            if order::lex_le(last, k) {
                assert(order::lex_le(s[i], s[s.len() - 1]));
                order::lex_transitive(s[i], last, k);
            } else if before[i] != k {
                assert(front.contains(before[i]));
                let j = choose|j: int| 0 <= j < front.len() && front[j] == before[i];
                assert(s[j] == before[i] && s[s.len() - 1] == last);
            } else {
                assert(s.contains(last));
            }
        }
        order::lex_total(end, end);
        r
    }
}

proof fn lemma_sorted_keys_of(d: Set<Seq<char>>) -> (r: Seq<Seq<char>>)
    requires
        d.finite(),
    ensures
        order::is_sorted(r),
        r.no_duplicates(),
        forall|k: Seq<char>| #[trigger] r.contains(k) <==> d.contains(k),
    decreases d.len(),
{
    if d.len() == 0 {
        Seq::empty()
    } else {
        let k = d.choose();
        let s = lemma_sorted_keys_of(d.remove(k));
        lemma_sorted_insert(s, k)
    }
}

/// The sorted keys of a finite map list its keys, each once.
pub proof fn lemma_sorted_keys(m: Map<Seq<char>, EntryView>)
    requires
        m.dom().finite(),
    ensures
        lists_keys(sorted_keys(m), m),
{
    let s = lemma_sorted_keys_of(m.dom());
    assert(lists_keys(s, m));
}

impl View for Registry {
    type V = Map<Seq<char>, EntryView>;

    closed spec fn view(&self) -> Map<Seq<char>, EntryView> {
        map_of(self.items@)
    }
}

impl Registry {
    #[verifier::type_invariant]
    spec fn wf(self) -> bool {
        distinct(self.items@)
    }

    /// A registry without entries.
    pub fn new() -> (r: Registry)
        ensures
            r@ == Map::<Seq<char>, EntryView>::empty(),
    {
        Registry { items: Vec::new() }
    }

    fn index_of(&self, key: &str) -> (r: usize)
        ensures
            r <= self.items@.len(),
            r < self.items@.len() ==> self.items@[r as int].0@ == key@,
            forall|i: int| 0 <= i < r ==> (#[trigger] self.items@[i]).0@ != key@,
    {
        let mut i: usize = 0;
        while i < self.items.len()
            invariant
                i <= self.items@.len(),
                forall|j: int| 0 <= j < i ==> (#[trigger] self.items@[j]).0@ != key@,
            decreases self.items@.len() - i,
        {
            if text::same_str(self.items[i].0.as_str(), key) {
                return i;
            }
            i += 1;
        }
        i
    }

    /// The entry for a key, if there is one.
    pub fn get(&self, key: &str) -> (r: Option<&LibEntry>)
        ensures
            r is Some <==> self@.contains_key(key@),
            r matches Some(e) ==> e@ == self@[key@],
    {
        proof {
            use_type_invariant(self);
            lemma_map_of(self.items@);
        }
        let i: usize = self.index_of(key);
        if i < self.items.len() {
            Some(&self.items[i].1)
        } else {
            None
        }
    }

    /// The registry with `entry` as the entry for `key`.
    pub fn insert(self, key: String, entry: LibEntry) -> (r: Registry)
        ensures
            r@ == self@.insert(key@, entry@),
    {
        proof {
            use_type_invariant(&self);
        }
        let i: usize = self.index_of(key.as_str());
        let mut items = self.items;
        let ghost before = items@;
        if i < items.len() {
            let ghost k = items@[i as int].0@;
            items.set(i, (key, entry));
            proof {
                assert(distinct(items@)) by {
                    assert forall|a: int, b: int| 0 <= a < b < items@.len() implies (
                    #[trigger] items@[a]).0@ != (#[trigger] items@[b]).0@ by {
                        assert(before[a].0@ != before[b].0@);
                    }
                }
                lemma_map_of(before);
                lemma_map_of(items@);
                assert(map_of(items@) =~= map_of(before).insert(key@, entry@)) by {
                    assert forall|x: Seq<char>| #[trigger]
                        map_of(items@).contains_key(x) <==> map_of(before).insert(
                            key@,
                            entry@,
                        ).contains_key(x) by {
                        if map_of(items@).contains_key(x) {
                            let a = choose|a: int|
                                0 <= a < items@.len() && (#[trigger] items@[a]).0@ == x;
                            assert(before[a].0@ == x);
                        }
                        if map_of(before).contains_key(x) {
                            let a = choose|a: int|
                                0 <= a < before.len() && (#[trigger] before[a]).0@ == x;
                            assert(items@[a].0@ == x);
                        }
                        assert(items@[i as int].0@ == key@);
                    }
                    assert forall|x: Seq<char>| #[trigger] map_of(items@).contains_key(x) implies
                        map_of(items@)[x] == map_of(before).insert(key@, entry@)[x] by {
                        let a = choose|a: int|
                            0 <= a < items@.len() && (#[trigger] items@[a]).0@ == x;
                        if a != i {
                            assert(before[a] == items@[a]);
                            assert(before[a].0@ != before[i as int].0@);
                        }
                    }
                }
            }
        } else {
            items.push((key, entry));
            proof {
                assert(items@.drop_last() == before);
                assert forall|a: int, b: int| 0 <= a < b < items@.len() implies (
                #[trigger] items@[a]).0@ != (#[trigger] items@[b]).0@ by {
                    if b < before.len() {
                        assert(before[a].0@ != before[b].0@);
                    }
                }
            }
        }
        Registry { items }
    }

    /// The registry without an entry for `key`, and whether there was one.
    pub fn remove(self, key: &str) -> (r: (Registry, bool))
        ensures
            r.0@ == self@.remove(key@),
            r.1 == self@.contains_key(key@),
    {
        proof {
            use_type_invariant(&self);
            lemma_map_of(self.items@);
        }
        let i: usize = self.index_of(key);
        let mut items = self.items;
        let ghost before = items@;
        if i < items.len() {
            items.remove(i);
            proof {
                let after = items@;
                assert forall|a: int, b: int| 0 <= a < b < after.len() implies (
                #[trigger] after[a]).0@ != (#[trigger] after[b]).0@ by {
                    let a0 = if a < i { a } else { a + 1 };
                    let b0 = if b < i { b } else { b + 1 };
                    assert(after[a] == before[a0] && after[b] == before[b0]);
                }
                lemma_map_of(after);
                assert forall|x: Seq<char>| #[trigger]
                    map_of(after).contains_key(x) <==> map_of(before).remove(key@).contains_key(
                        x,
                    ) by {
                    if map_of(after).contains_key(x) {
                        let a = choose|a: int|
                            0 <= a < after.len() && (#[trigger] after[a]).0@ == x;
                        let a0 = if a < i { a } else { a + 1 };
                        assert(before[a0] == after[a]);
                        assert(before[a0].0@ != before[i as int].0@);
                    }
                    if map_of(before).remove(key@).contains_key(x) {
                        assert(map_of(before).contains_key(x));
                        let a = choose|a: int|
                            0 <= a < before.len() && (#[trigger] before[a]).0@ == x;
                        let a1 = if a < i { a } else { a - 1 };
                        assert(after[a1] == before[a]);
                    }
                }
                assert forall|x: Seq<char>| #[trigger] map_of(after).contains_key(x) implies map_of(
                    after,
                )[x] == map_of(before)[x] by {
                    let a = choose|a: int| 0 <= a < after.len() && (#[trigger] after[a]).0@ == x;
                    let a0 = if a < i { a } else { a + 1 };
                    assert(before[a0] == after[a]);
                }
                assert(map_of(after) =~= map_of(before).remove(key@));
            }
            (Registry { items }, true)
        } else {
            assert(map_of(before).remove(key@) =~= map_of(before));
            (Registry { items }, false)
        }
    }

    /// The keys in alphabetical order.
    pub fn keys(&self) -> (r: Vec<String>)
        ensures
            text::texts(r@) == sorted_keys(self@),
            lists_keys(text::texts(r@), self@),
            self@.dom().finite(),
    {
        proof {
            use_type_invariant(self);
            lemma_map_of(self.items@);
        }
        let mut ks: Vec<String> = Vec::new();
        let mut i: usize = 0;
        while i < self.items.len()
            invariant
                i <= self.items@.len(),
                ks@.len() == i,
                forall|j: int| 0 <= j < i ==> (#[trigger] ks@[j])@ == self.items@[j].0@,
            decreases self.items@.len() - i,
        {
            ks.push(self.items[i].0.clone());
            i += 1;
        }
        let ghost all = text::texts(ks@);
        let r = order::sort(ks);
        proof {
            let s = text::texts(r@);
            assert forall|k: Seq<char>| #[trigger] s.contains(k) <==> self@.contains_key(k) by {
                broadcast use vstd::seq_lib::group_to_multiset_ensures;

                assert(s.contains(k) <==> s.to_multiset().count(k) > 0);
                assert(all.contains(k) <==> all.to_multiset().count(k) > 0);
                if all.contains(k) {
                    let j = choose|j: int| 0 <= j < all.len() && all[j] == k;
                    assert(self.items@[j].0@ == k);
                }
                if self@.contains_key(k) {
                    let j = choose|j: int|
                        0 <= j < self.items@.len() && (#[trigger] self.items@[j]).0@ == k;
                    assert(all[j] == k);
                }
            }
            assert(all.no_duplicates()) by {
                assert forall|a: int, b: int| 0 <= a < all.len() && 0 <= b < all.len() && a
                    != b implies all[a] != all[b] by {
                    assert(all[a] == self.items@[a].0@);
                    assert(all[b] == self.items@[b].0@);
                    if a < b {
                        assert(self.items@[a].0@ != self.items@[b].0@);
                    } else {
                        assert(self.items@[b].0@ != self.items@[a].0@);
                    }
                }
            }
            all.lemma_multiset_has_no_duplicates();
            s.lemma_multiset_has_no_duplicates_conv();
            assert(lists_keys(s, self@));
            let c = sorted_keys(self@);
            assert(lists_keys(c, self@));
            lemma_sorted_unique(s, c);
        }
        r
    }

    /// Whether there is no entry.
    pub fn is_empty(&self) -> (r: bool)
        ensures
            r == (self@ == Map::<Seq<char>, EntryView>::empty()),
    {
        proof {
            use_type_invariant(self);
            lemma_map_of(self.items@);
        }
        if self.items.len() == 0 {
            true
        } else {
            assert(self@.contains_key(self.items@[0].0@));
            false
        }
    }

    /// A copy of the registry.
    pub fn copy(&self) -> (r: Registry)
        ensures
            r@ == self@,
    {
        proof {
            use_type_invariant(self);
        }
        let mut items: Vec<(String, LibEntry)> = Vec::new();
        let mut i: usize = 0;
        while i < self.items.len()
            invariant
                i <= self.items@.len(),
                distinct(self.items@),
                items@.len() == i,
                forall|j: int|
                    0 <= j < i ==> (#[trigger] items@[j]).0@ == self.items@[j].0@ && items@[j].1@
                        == self.items@[j].1@,
                map_of(items@) == map_of(self.items@.take(i as int)),
            decreases self.items@.len() - i,
        {
            let ghost before = items@;
            items.push((self.items[i].0.clone(), self.items[i].1.copy()));
            proof {
                assert(items@.drop_last() == before);
                assert(self.items@.take(i + 1).drop_last() == self.items@.take(i as int));
            }
            i += 1;
        }
        proof {
            assert(self.items@.take(self.items@.len() as int) == self.items@);
            assert forall|a: int, b: int| 0 <= a < b < items@.len() implies (
            #[trigger] items@[a]).0@ != (#[trigger] items@[b]).0@ by {
                assert(self.items@[a].0@ != self.items@[b].0@);
            }
        }
        Registry { items }
    }

    /// The keys with their entries, in no particular order.
    pub fn into_entries(self) -> (r: Vec<(String, LibEntry)>)
        ensures
            forall|i: int, j: int|
                0 <= i < j < r@.len() ==> (#[trigger] r@[i]).0@ != (#[trigger] r@[j]).0@,
            forall|i: int|
                0 <= i < r@.len() ==> self@.contains_key((#[trigger] r@[i]).0@)
                    && self@[r@[i].0@] == r@[i].1@,
            forall|k: Seq<char>| #[trigger]
                self@.contains_key(k) ==> exists|i: int|
                    0 <= i < r@.len() && (#[trigger] r@[i]).0@ == k,
    {
        proof {
            use_type_invariant(&self);
            lemma_map_of(self.items@);
        }
        self.items
    }
}

} // verus!
