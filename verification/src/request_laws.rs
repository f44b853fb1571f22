//! What holds of requests: what is asked of `cargo`, the key, and the line that is
//! printed.

use crate::compose;
use crate::list;
use crate::registry::EntryView;
use crate::request;
use crate::request::RequestView;
use crate::search;
use crate::text;
use crate::text_laws;
use vstd::prelude::*;

verus! {

// ---- the command line

/// A command line with a library alone asks for that library, without features and
/// not from a repository.
pub proof fn a_name_is_a_request(program: Seq<char>, name: Seq<char>)
    ensures
        ({
            let r = request::request_of(seq![program, name]);
            &&& r.lib_name == name
            &&& r.features == Seq::<Seq<char>>::empty()
            &&& r.git is None && r.branch is None && r.tag is None && r.rev is None
        }),
{
    assert(seq![program, name].skip(2) =~= Seq::<Seq<char>>::empty());
}

proof fn lemma_first_letters(v: Seq<char>)
    ensures
        ("features="@ + v)[0] == 'f',
        ("git="@ + v)[0] == 'g',
        ("branch="@ + v)[0] == 'b',
        ("tag="@ + v)[0] == 't',
        ("rev="@ + v)[0] == 'r',
        forall|s: Seq<char>| #[trigger] text::has_prefix(s, "features="@) ==> s[0] == 'f',
        forall|s: Seq<char>| #[trigger] text::has_prefix(s, "git="@) ==> s[0] == 'g',
        forall|s: Seq<char>| #[trigger] text::has_prefix(s, "branch="@) ==> s[0] == 'b',
        forall|s: Seq<char>| #[trigger] text::has_prefix(s, "tag="@) ==> s[0] == 't',
        forall|s: Seq<char>| #[trigger] text::has_prefix(s, "rev="@) ==> s[0] == 'r',
{
    reveal_strlit("features=");
    reveal_strlit("git=");
    reveal_strlit("branch=");
    reveal_strlit("tag=");
    reveal_strlit("rev=");
    assert forall|s: Seq<char>| #[trigger] text::has_prefix(s, "features="@) implies s[0] == 'f' by {
        assert(s[0] == s.take(9)[0]);
    }
    assert forall|s: Seq<char>| #[trigger] text::has_prefix(s, "git="@) implies s[0] == 'g' by {
        assert(s[0] == s.take(4)[0]);
    }
    assert forall|s: Seq<char>| #[trigger] text::has_prefix(s, "branch="@) implies s[0] == 'b' by {
        assert(s[0] == s.take(7)[0]);
    }
    assert forall|s: Seq<char>| #[trigger] text::has_prefix(s, "tag="@) implies s[0] == 't' by {
        assert(s[0] == s.take(4)[0]);
    }
    assert forall|s: Seq<char>| #[trigger] text::has_prefix(s, "rev="@) implies s[0] == 'r' by {
        assert(s[0] == s.take(4)[0]);
    }
}

/// One more argument changes the one thing that it is about, whatever stood there
/// before, and nothing else; an argument that is no option changes nothing.
pub proof fn an_option_sets_what_it_is_about(
    args: Seq<Seq<char>>,
    v: Seq<char>,
    other: Seq<char>,
)
    requires
        args.len() >= 2,
        !text::has_prefix(other, "features="@),
        !text::has_prefix(other, "git="@),
        !text::has_prefix(other, "branch="@),
        !text::has_prefix(other, "tag="@),
        !text::has_prefix(other, "rev="@),
    ensures
        request::request_of(args.push("features="@ + v)) == (RequestView {
            features: request::features_in(v),
            ..request::request_of(args)
        }),
        request::request_of(args.push("git="@ + v)) == (RequestView {
            git: Some(v),
            ..request::request_of(args)
        }),
        request::request_of(args.push("branch="@ + v)) == (RequestView {
            branch: Some(v),
            ..request::request_of(args)
        }),
        request::request_of(args.push("tag="@ + v)) == (RequestView {
            tag: Some(v),
            ..request::request_of(args)
        }),
        request::request_of(args.push("rev="@ + v)) == (RequestView {
            rev: Some(v),
            ..request::request_of(args)
        }),
        request::request_of(args.push(other)) == request::request_of(args),
{
    lemma_first_letters(v);
    let names = seq!["features="@, "git="@, "branch="@, "tag="@, "rev="@];
    assert forall|i: int| 0 <= i < 5 implies text::has_prefix(#[trigger] names[i] + v, names[i])
        && text::after_prefix(names[i] + v, names[i]) == v by {
        text_laws::prefix_and_rest(v, names[i], v);
    }
    assert(names[0] == "features="@ && names[1] == "git="@ && names[2] == "branch="@);
    assert(names[3] == "tag="@ && names[4] == "rev="@);
    lemma_one_more(args, "features="@ + v);
    lemma_one_more(args, "git="@ + v);
    lemma_one_more(args, "branch="@ + v);
    lemma_one_more(args, "tag="@ + v);
    lemma_one_more(args, "rev="@ + v);
    lemma_one_more(args, other);
}

proof fn lemma_one_more(args: Seq<Seq<char>>, x: Seq<char>)
    requires
        args.len() >= 2,
    ensures
        args.push(x)[1] == args[1],
        forall|p: Seq<char>| #[trigger]
            request::option_in(args.push(x).skip(2), p) == if text::has_prefix(x, p) {
                Some(text::after_prefix(x, p))
            } else {
                request::option_in(args.skip(2), p)
            },
{
    assert(args.push(x).skip(2) =~= args.skip(2).push(x));
    assert(args.skip(2).push(x).drop_last() =~= args.skip(2));
}

proof fn lemma_nonempty_add(a: Seq<Seq<char>>, b: Seq<Seq<char>>)
    ensures
        request::nonempty(a + b) == request::nonempty(a) + request::nonempty(b),
    decreases b.len(),
{
    reveal(Seq::filter);
    if b.len() == 0 {
        assert(a + b =~= a);
        assert(request::nonempty(a) + request::nonempty(b) =~= request::nonempty(a));
    } else {
        lemma_nonempty_add(a, b.drop_last());
        assert((a + b).drop_last() =~= a + b.drop_last());
        assert(request::nonempty(a + b) =~= request::nonempty(a) + request::nonempty(b));
    }
}

/// Features are given with commas between them, each with white space around it or
/// not; one that is nothing but white space is none.
pub proof fn commas_part_features(a: Seq<char>, b: Seq<char>)
    requires
        !a.contains(','),
    ensures
        request::features_in(a + seq![','] + b) == request::features_in(a) + request::features_in(b),
        text::trimmed(a).len() == 0 ==> request::features_in(a) == Seq::<Seq<char>>::empty(),
        text::trimmed(a).len() > 0 ==> request::features_in(a) == seq![text::trimmed(a)],
{
    let s = a + seq![','] + b;
    let i = a.len() as int;
    assert forall|j: int| 0 <= j < i implies s[j] != ',' by {
        assert(a.contains(a[j]));
    }
    text::lemma_find_char_is(s, ',', i);
    assert(s.take(i) =~= a);
    assert(s.skip(i + 1) =~= b);
    text::lemma_find_char(a, ',');
    if text::find_char(a, ',') < a.len() {
        assert(a.contains(a[text::find_char(a, ',')]));
    }
    assert(text::pieces(a, ',') == seq![a]);
    let first = list::all_trimmed(seq![a]);
    let rest = list::all_trimmed(text::pieces(b, ','));
    assert(list::all_trimmed(seq![a] + text::pieces(b, ',')) =~= first + rest);
    lemma_nonempty_add(first, rest);
    reveal(Seq::filter);
    assert(first.drop_last() =~= Seq::<Seq<char>>::empty());
    assert(first.last() == text::trimmed(a));
    assert(request::nonempty(first.drop_last()) =~= Seq::<Seq<char>>::empty());
    if text::trimmed(a).len() > 0 {
        assert(request::nonempty(first) =~= seq![text::trimmed(a)]);
    }
}

// ---- cargo add

/// What `cargo add` is given: from a repository its address, and of branch, tag and
/// revision the first that is given; then the library; then all the features, with
/// commas between them, if there are any.
pub proof fn cargo_is_told_everything(r: RequestView)
    ensures
        ({
            let v = request::add_args(r);
            let tail = if r.features.len() > 0 {
                seq![r.lib_name, "--features"@, compose::joined(r.features, ","@)]
            } else {
                seq![r.lib_name]
            };
            match r.git {
                None => v == seq!["add"@] + tail,
                Some(url) => match r.branch {
                    Some(b) => v == seq!["add"@, "--git"@, url, "--branch"@, b] + tail,
                    None => match r.tag {
                        Some(t) => v == seq!["add"@, "--git"@, url, "--tag"@, t] + tail,
                        None => match r.rev {
                            Some(x) => v == seq!["add"@, "--git"@, url, "--rev"@, x] + tail,
                            None => v == seq!["add"@, "--git"@, url] + tail,
                        },
                    },
                },
            }
        }),
{
    let v = request::add_args(r);
    let tail = if r.features.len() > 0 {
        seq![r.lib_name, "--features"@, compose::joined(r.features, ","@)]
    } else {
        seq![r.lib_name]
    };
    match r.git {
        None => assert(v =~= seq!["add"@] + tail),
        Some(url) => match r.branch {
            Some(b) => assert(v =~= seq!["add"@, "--git"@, url, "--branch"@, b] + tail),
            None => match r.tag {
                Some(t) => assert(v =~= seq!["add"@, "--git"@, url, "--tag"@, t] + tail),
                None => match r.rev {
                    Some(x) => assert(v =~= seq!["add"@, "--git"@, url, "--rev"@, x] + tail),
                    None => assert(v =~= seq!["add"@, "--git"@, url] + tail),
                },
            },
        },
    }
}

// ---- the key

/// The key of a library begins with its name and its version, with underscores for
/// hyphens and dots, and every feature follows behind an underscore.
pub proof fn a_key_holds_every_feature(
    name: Seq<char>,
    version: Seq<char>,
    features: Seq<Seq<char>>,
    f: Seq<char>,
)
    requires
        f.len() > 0,
        forall|i: int| 0 <= i < features.len() ==> (#[trigger] features[i]).len() > 0,
    ensures
        request::key_of(name, version, Seq::<Seq<char>>::empty()) == search::replaced(name, '-', '_')
            + "_"@ + search::replaced(version, '.', '_'),
        request::key_of(name, version, features.push(f)) == request::key_of(name, version, features)
            + "_"@ + f,
{
    let head = search::replaced(name, '-', '_') + "_"@ + search::replaced(version, '.', '_');
    let more = features.push(f);
    assert(more.drop_last() =~= features);
    if features.len() == 0 {
        assert(features =~= Seq::<Seq<char>>::empty());
    } else {
        assert(features[features.len() - 1].len() > 0);
        lemma_joined_at_least_last(features, "_"@);
        assert(request::key_of(name, version, more) =~= request::key_of(name, version, features)
            + "_"@ + f);
    }
}

proof fn lemma_joined_at_least_last(parts: Seq<Seq<char>>, sep: Seq<char>)
    requires
        parts.len() > 0,
    ensures
        compose::joined(parts, sep).len() >= parts[parts.len() - 1].len(),
{
}

// ---- print for cargo

/// The features of an entry as they are printed: each in quotes, with `, ` between
/// any two.
spec fn quoted_list(features: Seq<Seq<char>>) -> Seq<char>
    decreases features.len(),
{
    if features.len() == 0 {
        seq![]
    } else if features.len() == 1 {
        "\""@ + features[0] + "\""@
    } else {
        quoted_list(features.drop_last()) + ", "@ + ("\""@ + features.last() + "\""@)
    }
}

proof fn lemma_quoted_list(features: Seq<Seq<char>>)
    ensures
        compose::joined(features.map_values(|f: Seq<char>| request::quoted(f)), ", "@)
            == quoted_list(features),
    decreases features.len(),
{
    let q = features.map_values(|f: Seq<char>| request::quoted(f));
    if features.len() > 1 {
        lemma_quoted_list(features.drop_last());
        assert(q.drop_last() =~= features.drop_last().map_values(
            |f: Seq<char>| request::quoted(f),
        ));
    }
}

/// The line that is printed for an entry without features is `name = "version"`.
pub proof fn a_line_without_features(e: EntryView)
    requires
        e.features.len() == 0,
    ensures
        request::dependency(e) == e.name + " = \""@ + e.version + "\""@,
{
}

/// Between `features = [` and `] }` the line that is printed for an entry with
/// features holds the first feature in quotes, and every further one in quotes
/// behind a comma and a space.
pub proof fn a_line_with_features(e: EntryView, first: Seq<char>, more: Seq<Seq<char>>, f: Seq<char>)
    ensures
        request::dependency(EntryView { features: seq![first], ..e }) == e.name
            + " = { version = \""@ + e.version + "\", features = ["@ + "\""@ + first + "\""@ + "] }"@,
        ({
            let shorter = request::dependency(EntryView { features: seq![first] + more, ..e });
            let longer = request::dependency(EntryView { features: (seq![first] + more).push(f), ..e });
            longer == text::before_suffix(shorter, "] }"@) + ", \""@ + f + "\"] }"@
                && text::has_suffix(shorter, "] }"@)
        }),
{
    let end = "] }"@;
    let head = e.name + " = { version = \""@ + e.version + "\", features = ["@;
    let one = seq![first];
    let all = one + more;
    let longer = all.push(f);
    lemma_quoted_list(one);
    lemma_quoted_list(all);
    lemma_quoted_list(longer);
    assert(longer.drop_last() =~= all);
    reveal_strlit(", \"");
    reveal_strlit(", ");
    reveal_strlit("\"");
    reveal_strlit("\"] }");
    reveal_strlit("] }");
    let short_line = request::dependency(EntryView { features: all, ..e });
    assert(short_line =~= head + quoted_list(all) + end);
    text_laws::suffix_and_rest(short_line, end, head + quoted_list(all));
    let long_line = request::dependency(EntryView { features: longer, ..e });
    assert(long_line =~= head + quoted_list(longer) + end);
    assert(", \""@ =~= ", "@ + "\""@);
    assert("\"] }"@ =~= "\""@ + end);
    assert(long_line =~= (head + quoted_list(all)) + ", \""@ + f + "\"] }"@);
    assert(request::dependency(EntryView { features: one, ..e }) =~= head + "\""@ + first + "\""@
        + end);
}

/// Only an entry without features is printed as `name = "version"`.
pub proof fn only_without_features_the_short_line(e: EntryView)
    ensures
        request::dependency(e) == e.name + " = \""@ + e.version + "\""@ <==> e.features.len() == 0,
{
    if e.features.len() > 0 {
        reveal_strlit(" = \"");
        reveal_strlit(" = { version = \"");
        let n = e.name.len() as int;
        let long = request::dependency(e);
        let short = e.name + " = \""@ + e.version + "\""@;
        assert(short[n + 3] == " = \""@[3]);
        assert(long[n + 3] == " = { version = \""@[3]);
    }
}

} // verus!
