//! Where the keys of libraries lead, part by part.

use crate::folder;
use crate::text;
use vstd::prelude::*;

verus! {

/// A path is at the depth to which its parts lead one after the other: an empty part
/// and `.` lead nowhere, `..` leads one folder up, and any other part one down. What
/// has led up out of the first folder has no depth.
pub proof fn a_part_leads_up_or_down(parts: Seq<Seq<char>>, part: Seq<char>)
    ensures
        folder::depth(Seq::<Seq<char>>::empty()) == Some(0nat),
        folder::depth(parts) is None ==> folder::depth(parts.push(part)) is None,
        folder::depth(parts) is Some ==> {
            let d = folder::depth(parts)->0;
            let after = folder::depth(parts.push(part));
            &&& part.len() == 0 || part == seq!['.'] ==> after == Some(d)
            &&& part == seq!['.', '.'] && d == 0 ==> after is None
            &&& part == seq!['.', '.'] && d > 0 ==> after is Some && after->0 + 1 == d
            &&& part.len() > 0 && part != seq!['.'] && part != seq!['.', '.'] ==> after is Some
                && after->0 == d + 1
        },
{
    reveal_strlit(".");
    reveal_strlit("..");
    assert("."@ =~= seq!['.']);
    assert(".."@ =~= seq!['.', '.']);
    assert(parts.push(part).drop_last() =~= parts);
    assert(seq!['.'].len() == 1 && seq!['.', '.'].len() == 2);
}

/// A key names a folder below that of the libraries if and only if its first part is
/// not empty, it begins with no drive of Windows, and its parts lead down and never up
/// out of that folder. The parts stand between slashes, and on Windows between
/// backslashes too.
pub proof fn a_key_leads_below(key: Seq<char>, windows: bool)
    ensures
        ({
            let path = Seq::new(
                key.len(),
                |i: int|
                    if windows && key[i] == '\\' {
                        '/'
                    } else {
                        key[i]
                    },
            );
            let parts = text::pieces(path, '/');
            folder::stays_below(key, windows) <==> {
                &&& parts[0].len() > 0
                &&& !windows || key.len() < 2 || key[1] != ':'
                &&& folder::depth(parts) is Some
                &&& folder::depth(parts)->0 >= 1
            }
        }),
{
    let path = Seq::new(
        key.len(),
        |i: int|
            if windows && key[i] == '\\' {
                '/'
            } else {
                key[i]
            },
    );
    assert(folder::slashed(key, windows) =~= path);
}

} // verus!
