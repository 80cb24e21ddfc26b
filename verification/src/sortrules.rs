//! Sorting rules: for each platform, the globs of the DAT files that belong
//! to it, looked for under the `unsorted` folder.

use vstd::prelude::*;
use crate::text::{chars_of, range_is, substr};

verus! {

/// Where the globs of the sorting rules are looked for.
pub open spec fn unsorted_root() -> Seq<char> {
    "unsorted/**/"@
}

/// The globs of a sorting rule, each rooted under the `unsorted` folder.
pub fn rooted_globs(globs: &Vec<String>) -> (res: Vec<String>)
    ensures
        res@.len() == globs@.len(),
        forall|i: int| 0 <= i < res@.len() ==> res@[i]@ == unsorted_root() + globs@[i]@,
{
    let mut res: Vec<String> = Vec::new();
    let mut i: usize = 0;
    while i < globs.len()
        invariant
            i <= globs@.len(),
            res@.len() == i,
            forall|j: int| 0 <= j < i ==> res@[j]@ == unsorted_root() + globs@[j]@,
        decreases globs@.len() - i,
    {
        let root = "unsorted/**/";
        let mut g = substr(root, 0, root.unicode_len());
        assert(root@.subrange(0, root@.len() as int) =~= root@);
        g.append(globs[i].as_str());
        res.push(g);
        i = i + 1;
    }
    res
}

/// Whether a file name is that of a DAT file: it ends with `.dat`.
pub fn is_dat_file_name(name: &str) -> (res: bool)
    ensures
        res == (name@.len() >= 4 && name@.subrange(name@.len() - 4, name@.len() as int) == ".dat"@),
{
    let cs = chars_of(name);
    let n = cs.len();
    proof {
        reveal_strlit(".dat");
    }
    if n < 4 {
        return false;
    }
    range_is(&cs, n - 4, n, ".dat")
}

} // verus!
