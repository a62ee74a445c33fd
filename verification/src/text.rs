//! Names and dotted paths, as sequences of characters.

use vstd::prelude::*;
use vstd::string::*;

verus! {

/// The character that separates the segments of a path.
pub open spec fn separator() -> char {
    '.'
}

/// The reserved name of the group inside a common meta node.
pub open spec fn inner_name() -> Seq<char> {
    "[COMMON INNER]"@
}

/// The name of the root group.
pub open spec fn root_name() -> Seq<char> {
    "[THE MOTHER]"@
}

/// The length of the first segment of `path`: the number of characters in
/// front of the first separator, or the whole length where there is none.
pub open spec fn head_len(path: Seq<char>) -> nat
    decreases path.len(),
{
    if path.len() == 0 || path[0] == separator() {
        0
    } else {
        1 + head_len(path.drop_first())
    }
}

/// The first segment of `path`.
pub open spec fn head(path: Seq<char>) -> Seq<char> {
    path.take(head_len(path) as int)
}

/// Whether `path` is a single segment.
pub open spec fn is_last(path: Seq<char>) -> bool {
    head_len(path) == path.len()
}

/// What follows the first separator of `path`.
pub open spec fn rest(path: Seq<char>) -> Seq<char>
    recommends
        !is_last(path),
{
    path.skip(head_len(path) as int + 1)
}

/// A name is valid when it holds no separator and is not the reserved name.
pub open spec fn valid_name(name: Seq<char>) -> bool {
    !name.contains(separator()) && name != inner_name()
}

/// The first segment ends at the first separator and nowhere else.
pub proof fn lemma_head_len(path: Seq<char>, k: int)
    requires
        0 <= k <= path.len(),
        forall|j: int| 0 <= j < k ==> path[j] != separator(),
        k == path.len() || path[k] == separator(),
    ensures
        head_len(path) == k,
    decreases path.len(),
{
    if k > 0 {
        let tail = path.drop_first();
        assert forall|j: int| 0 <= j < k - 1 implies tail[j] != separator() by {
            assert(tail[j] == path[j + 1]);
        }
        lemma_head_len(tail, k - 1);
    }
}

/// The first segment is no longer than the path and holds no separator.
pub proof fn lemma_head_bounds(path: Seq<char>)
    ensures
        head_len(path) <= path.len(),
        forall|j: int| 0 <= j < head_len(path) ==> path[j] != separator(),
        head_len(path) < path.len() ==> path[head_len(path) as int] == separator(),
    decreases path.len(),
{
    if !(path.len() == 0 || path[0] == separator()) {
        let tail = path.drop_first();
        lemma_head_bounds(tail);
        assert forall|j: int| 0 <= j < head_len(path) implies path[j] != separator() by {
            if j > 0 {
                assert(path[j] == tail[j - 1]);
            }
        }
        assert(head_len(path) < path.len() ==> path[head_len(path) as int] == tail[head_len(
            tail,
        ) as int]);
    }
}

/// A path is a single segment exactly when it holds no separator.
pub proof fn lemma_last_iff_no_separator(path: Seq<char>)
    ensures
        is_last(path) <==> !path.contains(separator()),
{
    lemma_head_bounds(path);
    if is_last(path) {
        assert(!path.contains(separator()));
    } else {
        assert(path[head_len(path) as int] == separator());
    }
}

/// The length of the first segment of `path`.
pub fn head_length(path: &str) -> (k: usize)
    ensures
        k == head_len(path@),
        k <= path@.len(),
{
    let n = path.unicode_len();
    let mut i: usize = 0;
    while i < n
        invariant
            i <= n,
            n == path@.len(),
            forall|j: int| 0 <= j < i ==> path@[j] != separator(),
        decreases n - i,
    {
        if path.get_char(i) == '.' {
            proof {
                lemma_head_len(path@, i as int);
            }
            return i;
        }
        i += 1;
    }
    proof {
        lemma_head_len(path@, i as int);
    }
    i
}

/// Whether two strings hold the same characters.
pub fn same_text(a: &str, b: &str) -> (r: bool)
    ensures
        r == (a@ == b@),
{
    let n = a.unicode_len();
    if b.unicode_len() != n {
        return false;
    }
    let mut i: usize = 0;
    while i < n
        invariant
            i <= n,
            n == a@.len(),
            n == b@.len(),
            forall|j: int| 0 <= j < i ==> a@[j] == b@[j],
        decreases n - i,
    {
        if a.get_char(i) != b.get_char(i) {
            return false;
        }
        i += 1;
    }
    assert(a@ =~= b@);
    true
}

/// Whether `name` may be given to a new node.
pub fn verify_name(name: &str) -> (r: bool)
    ensures
        r == valid_name(name@),
{
    let k = head_length(name);
    proof {
        lemma_last_iff_no_separator(name@);
    }
    k == name.unicode_len() && !same_text(name, "[COMMON INNER]")
}

} // verus!
