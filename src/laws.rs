use vstd::prelude::*;

use crate::commands::{
    lemma_first_blocked, next_down, next_up, paste_clear, paste_stop, resolve_all,
    toggled, yanked_after,
};
use crate::path::filename_of;

verus! {

/// Moving down and then up, or up and then down, from a valid cursor of a
/// non-empty listing comes back to it; in an empty listing moving down leaves
/// the cursor at 0 and moving up changes nothing.
pub proof fn lemma_down_up_inverse(c: int, len: int)
    requires
        0 <= len,
        0 <= c,
        len > 0 ==> c < len,
    ensures
        len > 0 ==> next_up(next_down(c, len), len) == c,
        len > 0 ==> next_down(next_up(c, len), len) == c,
        len == 0 ==> next_down(c, len) == 0,
{
}

/// The cursor after `k` moves down from `c` in a listing of `len` entries.
pub open spec fn down_times(c: int, len: int, k: nat) -> int
    decreases k,
{
    if k == 0 {
        c
    } else {
        next_down(down_times(c, len, (k - 1) as nat), len)
    }
}

proof fn lemma_down_times(c: int, len: int, k: nat)
    requires
        0 <= c < len,
        k <= len,
    ensures
        down_times(c, len, k) == (if c + k < len {
            c + k
        } else {
            c + k - len
        }),
    decreases k,
{
    if k > 0 {
        lemma_down_times(c, len, (k - 1) as nat);
    }
}

/// In a non-empty listing, as many moves down as there are entries bring the
/// cursor back to where it started.
pub proof fn lemma_down_wraps_around(c: int, len: int)
    requires
        0 <= c < len,
    ensures
        down_times(c, len, len as nat) == c,
{
    lemma_down_times(c, len, len as nat);
}

/// Toggling the same path twice gives back the selection it started from.
pub proof fn lemma_toggle_twice(s: Set<Seq<Seq<char>>>, p: Seq<Seq<char>>)
    ensures
        toggled(toggled(s, seq![p]), seq![p]) == s,
{
    assert(seq![p].drop_last() == Seq::<Seq<Seq<char>>>::empty());
    assert(seq![p].last() == p);
    let t = toggled(s, seq![p]);
    assert(toggled(s, Seq::<Seq<Seq<char>>>::empty()) == s);
    assert(toggled(t, Seq::<Seq<Seq<char>>>::empty()) == t);
    assert(t == (if s.contains(p) {
        s.remove(p)
    } else {
        s.insert(p)
    }));
    if s.contains(p) {
        assert(s.remove(p).insert(p) =~= s);
    } else {
        assert(s.insert(p).remove(p) =~= s);
    }
}

/// A paste never overwrites: no path it copies has a name that the destination
/// lists, and a staged path whose name the destination lists stops the paste
/// at it or before it. When every staged path has a name, the path it stops at
/// has one too, so the paste ends in an overwrite error.
pub proof fn lemma_paste_never_overwrites(
    staged: Seq<Seq<Seq<char>>>,
    names: Seq<Seq<char>>,
    i: int,
)
    requires
        0 <= i < staged.len(),
        filename_of(staged[i]) is Some,
        names.contains(filename_of(staged[i])->0),
    ensures
        paste_stop(staged, names) <= i,
        forall|j: int|
            0 <= j < paste_stop(staged, names) ==> !names.contains(filename_of(staged[j])->0),
        (forall|j: int| 0 <= j < staged.len() ==> filename_of(staged[j]) is Some)
            ==> filename_of(staged[paste_stop(staged, names)]) is Some,
{
    lemma_first_blocked(staged, names, 0);
    assert forall|j: int| 0 <= j < paste_stop(staged, names) implies !names.contains(
        filename_of(staged[j])->0,
    ) by {
        assert(paste_clear(staged, names, j));
    }
    if paste_stop(staged, names) > i {
        assert(paste_clear(staged, names, i));
    }
}

/// A yank replaces what was staged: after yanking `a` and then a non-empty `b`,
/// exactly the paths that `b` names are staged.
pub proof fn lemma_yank_replaces(
    staged: Seq<Seq<Seq<char>>>,
    dir: Seq<Seq<char>>,
    a: Seq<Seq<char>>,
    b: Seq<Seq<char>>,
)
    requires
        b.len() > 0,
    ensures
        yanked_after(yanked_after(staged, dir, a), dir, b) == resolve_all(dir, b),
{
}

} // verus!
