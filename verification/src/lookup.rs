//! Finding the first entry of a list that passes a test.
use vstd::prelude::*;

use crate::audio::DeviceInfo;
use crate::music::Key;

verus! {

/// Index of the first element of `s` that satisfies `p`, or -1 when there is none.
pub open spec fn first_index<A>(s: Seq<A>, p: spec_fn(A) -> bool) -> int
    decreases s.len(),
{
    if s.len() == 0 {
        -1
    } else if p(s[0]) {
        0
    } else {
        let r = first_index(s.drop_first(), p);
        if r < 0 { -1 } else { r + 1 }
    }
}

/// A found index, or 0 when nothing was found.
pub open spec fn index_or_zero(i: int) -> usize {
    if i >= 0 { i as usize } else { 0 }
}

/// The test "the device is called `name`".
pub open spec fn named<D>(name: Seq<char>) -> spec_fn((D, DeviceInfo)) -> bool {
    |d: (D, DeviceInfo)| d.1.name@ == name
}

/// The test "the key is `k`".
pub open spec fn is_key(k: Key) -> spec_fn(Key) -> bool {
    |x: Key| x == k
}

/// The first index is in range, passes the test, and nothing before it does; with no
/// such index, nothing passes.
pub proof fn lemma_first_index<A>(s: Seq<A>, p: spec_fn(A) -> bool)
    ensures
        -1 <= first_index(s, p) < s.len(),
        first_index(s, p) >= 0 ==> p(s[first_index(s, p)]),
        first_index(s, p) >= 0 ==> forall|j: int| 0 <= j < first_index(s, p) ==> !p(#[trigger] s[j]),
        first_index(s, p) < 0 ==> forall|j: int| 0 <= j < s.len() ==> !p(#[trigger] s[j]),
    decreases s.len(),
{
    if s.len() > 0 && !p(s[0]) {
        let rest = s.drop_first();
        lemma_first_index(rest, p);
        assert forall|j: int| 0 < j < s.len() implies s[j] == rest[j - 1] by {}
    }
}

/// The first index is the one a left-to-right scan stops at.
pub proof fn lemma_scan_finds_first<A>(s: Seq<A>, p: spec_fn(A) -> bool, i: int)
    requires
        0 <= i <= s.len(),
        forall|j: int| 0 <= j < i ==> !p(#[trigger] s[j]),
        i < s.len() ==> p(s[i]),
    ensures
        first_index(s, p) == if i < s.len() { i } else { -1 },
{
    lemma_first_index(s, p);
    let f = first_index(s, p);
    if f >= 0 {
        assert(!(f < i) || !p(s[f]));
    }
}

} // verus!
