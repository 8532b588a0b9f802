//! The first index at which something holds.
//!
//! Nodes and pins are found by scanning lists from the front. The contracts
//! of those scans all say the same thing: the result is the first index, if
//! there is any, at which a test holds. This module states that once.

use vstd::prelude::*;

verus! {

/// Whether `holds` is true at some index below `n`.
pub open spec fn holds_somewhere(n: int, holds: spec_fn(int) -> bool) -> bool {
    exists|i: int| 0 <= i < n && #[trigger] holds(i)
}

/// Whether `i` is the first index below `n` at which `holds` is true.
pub open spec fn is_first(n: int, holds: spec_fn(int) -> bool, i: int) -> bool {
    &&& 0 <= i < n
    &&& holds(i)
    &&& forall|j: int| 0 <= j < i ==> !#[trigger] holds(j)
}

/// The first index below `n` at which `holds` is true. Meaningful where
/// there is one.
pub open spec fn first_index(n: int, holds: spec_fn(int) -> bool) -> int {
    choose|i: int| is_first(n, holds, i)
}

/// An index that is first is the first index.
pub proof fn lemma_first_is_unique(n: int, holds: spec_fn(int) -> bool, i: int)
    requires
        is_first(n, holds, i),
    ensures
        first_index(n, holds) == i,
        holds_somewhere(n, holds),
{
    let j: int = first_index(n, holds);
    assert(is_first(n, holds, j));
    if j < i {
        assert(!holds(j));
    }
    if i < j {
        assert(!holds(i));
    }
}

/// Where the test holds somewhere, it holds somewhere first.
pub proof fn lemma_first_exists(n: int, holds: spec_fn(int) -> bool)
    requires
        holds_somewhere(n, holds),
    ensures
        is_first(n, holds, first_index(n, holds)),
{
    let k: int = choose|k: int| 0 <= k < n && #[trigger] holds(k);
    lemma_first_at_or_before(n, holds, k);
}

proof fn lemma_first_at_or_before(n: int, holds: spec_fn(int) -> bool, k: int)
    requires
        0 <= k < n,
        holds(k),
    ensures
        exists|i: int| is_first(n, holds, i),
    decreases k,
{
    if forall|j: int| 0 <= j < k ==> !#[trigger] holds(j) {
        assert(is_first(n, holds, k));
    } else {
        let j: int = choose|j: int| 0 <= j < k && #[trigger] holds(j);
        lemma_first_at_or_before(n, holds, j);
    }
}

/// Two tests that agree at every index below `n` hold at the same places,
/// and for the first time at the same place.
pub proof fn lemma_first_index_agrees(
    n: int,
    holds: spec_fn(int) -> bool,
    other: spec_fn(int) -> bool,
)
    requires
        forall|i: int| 0 <= i < n ==> #[trigger] holds(i) == #[trigger] other(i),
    ensures
        holds_somewhere(n, holds) == holds_somewhere(n, other),
        holds_somewhere(n, holds) ==> first_index(n, holds) == first_index(n, other),
{
    if holds_somewhere(n, holds) {
        let k: int = choose|k: int| 0 <= k < n && #[trigger] holds(k);
        assert(other(k));
        lemma_first_exists(n, holds);
        let first: int = first_index(n, holds);
        assert(other(first));
        assert forall|j: int| 0 <= j < first implies !#[trigger] other(j) by {
            assert(!holds(j));
        }
        lemma_first_is_unique(n, other, first);
    } else if holds_somewhere(n, other) {
        let k: int = choose|k: int| 0 <= k < n && #[trigger] other(k);
        assert(holds(k));
    }
}

} // verus!
