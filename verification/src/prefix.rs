//! The run of items before a stop item.

use vstd::prelude::*;

verus! {

/// The number of items of `items` that stand before the first `stop`, or
/// all of them where there is no `stop`.
pub open spec fn len_before<T>(items: Seq<T>, stop: T) -> nat
    decreases items.len(),
{
    if items.len() == 0 || items[0] == stop {
        0
    } else {
        1 + len_before(items.skip(1), stop)
    }
}

/// The run before the first `stop` holds no `stop`, and ends at a `stop`
/// or at the end of `items`.
pub proof fn lemma_len_before<T>(items: Seq<T>, stop: T)
    ensures
        len_before(items, stop) <= items.len(),
        forall|k: int| 0 <= k < len_before(items, stop) ==> items[k] != stop,
        len_before(items, stop) < items.len() ==> items[len_before(items, stop) as int] == stop,
    decreases items.len(),
{
    if items.len() == 0 || items[0] == stop {
    } else {
        let rest = items.skip(1);
        lemma_len_before(rest, stop);
        assert forall|k: int| 0 <= k < len_before(items, stop) implies items[k] != stop by {
            if k > 0 {
                assert(items[k] == rest[k - 1]);
            }
        }
    }
}

/// A run of `n` items without a `stop` that ends at a `stop`, or at the end
/// of `items`, is the run before the first `stop`.
pub proof fn lemma_len_before_is<T>(items: Seq<T>, stop: T, n: int)
    requires
        0 <= n <= items.len(),
        forall|k: int| 0 <= k < n ==> items[k] != stop,
        n < items.len() ==> items[n] == stop,
    ensures
        len_before(items, stop) == n,
{
    lemma_len_before(items, stop);
}

} // verus!
