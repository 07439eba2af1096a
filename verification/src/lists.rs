//! What is said of lists in more than one place.

use vstd::prelude::*;

verus! {

/// The first answer that is not `None`, asking `f` about 0, 1, and so on up to
/// but not including `n`.
pub open spec fn first_some<E>(n: nat, f: spec_fn(int) -> Option<E>) -> Option<E>
    decreases n,
{
    if n == 0 {
        None
    } else {
        match first_some((n - 1) as nat, f) {
            Some(e) => Some(e),
            None => f(n - 1),
        }
    }
}

/// The sum of `f(0)`, `f(1)`, and so on up to but not including `f(n)`.
pub open spec fn sum_upto(n: nat, f: spec_fn(int) -> int) -> int
    decreases n,
{
    if n == 0 {
        0
    } else {
        sum_upto((n - 1) as nat, f) + f(n - 1)
    }
}

/// Where the first `n` answers are `None` and the next is not, that one is the
/// first, whatever follows it.
pub proof fn lemma_first_some_at<E>(n: nat, k: nat, f: spec_fn(int) -> Option<E>)
    requires
        k < n,
        first_some(k, f) is None,
        f(k as int) is Some,
    ensures
        first_some(n, f) == f(k as int),
    decreases n,
{
    if n > k + 1 {
        lemma_first_some_at((n - 1) as nat, k, f);
    }
}

/// No answer among the first `n` is the same as every answer being `None`.
pub proof fn lemma_first_some_none<E>(n: nat, f: spec_fn(int) -> Option<E>)
    ensures
        first_some(n, f) is None <==> forall|i: int| 0 <= i < n ==> (#[trigger] f(i)) is None,
    decreases n,
{
    if n > 0 {
        lemma_first_some_none((n - 1) as nat, f);
    }
}

} // verus!
