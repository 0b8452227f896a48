//! Moving the items of a vector out in their order.

use vstd::prelude::*;

verus! {

/// The items of `items` in reverse, so that `pop` hands them out from the
/// first to the last.
pub fn reversed<T>(items: Vec<T>) -> (r: Vec<T>)
    ensures
        r@.len() == items@.len(),
        forall|i: int| 0 <= i < r@.len() ==> #[trigger] r@[i] == items@[items@.len() - 1 - i],
{
    let n = items.len();
    let mut rest = items;
    let mut r: Vec<T> = Vec::new();
    while rest.len() > 0
        invariant
            rest@.len() + r@.len() == n,
            items@.len() == n,
            forall|i: int| 0 <= i < rest@.len() ==> #[trigger] rest@[i] == items@[i],
            forall|i: int| 0 <= i < r@.len() ==> #[trigger] r@[i] == items@[n - 1 - i],
        decreases rest@.len(),
    {
        match rest.pop() {
            Some(item) => r.push(item),
            None => {},
        }
    }
    r
}

} // verus!
