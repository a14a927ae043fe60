//! Lists that are used up from the front.

use vstd::prelude::*;

verus! {

/// The items of `items` in the opposite order.
pub fn reversed<T>(items: Vec<T>) -> (turned: Vec<T>)
    ensures
        turned@ == items@.reverse(),
{
    let ghost all = items@;
    let mut items = items;
    let mut turned: Vec<T> = Vec::new();
    while items.len() > 0
        invariant
            items@.len() + turned@.len() == all.len(),
            items@ == all.take(items@.len() as int),
            turned@ == all.reverse().take(turned@.len() as int),
        decreases items.len(),
    {
        let ghost n = items@.len();
        let item = items.pop().unwrap();
        turned.push(item);
        assert(items@ =~= all.take(n - 1));
        assert(turned@ =~= all.reverse().take(turned@.len() as int));
    }
    assert(all.reverse().take(all.len() as int) =~= all.reverse());
    turned
}

} // verus!
