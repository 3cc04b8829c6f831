//! Keeping the items of a list that a predicate accepts.
use vstd::prelude::*;

verus! {

/// `keep` computes the predicate `accepts`: whatever it returns for an item is
/// what `accepts` says of that item.
pub open spec fn decides<T, F: Fn(&T) -> bool>(keep: F, accepts: spec_fn(T) -> bool) -> bool {
    forall|item: T, answer: bool| call_ensures(keep, (&item,), answer) ==> answer == accepts(item)
}

/// Keeps, in their order, the items that `keep` accepts and drops the others.
///
/// Every item is moved at most twice, so the work is linear in the length of
/// the list.
pub fn retain<T, F: Fn(&T) -> bool>(items: &mut Vec<T>, keep: F)
    requires
        forall|i: int| 0 <= i < old(items)@.len() ==> call_requires(keep, (&#[trigger] old(items)@[i],)),
    ensures
        forall|accepts: spec_fn(T) -> bool| decides(keep, accepts) ==> final(items)@ == old(items)@.filter(accepts),
{
    let ghost given = items@;
    let mut reversed: Vec<T> = Vec::new();
    while items.len() > 0
        invariant
            items@.len() + reversed@.len() == given.len(),
            forall|k: int| 0 <= k < items@.len() ==> items@[k] == given[k],
            forall|k: int| 0 <= k < reversed@.len() ==> reversed@[k] == given[given.len() - 1 - k],
        decreases items@.len(),
    {
        let last = items.pop();
        match last {
            Some(item) => reversed.push(item),
            None => {},
        }
    }
    let ghost mut seen: nat = 0;
    while reversed.len() > 0
        invariant
            seen + reversed@.len() == given.len(),
            forall|k: int| 0 <= k < reversed@.len() ==> reversed@[k] == given[given.len() - 1 - k],
            forall|i: int| 0 <= i < given.len() ==> call_requires(keep, (&#[trigger] given[i],)),
            forall|accepts: spec_fn(T) -> bool| decides(keep, accepts) ==> items@ == given.take(seen as int).filter(accepts),
        decreases reversed@.len(),
    {
        let next = reversed.pop();
        match next {
            Some(item) => {
                let ghost before = items@;
                assert(item == given[seen as int]);
                let kept = keep(&item);
                if kept {
                    items.push(item);
                }
                proof {
                    assert forall|accepts: spec_fn(T) -> bool| decides(keep, accepts) implies items@ == given.take(seen as int + 1).filter(accepts) by {
                        reveal(Seq::filter);
                        assert(given.take(seen as int + 1).drop_last() =~= given.take(seen as int));
                        assert(kept == accepts(item));
                    }
                    seen = seen + 1;
                }
            },
            None => {},
        }
    }
    proof {
        assert(given.take(given.len() as int) =~= given);
        assert forall|accepts: spec_fn(T) -> bool| decides(keep, accepts) implies items@ == given.filter(accepts) by {
            reveal(Seq::filter);
        }
    }
}

} // verus!
