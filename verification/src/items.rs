//! Growing vectors, stated over the views of their elements.

use vstd::prelude::*;

verus! {

/// The views of the elements of a sequence, in order.
pub open spec fn views<T: View>(items: Seq<T>) -> Seq<T::V> {
    items.map_values(|item: T| item@)
}

/// Appends one element.
pub fn put<T: View>(out: &mut Vec<T>, item: T)
    ensures
        views(final(out)@) == views(old(out)@) + seq![item@],
{
    out.push(item);
    assert(views(out@) =~= views(old(out)@) + seq![item@]);
}

/// Moves all elements of `more` to the end of `out`.
pub fn put_all<T: View>(out: &mut Vec<T>, more: Vec<T>)
    ensures
        views(final(out)@) == views(old(out)@) + views(more@),
{
    let mut rest = more;
    out.append(&mut rest);
    assert(views(out@) =~= views(old(out)@) + views(more@));
}

/// Equal strings, in order.
pub fn copy_names(names: &Vec<String>) -> (copies: Vec<String>)
    ensures
        views(copies@) == views(names@),
{
    let mut copies: Vec<String> = Vec::new();
    let mut i: usize = 0;
    while i < names.len()
        invariant
            i <= names@.len(),
            copies@.len() == i,
            forall|j: int| 0 <= j < i ==> #[trigger] copies@[j]@ == names@[j]@,
        decreases names@.len() - i,
    {
        copies.push(names[i].as_str().to_owned());
        i += 1;
    }
    assert(views(copies@) =~= views(names@));
    copies
}

/// An empty vector has no views.
pub proof fn views_empty<T: View>()
    ensures
        views(Seq::<T>::empty()) == Seq::<T::V>::empty(),
{
    assert(views(Seq::<T>::empty()) =~= Seq::<T::V>::empty());
}

/// The items of the indices `lo..hi`, one index after the other.
pub open spec fn in_order<A>(items: spec_fn(int) -> Seq<A>, lo: int, hi: int) -> Seq<A>
    decreases hi - lo,
{
    if lo >= hi {
        Seq::empty()
    } else {
        items(lo) + in_order(items, lo + 1, hi)
    }
}

/// A range of indices can be cut in two.
pub proof fn in_order_split<A>(items: spec_fn(int) -> Seq<A>, lo: int, mid: int, hi: int)
    requires
        lo <= mid <= hi,
    ensures
        in_order(items, lo, hi) == in_order(items, lo, mid) + in_order(items, mid, hi),
    decreases mid - lo,
{
    if lo < mid {
        in_order_split(items, lo + 1, mid, hi);
        assert(items(lo) + (in_order(items, lo + 1, mid) + in_order(items, mid, hi)) =~= (items(lo)
            + in_order(items, lo + 1, mid)) + in_order(items, mid, hi));
    } else {
        assert(Seq::<A>::empty() + in_order(items, mid, hi) =~= in_order(items, mid, hi));
    }
}

/// Indices without items have none together.
pub proof fn in_order_none<A>(items: spec_fn(int) -> Seq<A>, lo: int, hi: int)
    requires
        forall|i: int| lo <= i < hi ==> (#[trigger] items(i)).len() == 0,
    ensures
        in_order(items, lo, hi) == Seq::<A>::empty(),
    decreases hi - lo,
{
    if lo < hi {
        in_order_none(items, lo + 1, hi);
        assert(in_order(items, lo, hi) =~= Seq::<A>::empty());
    }
}

/// What holds of the items of each index holds of all.
pub proof fn in_order_all<A>(
    items: spec_fn(int) -> Seq<A>,
    lo: int,
    hi: int,
    holds: spec_fn(A) -> bool,
)
    requires
        forall|i: int, k: int|
            lo <= i < hi && 0 <= k < items(i).len() ==> holds(#[trigger] items(i)[k]),
    ensures
        forall|k: int|
            0 <= k < in_order(items, lo, hi).len() ==> holds(#[trigger] in_order(items, lo, hi)[k]),
    decreases hi - lo,
{
    if lo < hi {
        in_order_all(items, lo + 1, hi, holds);
        let rest = in_order(items, lo + 1, hi);
        assert forall|k: int| 0 <= k < in_order(items, lo, hi).len() implies holds(
            #[trigger] in_order(items, lo, hi)[k],
        ) by {
            if k < items(lo).len() {
                assert(in_order(items, lo, hi)[k] == items(lo)[k]);
            } else {
                assert(in_order(items, lo, hi)[k] == rest[k - items(lo).len()]);
            }
        }
    }
}

/// Each item of an index is among those of all.
pub proof fn in_order_each<A>(items: spec_fn(int) -> Seq<A>, lo: int, hi: int, i: int, k: int)
    requires
        lo <= i < hi,
        0 <= k < items(i).len(),
    ensures
        in_order(items, lo, hi).contains(items(i)[k]),
{
    in_order_split(items, lo, i, hi);
    let before = in_order(items, lo, i);
    let at = before.len() + k;
    assert(in_order(items, i, hi)[k] == items(i)[k]);
    assert(in_order(items, lo, hi)[at as int] == items(i)[k]);
}

} // verus!
