//! Finding the largest element of a slice: once for a fixed integer type,
//! once for any type with a partial order.

use vstd::prelude::*;
use vstd::std_specs::cmp::PartialOrdSpec;

verus! {

/// The element a left-to-right "keep the greater" scan settles on: the
/// first element, replaced whenever a later element compares strictly
/// greater than the current best.
pub open spec fn running_best<T: PartialOrd>(s: Seq<T>) -> T
    recommends
        s.len() > 0,
    decreases s.len(),
{
    if s.len() <= 1 {
        s[0]
    } else {
        let prev = running_best(s.drop_last());
        if s.last().partial_cmp_spec(&prev) == Some(core::cmp::Ordering::Greater) {
            s.last()
        } else {
            prev
        }
    }
}

/// The largest of a non-empty slice of integers.
pub fn largest(list: &[i32]) -> (r: &i32)
    requires
        list@.len() > 0,
    ensures
        exists|i: int| 0 <= i < list@.len() && *r == list@[i],
        forall|i: int| 0 <= i < list@.len() ==> list@[i] <= *r,
{
    let mut best_i: usize = 0;
    let mut i: usize = 1;
    while i < list.len()
        invariant
            list@.len() > 0,
            best_i < i <= list@.len(),
            forall|j: int| 0 <= j < i ==> list@[j] <= list@[best_i as int],
        decreases list@.len() - i,
    {
        if list[i] > list[best_i] {
            best_i = i;
        }
        i = i + 1;
    }
    &list[best_i]
}

/// The element the same scan settles on, for any partially ordered
/// element type.  With a partial order "the largest" need not exist, so the
/// contract pins the scan itself: whenever the type's comparison obeys its
/// specification, the result is exactly `running_best` of the elements, and
/// in any case it is one of the elements.
pub fn largest_generic<T: PartialOrd>(list: &[T]) -> (r: &T)
    requires
        list@.len() > 0,
    ensures
        exists|i: int| 0 <= i < list@.len() && *r == list@[i],
        T::obeys_partial_cmp_spec() ==> *r == running_best(list@),
{
    let mut best_i: usize = 0;
    let mut i: usize = 1;
    while i < list.len()
        invariant
            list@.len() > 0,
            best_i < i <= list@.len(),
            T::obeys_partial_cmp_spec() ==> list@[best_i as int] == running_best(
                list@.take(i as int),
            ),
        decreases list@.len() - i,
    {
        if list[i].gt(&list[best_i]) {
            best_i = i;
        }
        i = i + 1;
        proof {
            assert(list@.take(i as int).drop_last() =~= list@.take(i as int - 1));
            assert(list@.take(i as int).last() == list@[i as int - 1]);
        }
    }
    proof {
        assert(list@.take(list@.len() as int) =~= list@);
    }
    &list[best_i]
}

} // verus!
