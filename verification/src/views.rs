//! Views of sequences of values that have a view.

use vstd::prelude::*;

verus! {

/// The views of the items of `items`, in the same order.
pub open spec fn views<T: View>(items: Seq<T>) -> Seq<T::V> {
    Seq::new(items.len(), |i: int| items[i]@)
}

/// Whether `result` is what `model` says: the value that `model` gives a
/// view of, or the failure that it names.
pub open spec fn agrees<T: View, E>(result: Result<T, E>, model: Result<T::V, E>) -> bool {
    match result {
        Ok(value) => model == Ok::<T::V, E>(value@),
        Err(e) => model == Err::<T::V, E>(e),
    }
}

/// Whether `result` is what `model` says: the values that `model` gives
/// the views of, in the same order, or the failure that it names.
pub open spec fn agrees_all<T: View, E>(
    result: Result<Vec<T>, E>,
    model: Result<Seq<T::V>, E>,
) -> bool {
    match result {
        Ok(values) => model == Ok::<Seq<T::V>, E>(views(values@)),
        Err(e) => model == Err::<Seq<T::V>, E>(e),
    }
}

/// Whether `result` is what `model` says: the two lists of values that
/// `model` gives the views of, or the failure that it names.
pub open spec fn agrees_both<T: View, E>(
    result: Result<(Vec<T>, Vec<T>), E>,
    model: Result<(Seq<T::V>, Seq<T::V>), E>,
) -> bool {
    match result {
        Ok((first, second)) => model == Ok::<(Seq<T::V>, Seq<T::V>), E>(
            (views(first@), views(second@)),
        ),
        Err(e) => model == Err::<(Seq<T::V>, Seq<T::V>), E>(e),
    }
}

/// A copy of `items` in which each item has the view of the one it was
/// copied from.
pub fn clone_all<T: Clone + View>(items: &Vec<T>) -> (copy: Vec<T>)
    requires
        forall|a: T, b: T| #[trigger] cloned(a, b) ==> b@ == a@,
    ensures
        views(copy@) == views(items@),
{
    let copy = items.clone();
    assert(views(copy@) =~= views(items@));
    copy
}

} // verus!
