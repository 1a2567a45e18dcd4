//! Finding the first item of a sequence that a predicate holds of.

use vstd::prelude::*;

verus! {

/// The index of the first item of `items`, from `start` on, that `wanted`
/// holds of.
pub open spec fn first_index_from<T>(
    items: Seq<T>,
    wanted: spec_fn(T) -> bool,
    start: int,
) -> Option<int>
    decreases items.len() - start,
{
    if start < 0 || start >= items.len() {
        None
    } else if wanted(items[start]) {
        Some(start)
    } else {
        first_index_from(items, wanted, start + 1)
    }
}

/// The index of the first item of `items` that `wanted` holds of.
pub open spec fn first_index<T>(items: Seq<T>, wanted: spec_fn(T) -> bool) -> Option<int> {
    first_index_from(items, wanted, 0)
}

/// What `first_index` finds is the first match: it lies in range, `wanted`
/// holds of it and of nothing before it; and it finds nothing only where
/// `wanted` holds of no item.
pub proof fn lemma_first_index<T>(items: Seq<T>, wanted: spec_fn(T) -> bool)
    ensures
        match first_index(items, wanted) {
            Some(found) => {
                &&& 0 <= found < items.len()
                &&& wanted(items[found])
                &&& forall|j: int| 0 <= j < found ==> !wanted(#[trigger] items[j])
            },
            None => forall|j: int| 0 <= j < items.len() ==> !wanted(#[trigger] items[j]),
        },
{
    lemma_first_index_from(items, wanted, 0);
}

proof fn lemma_first_index_from<T>(items: Seq<T>, wanted: spec_fn(T) -> bool, start: int)
    requires
        0 <= start,
    ensures
        match first_index_from(items, wanted, start) {
            Some(found) => {
                &&& start <= found < items.len()
                &&& wanted(items[found])
                &&& forall|j: int| start <= j < found ==> !wanted(#[trigger] items[j])
            },
            None => forall|j: int| start <= j < items.len() ==> !wanted(#[trigger] items[j]),
        },
    decreases items.len() - start,
{
    if start < items.len() && !wanted(items[start]) {
        lemma_first_index_from(items, wanted, start + 1);
    }
}

/// An index with a match at it and none before it is what `first_index`
/// finds.
pub proof fn lemma_first_index_is<T>(items: Seq<T>, wanted: spec_fn(T) -> bool, found: int)
    requires
        0 <= found < items.len(),
        wanted(items[found]),
        forall|j: int| 0 <= j < found ==> !wanted(#[trigger] items[j]),
    ensures
        first_index(items, wanted) == Some(found),
{
    lemma_first_index(items, wanted);
}

/// Where `wanted` holds of no item, `first_index` finds nothing.
pub proof fn lemma_first_index_none<T>(items: Seq<T>, wanted: spec_fn(T) -> bool)
    requires
        forall|j: int| 0 <= j < items.len() ==> !wanted(#[trigger] items[j]),
    ensures
        first_index(items, wanted) is None,
{
    lemma_first_index(items, wanted);
}

} // verus!
