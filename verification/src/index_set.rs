//! The insertion-ordered hash set of the `indexmap` crate, over the numbers of commit ids.

use indexmap::IndexSet;
use vstd::prelude::*;

verus! {

/// `indexmap::IndexSet`, a hash set that keeps the order in which its items were inserted.
#[verifier::external_type_specification]
#[verifier::external_body]
#[verifier::reject_recursive_types(T)]
#[verifier::reject_recursive_types(S)]
pub struct ExIndexSet<T, S>(indexmap::IndexSet<T, S>);

/// The items of an `IndexSet`, in the order in which its iterators give them.
pub uninterp spec fn set_keys(set: IndexSet<(u128, u32)>) -> Seq<(u128, u32)>;

/// `IndexSet::new` makes a set without items.
#[verifier::external_body]
pub(crate) fn set_new() -> (r: IndexSet<(u128, u32)>)
    ensures
        set_keys(r) == Seq::<(u128, u32)>::empty(),
{
    IndexSet::new()
}

/// `IndexSet::len` gives the number of items.
#[verifier::external_body]
pub(crate) fn set_len(set: &IndexSet<(u128, u32)>) -> (r: usize)
    ensures
        r == set_keys(*set).len(),
{
    set.len()
}

/// `IndexSet::get_index` gives the item at a position, for positions below the length. No other
/// position has that item.
#[verifier::external_body]
pub(crate) fn set_get_index(set: &IndexSet<(u128, u32)>, index: usize) -> (r: Option<
    (u128, u32),
>)
    ensures
        r is Some <==> index < set_keys(*set).len(),
        r matches Some(key) ==> key == set_keys(*set)[index as int],
        r matches Some(key) ==> forall|j: int|
            0 <= j < set_keys(*set).len() && j != index ==> #[trigger] set_keys(*set)[j] != key,
{
    set.get_index(index).copied()
}

/// `IndexSet::get_index_of` gives the one position at which an item stands, if the set has it.
#[verifier::external_body]
pub(crate) fn set_get_index_of(set: &IndexSet<(u128, u32)>, key: &(u128, u32)) -> (r: Option<usize>)
    ensures
        r is Some <==> set_keys(*set).contains(*key),
        r matches Some(i) ==> i < set_keys(*set).len() && set_keys(*set)[i as int] == *key,
        r matches Some(i) ==> forall|j: int|
            0 <= j < set_keys(*set).len() && j != i ==> #[trigger] set_keys(*set)[j] != *key,
{
    set.get_index_of(key)
}

/// `IndexSet::contains` tells whether the set has an item.
#[verifier::external_body]
pub(crate) fn set_contains(set: &IndexSet<(u128, u32)>, key: &(u128, u32)) -> (r: bool)
    ensures
        r == set_keys(*set).contains(*key),
{
    set.contains(key)
}

/// `IndexSet::insert` puts a new item behind the others and says that it did. An item that the set
/// has already stays where it is.
#[verifier::external_body]
pub(crate) fn set_insert(set: &mut IndexSet<(u128, u32)>, key: (u128, u32)) -> (r: bool)
    ensures
        r == !set_keys(*old(set)).contains(key),
        r ==> set_keys(*final(set)) == set_keys(*old(set)).push(key),
        !r ==> set_keys(*final(set)) == set_keys(*old(set)),
{
    set.insert(key)
}

/// `IndexSet::clear` removes all items.
#[verifier::external_body]
pub(crate) fn set_clear(set: &mut IndexSet<(u128, u32)>)
    ensures
        set_keys(*final(set)) == Seq::<(u128, u32)>::empty(),
{
    set.clear()
}

/// `==` of two `IndexSet` values tells whether they have the same items, in whatever order.
#[verifier::external_body]
pub(crate) fn set_eq(a: &IndexSet<(u128, u32)>, b: &IndexSet<(u128, u32)>) -> (r: bool)
    ensures
        r == (set_keys(*a).to_set() == set_keys(*b).to_set()),
{
    a == b
}

} // verus!
