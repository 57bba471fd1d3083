use vstd::prelude::*;

verus! {

/// The views of the items of a sequence, in order.
pub open spec fn views<T: View>(items: Seq<T>) -> Seq<T::V> {
    items.map_values(|item: T| item@)
}

/// Viewing commutes with appending one item.
pub proof fn lemma_views_push<T: View>(items: Seq<T>, item: T)
    ensures
        views(items.push(item)) == views(items).push(item@),
{
    assert(views(items.push(item)) =~= views(items).push(item@));
}

/// Viewing commutes with removing the first item.
pub proof fn lemma_views_remove_first<T: View>(items: Seq<T>)
    requires
        items.len() > 0,
    ensures
        views(items.remove(0)) == views(items).subrange(1, items.len() as int),
        views(items)[0] == items[0]@,
{
    assert(views(items.remove(0)) =~= views(items).subrange(1, items.len() as int));
}

} // verus!
