//! The view that the index page shows: an account's tasks, grouped by
//! state.

use vstd::prelude::*;

use crate::persistence::{items_view, Item, ItemState, ItemView};

verus! {

/// What a grouped view holds, as plain values.
pub struct IndexContextView {
    pub checked_items: Seq<ItemView>,
    pub unchecked_items: Seq<ItemView>,
}

/// An account's tasks, grouped into those that are checked and those that
/// are not, each group in the order of the listing. Built whole, never
/// changed in part.
#[derive(Clone, Debug, PartialEq, Eq)]
pub struct IndexContext {
    pub checked_items: Vec<Item>,
    pub unchecked_items: Vec<Item>,
}

impl View for IndexContext {
    type V = IndexContextView;

    open spec fn view(&self) -> IndexContextView {
        IndexContextView {
            checked_items: items_view(self.checked_items@),
            unchecked_items: items_view(self.unchecked_items@),
        }
    }
}

/// Whether a task is in the given state.
pub open spec fn has_state(state: ItemState) -> spec_fn(ItemView) -> bool {
    |item: ItemView| item.state == state
}

/// The tasks of a listing that are in the given state, in their order.
pub open spec fn in_state(items: Seq<ItemView>, state: ItemState) -> Seq<ItemView> {
    items.filter(has_state(state))
}

/// The grouping of a listing: the checked tasks and the unchecked ones;
/// deleted tasks are in neither group.
pub open spec fn grouped(items: Seq<ItemView>) -> IndexContextView {
    IndexContextView {
        checked_items: in_state(items, ItemState::Checked),
        unchecked_items: in_state(items, ItemState::Unchecked),
    }
}

impl IndexContext {
    /// Groups a listing by state.
    pub fn from(items: Vec<Item>) -> (context: IndexContext)
        ensures
            context@ == grouped(items_view(items@)),
    {
        let mut checked_items: Vec<Item> = Vec::new();
        let mut unchecked_items: Vec<Item> = Vec::new();
        let ghost all = items_view(items@);
        let mut i: usize = 0;
        proof {
            reveal(Seq::filter);
        }
        while i < items.len()
            invariant
                i <= items.len(),
                all == items_view(items@),
                items_view(checked_items@) == in_state(all.take(i as int), ItemState::Checked),
                items_view(unchecked_items@) == in_state(
                    all.take(i as int),
                    ItemState::Unchecked,
                ),
            decreases items.len() - i,
        {
            proof {
                reveal(Seq::filter);
                assert(all.take(i + 1).drop_last() == all.take(i as int));
                assert(all.take(i + 1).last() == items[i as int]@);
            }
            match items[i].state {
                ItemState::Checked => {
                    let ghost before = items_view(checked_items@);
                    checked_items.push(items[i].duplicate());
                    assert(items_view(checked_items@) == before.push(items[i as int]@));
                },
                ItemState::Unchecked => {
                    let ghost before = items_view(unchecked_items@);
                    unchecked_items.push(items[i].duplicate());
                    assert(items_view(unchecked_items@) == before.push(items[i as int]@));
                },
                ItemState::Deleted => {},
            }
            i += 1;
        }
        proof {
            assert(all.take(i as int) == all);
        }
        IndexContext { checked_items, unchecked_items }
    }

    /// A copy that holds the same values.
    pub fn duplicate(&self) -> (copy: IndexContext)
        ensures
            copy@ == self@,
    {
        IndexContext {
            checked_items: duplicate_items(&self.checked_items),
            unchecked_items: duplicate_items(&self.unchecked_items),
        }
    }
}

/// A copy of a sequence of tasks that holds the same values.
pub fn duplicate_items(items: &Vec<Item>) -> (copy: Vec<Item>)
    ensures
        items_view(copy@) == items_view(items@),
{
    let mut copy: Vec<Item> = Vec::new();
    let mut i: usize = 0;
    while i < items.len()
        invariant
            i <= items.len(),
            items_view(copy@) == items_view(items@).take(i as int),
        decreases items.len() - i,
    {
        let ghost before = items_view(copy@);
        copy.push(items[i].duplicate());
        assert(items_view(copy@) == before.push(items[i as int]@));
        assert(items_view(items@).take(i + 1) == items_view(items@).take(i as int).push(
            items[i as int]@,
        ));
        i += 1;
    }
    proof {
        assert(items_view(items@).take(i as int) == items_view(items@));
    }
    copy
}

/// Every task of a group is in the state of the group and comes from the
/// listing, and no deleted task is in either group.
pub proof fn groups_hold_their_state(items: Seq<ItemView>, k: int)
    ensures
        0 <= k < grouped(items).checked_items.len() ==> grouped(items).checked_items[k].state
            == ItemState::Checked && items.contains(grouped(items).checked_items[k]),
        0 <= k < grouped(items).unchecked_items.len() ==> grouped(items).unchecked_items[k].state
            == ItemState::Unchecked && items.contains(grouped(items).unchecked_items[k]),
{
    let checked = grouped(items).checked_items;
    let unchecked = grouped(items).unchecked_items;
    if 0 <= k < checked.len() {
        items.lemma_filter_pred(has_state(ItemState::Checked), k);
        assert(checked.contains(checked[k]));
        items.lemma_filter_contains_rev(has_state(ItemState::Checked), checked[k]);
    }
    if 0 <= k < unchecked.len() {
        items.lemma_filter_pred(has_state(ItemState::Unchecked), k);
        assert(unchecked.contains(unchecked[k]));
        items.lemma_filter_contains_rev(has_state(ItemState::Unchecked), unchecked[k]);
    }
}

} // verus!
