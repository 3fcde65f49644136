//! The projection from the event log to current state, as mathematics: which
//! event of a task is its latest, which state a task is in, and what a
//! listing holds. The store's functions are specified by these.

use vstd::prelude::*;

use crate::persistence::{ItemEvent, ItemRowView, ItemState, ItemView};
use crate::time::Date;
use crate::uid::Uid;

verus! {

/// Whether the log holds an event of the task.
pub open spec fn has_event(events: Seq<ItemEvent>, item_uid: Uid) -> bool {
    exists|k: int| 0 <= k < events.len() && (#[trigger] events[k]).item_uid == item_uid
}

/// Event `j` is more recent than event `i`: it occurred later, or at the
/// same time and was inserted later.
pub open spec fn more_recent(events: Seq<ItemEvent>, j: int, i: int) -> bool {
    events[i].occurred_at.before(events[j].occurred_at) || (events[i].occurred_at
        == events[j].occurred_at && i < j)
}

/// Event `i` is the task's latest: it is an event of the task, and more
/// recent than every other event of the task.
pub open spec fn is_latest(events: Seq<ItemEvent>, item_uid: Uid, i: int) -> bool {
    &&& 0 <= i < events.len()
    &&& events[i].item_uid == item_uid
    &&& forall|j: int|
        0 <= j < events.len() && j != i && (#[trigger] events[j]).item_uid == item_uid
            ==> more_recent(events, i, j)
}

/// The position of the task's latest event, found by going through the log
/// in insertion order; `None` where the log holds no event of the task.
pub open spec fn latest_event(events: Seq<ItemEvent>, item_uid: Uid) -> Option<int>
    decreases events.len(),
{
    if events.len() == 0 {
        None
    } else {
        let last = events.len() - 1;
        let earlier = latest_event(events.drop_last(), item_uid);
        if events[last].item_uid != item_uid {
            earlier
        } else {
            match earlier {
                Some(i) if events[last].occurred_at.before(events[i].occurred_at) => Some(i),
                _ => Some(last),
            }
        }
    }
}

/// The state that the task's latest event gave it.
pub open spec fn current_state(events: Seq<ItemEvent>, item_uid: Uid) -> Option<ItemState> {
    match latest_event(events, item_uid) {
        Some(i) => Some(events[i].state),
        None => None,
    }
}

/// Whether a listing for `account_uid` and `date` shows the task: it
/// belongs to the account, was created on that day, and is not deleted.
pub open spec fn listed(
    row: ItemRowView,
    events: Seq<ItemEvent>,
    account_uid: Uid,
    date: Date,
) -> bool {
    &&& row.account_uid == account_uid
    &&& row.created_at.on() == date
    &&& current_state(events, row.item_uid) matches Some(state)
    &&& state != ItemState::Deleted
}

/// A task as a listing shows it.
pub open spec fn shown(row: ItemRowView, events: Seq<ItemEvent>) -> ItemView {
    ItemView {
        item_uid: row.item_uid,
        content: row.content,
        state: current_state(events, row.item_uid).unwrap(),
    }
}

/// The listing for `account_uid` and `date`: the tasks that are `listed`,
/// each once, in the order in which they were created.
pub open spec fn listing(
    items: Seq<ItemRowView>,
    events: Seq<ItemEvent>,
    account_uid: Uid,
    date: Date,
) -> Seq<ItemView>
    decreases items.len(),
{
    if items.len() == 0 {
        Seq::empty()
    } else {
        let before = listing(items.drop_last(), events, account_uid, date);
        if listed(items.last(), events, account_uid, date) {
            before.push(shown(items.last(), events))
        } else {
            before
        }
    }
}

/// `latest_event` finds the task's latest event: the one event of the task
/// that is more recent than every other, where the log holds an event of
/// the task, and none where it holds none.
pub proof fn lemma_latest_event(events: Seq<ItemEvent>, item_uid: Uid)
    ensures
        latest_event(events, item_uid) matches Some(i) ==> is_latest(events, item_uid, i),
        latest_event(events, item_uid) is None <==> !has_event(events, item_uid),
        forall|i: int| #[trigger]
            is_latest(events, item_uid, i) ==> latest_event(events, item_uid) == Some(i),
{
    lemma_latest_points_at_latest(events, item_uid);
    assert forall|i: int| #[trigger] is_latest(events, item_uid, i) implies latest_event(
        events,
        item_uid,
    ) == Some(i) by {
        assert(events[i].item_uid == item_uid);
        assert(has_event(events, item_uid));
        let j = latest_event(events, item_uid).unwrap();
        if i != j {
            assert(more_recent(events, i, j));
            assert(more_recent(events, j, i));
        }
    }
}

/// What `latest_event` finds is a latest event of the task, and it finds
/// one exactly where the log holds an event of the task.
proof fn lemma_latest_points_at_latest(events: Seq<ItemEvent>, item_uid: Uid)
    ensures
        latest_event(events, item_uid) matches Some(i) ==> is_latest(events, item_uid, i),
        latest_event(events, item_uid) is None <==> !has_event(events, item_uid),
    decreases events.len(),
{
    if events.len() > 0 {
        let rest = events.drop_last();
        let last = events.len() - 1;
        lemma_latest_points_at_latest(rest, item_uid);
        assert forall|j: int| 0 <= j < rest.len() implies rest[j] == events[j] by {}
        match latest_event(events, item_uid) {
            Some(i) => {
                assert forall|j: int|
                    0 <= j < events.len() && j != i && (#[trigger] events[j]).item_uid
                        == item_uid implies more_recent(events, i, j) by {
                    if j < last && i < last {
                        assert(rest[j].item_uid == item_uid);
                        assert(more_recent(rest, i, j));
                    } else if j < last {
                        let e = latest_event(rest, item_uid).unwrap();
                        assert(rest[j].item_uid == item_uid);
                        if j != e {
                            assert(more_recent(rest, e, j));
                        }
                    }
                }
            },
            None => {},
        }
        if has_event(events, item_uid) {
            let k = choose|k: int|
                0 <= k < events.len() && (#[trigger] events[k]).item_uid == item_uid;
            if k < last {
                assert(rest[k].item_uid == item_uid);
            }
        }
        if has_event(rest, item_uid) {
            let k = choose|k: int|
                0 <= k < rest.len() && (#[trigger] rest[k]).item_uid == item_uid;
            assert(events[k].item_uid == item_uid);
        }
        if events[last].item_uid == item_uid {
            assert(has_event(events, item_uid));
        }
    }
}

/// Whether `entry` shows one of the tasks that are `listed`.
pub open spec fn shows_listed_task(
    items: Seq<ItemRowView>,
    events: Seq<ItemEvent>,
    account_uid: Uid,
    date: Date,
    entry: ItemView,
) -> bool {
    exists|i: int|
        0 <= i < items.len() && listed(#[trigger] items[i], events, account_uid, date) && entry
            == shown(items[i], events)
}

/// Every entry of a listing shows a task that is `listed`, and every task
/// that is `listed` has an entry.
pub proof fn lemma_listing_members(
    items: Seq<ItemRowView>,
    events: Seq<ItemEvent>,
    account_uid: Uid,
    date: Date,
)
    ensures
        forall|k: int|
            0 <= k < listing(items, events, account_uid, date).len() ==> shows_listed_task(
                items,
                events,
                account_uid,
                date,
                #[trigger] listing(items, events, account_uid, date)[k],
            ),
        forall|i: int|
            0 <= i < items.len() && listed(#[trigger] items[i], events, account_uid, date)
                ==> listing(items, events, account_uid, date).contains(shown(items[i], events)),
    decreases items.len(),
{
    if items.len() > 0 {
        let rest = items.drop_last();
        let all = listing(items, events, account_uid, date);
        let before = listing(rest, events, account_uid, date);
        let last = items.len() - 1;
        lemma_listing_members(rest, events, account_uid, date);
        assert forall|k: int| 0 <= k < all.len() implies shows_listed_task(
            items,
            events,
            account_uid,
            date,
            #[trigger] all[k],
        ) by {
            if k < before.len() {
                assert(shows_listed_task(rest, events, account_uid, date, before[k]));
                let i = choose|i: int|
                    0 <= i < rest.len() && listed(#[trigger] rest[i], events, account_uid, date)
                        && before[k] == shown(rest[i], events);
                assert(listed(items[i], events, account_uid, date));
            } else {
                assert(listed(items[last], events, account_uid, date));
            }
        }
        assert forall|i: int|
            0 <= i < items.len() && listed(
                #[trigger] items[i],
                events,
                account_uid,
                date,
            ) implies all.contains(shown(items[i], events)) by {
            if i < last {
                assert(listed(rest[i], events, account_uid, date));
                let k = choose|k: int|
                    0 <= k < before.len() && before[k] == shown(rest[i], events);
                assert(all[k] == shown(items[i], events));
            } else {
                assert(all[all.len() - 1] == shown(items[i], events));
            }
        }
    }
}

/// A listing shows each task at most once, where no two tasks share an
/// identity.
pub proof fn lemma_listing_shows_each_task_once(
    items: Seq<ItemRowView>,
    events: Seq<ItemEvent>,
    account_uid: Uid,
    date: Date,
)
    requires
        forall|i: int, j: int|
            0 <= i < j < items.len() ==> (#[trigger] items[i]).item_uid != (
            #[trigger] items[j]).item_uid,
    ensures
        forall|k: int, l: int|
            0 <= k < l < listing(items, events, account_uid, date).len() ==> (#[trigger] listing(
                items,
                events,
                account_uid,
                date,
            )[k]).item_uid != (#[trigger] listing(items, events, account_uid, date)[l]).item_uid,
    decreases items.len(),
{
    if items.len() > 0 {
        let rest = items.drop_last();
        let all = listing(items, events, account_uid, date);
        let before = listing(rest, events, account_uid, date);
        let last = items.len() - 1;
        assert forall|i: int, j: int| 0 <= i < j < rest.len() implies (#[trigger] rest[i]).item_uid
            != (#[trigger] rest[j]).item_uid by {
            assert(items[i].item_uid != items[j].item_uid);
        }
        lemma_listing_shows_each_task_once(rest, events, account_uid, date);
        lemma_listing_members(rest, events, account_uid, date);
        assert forall|k: int, l: int| 0 <= k < l < all.len() implies (#[trigger] all[k]).item_uid
            != (#[trigger] all[l]).item_uid by {
            if l < before.len() {
                assert(before[k].item_uid != before[l].item_uid);
            } else {
                assert(shows_listed_task(rest, events, account_uid, date, before[k]));
                let i = choose|i: int|
                    0 <= i < rest.len() && listed(#[trigger] rest[i], events, account_uid, date)
                        && before[k] == shown(rest[i], events);
                assert(items[i].item_uid != items[last].item_uid);
            }
        }
    }
}

/// An event that is no earlier than any event of its task becomes the
/// task's latest when it is appended, whatever the log held before.
pub proof fn lemma_appended_event_is_latest(events: Seq<ItemEvent>, event: ItemEvent)
    requires
        forall|j: int|
            0 <= j < events.len() && (#[trigger] events[j]).item_uid == event.item_uid
                ==> !event.occurred_at.before(events[j].occurred_at),
    ensures
        latest_event(events.push(event), event.item_uid) == Some(events.len() as int),
        current_state(events.push(event), event.item_uid) == Some(event.state),
{
    let after = events.push(event);
    assert(after.drop_last() == events);
    lemma_latest_event(events, event.item_uid);
}

/// Appending an event leaves the latest event of every other task, and so
/// its state, as it was.
pub proof fn lemma_other_tasks_keep_state(events: Seq<ItemEvent>, event: ItemEvent, item_uid: Uid)
    requires
        item_uid != event.item_uid,
    ensures
        latest_event(events.push(event), item_uid) == latest_event(events, item_uid),
        current_state(events.push(event), item_uid) == current_state(events, item_uid),
{
    let after = events.push(event);
    assert(after.drop_last() == events);
    lemma_latest_event(events, item_uid);
}

/// A listing depends on the log only through the states of the account's
/// own tasks: two logs that give each of them the same state give the same
/// listing.
pub proof fn lemma_listing_reads_own_states(
    items: Seq<ItemRowView>,
    events: Seq<ItemEvent>,
    other_events: Seq<ItemEvent>,
    account_uid: Uid,
    date: Date,
)
    requires
        forall|i: int|
            0 <= i < items.len() && (#[trigger] items[i]).account_uid == account_uid
                ==> current_state(events, items[i].item_uid) == current_state(
                other_events,
                items[i].item_uid,
            ),
    ensures
        listing(items, events, account_uid, date) == listing(
            items,
            other_events,
            account_uid,
            date,
        ),
    decreases items.len(),
{
    if items.len() > 0 {
        let rest = items.drop_last();
        assert forall|i: int|
            0 <= i < rest.len() && (#[trigger] rest[i]).account_uid
                == account_uid implies current_state(events, rest[i].item_uid) == current_state(
            other_events,
            rest[i].item_uid,
        ) by {
            assert(items[i].account_uid == account_uid);
        }
        lemma_listing_reads_own_states(rest, events, other_events, account_uid, date);
        let last = items.len() - 1;
        if items[last].account_uid == account_uid {
            assert(current_state(events, items[last].item_uid) == current_state(
                other_events,
                items[last].item_uid,
            ));
        }
    }
}

} // verus!
