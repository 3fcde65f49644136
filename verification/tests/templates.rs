use tasklist::persistence::{Content, Item, ItemState};
use tasklist::templates::{duplicate_items, IndexContext};
use tasklist::uid::Uid;
use uuid::Uuid;

#[test]
fn items_are_correctly_categorised() {
    let checked_item = Item {
        item_uid: Uid(Uuid::new_v4().as_u128()),
        content: "checked".to_owned().into(),
        state: ItemState::Checked,
    };

    let unchecked_item = Item {
        item_uid: Uid(Uuid::new_v4().as_u128()),
        content: "unchecked".to_owned().into(),
        state: ItemState::Unchecked,
    };

    let items = vec![checked_item.clone(), unchecked_item.clone()];
    let context = IndexContext::from(items);

    assert_eq!(context.checked_items, vec![checked_item]);
    assert_eq!(context.unchecked_items, vec![unchecked_item]);
}

#[test]
fn deleted_items_are_ignored() {
    let deleted_item = Item {
        item_uid: Uid(Uuid::new_v4().as_u128()),
        content: "deleted".to_owned().into(),
        state: ItemState::Deleted,
    };

    let items = vec![deleted_item.clone()];
    let context = IndexContext::from(items);

    assert!(
        !context.checked_items.contains(&deleted_item),
        "checked items contained a deleted item"
    );

    assert!(
        !context.unchecked_items.contains(&deleted_item),
        "unchecked items contained a delete item"
    );
}

fn item(uid: u128, content: &str, state: ItemState) -> Item {
    Item { item_uid: Uid(uid), content: Content::from(content.to_owned()), state }
}

#[test]
fn groups_keep_the_order_of_the_listing() {
    let items = vec![
        item(1, "a", ItemState::Unchecked),
        item(2, "b", ItemState::Checked),
        item(3, "c", ItemState::Deleted),
        item(4, "d", ItemState::Checked),
        item(5, "e", ItemState::Unchecked),
    ];
    let context = IndexContext::from(items);

    assert_eq!(
        context.checked_items,
        vec![item(2, "b", ItemState::Checked), item(4, "d", ItemState::Checked)]
    );
    assert_eq!(
        context.unchecked_items,
        vec![item(1, "a", ItemState::Unchecked), item(5, "e", ItemState::Unchecked)]
    );
}

#[test]
fn an_empty_listing_gives_empty_groups() {
    let context = IndexContext::from(Vec::new());
    assert!(context.checked_items.is_empty());
    assert!(context.unchecked_items.is_empty());
}

#[test]
fn duplicates_hold_the_same_values() {
    let items = vec![item(1, "a", ItemState::Unchecked), item(2, "b", ItemState::Checked)];
    assert_eq!(duplicate_items(&items), items);
    assert_eq!(items[0].duplicate(), items[0]);
    let context = IndexContext::from(items);
    assert_eq!(context.duplicate(), context);
}
