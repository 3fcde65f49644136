use tasklist::error::ServerError;
use tasklist::persistence::account::{create_account, EmailAddress, HashedPassword};
use tasklist::persistence::{create_item, Content, Item, ItemState, Store};
use tasklist::router::{ApplicationState, IndexCache};
use tasklist::templates::IndexContext;
use tasklist::time::{Date, Timestamp};
use tasklist::uid::Uid;

fn view_of(contents: &[&str]) -> IndexContext {
    let items = contents
        .iter()
        .map(|c| Item { item_uid: Uid(1), content: Content::from(c.to_string()), state: ItemState::Checked })
        .collect();
    IndexContext::from(items)
}

#[test]
fn a_held_view_is_served_without_building() {
    let mut cache = IndexCache::new(32);
    let mut calls = 0;

    let first = cache.get_or_build(Uid(1), || {
        calls += 1;
        view_of(&["first"])
    });
    let second = cache.get_or_build(Uid(1), || {
        calls += 1;
        view_of(&["second"])
    });

    assert_eq!(calls, 1);
    assert_eq!(first, view_of(&["first"]));
    assert_eq!(second, view_of(&["first"]));
}

#[test]
fn an_invalidated_view_is_built_again() {
    let mut cache = IndexCache::new(32);
    let mut calls = 0;

    cache.get_or_build(Uid(1), || {
        calls += 1;
        view_of(&["stale"])
    });
    cache.invalidate(Uid(1));
    let view = cache.get_or_build(Uid(1), || {
        calls += 1;
        view_of(&["fresh"])
    });

    assert_eq!(calls, 2);
    assert_eq!(view, view_of(&["fresh"]));
}

#[test]
fn invalidating_one_account_leaves_the_others() {
    let mut cache = IndexCache::new(32);
    let mut calls = 0;

    cache.get_or_build(Uid(1), || view_of(&["one"]));
    cache.get_or_build(Uid(2), || view_of(&["two"]));
    cache.invalidate(Uid(1));
    cache.invalidate(Uid(3));
    let other = cache.get_or_build(Uid(2), || {
        calls += 1;
        view_of(&["rebuilt"])
    });

    assert_eq!(calls, 0);
    assert_eq!(other, view_of(&["two"]));
}

#[test]
fn views_are_kept_apart_by_account() {
    let mut cache = IndexCache::new(32);

    let one = cache.get_or_build(Uid(1), || view_of(&["one"]));
    let two = cache.get_or_build(Uid(2), || view_of(&["two"]));

    assert_eq!(one, view_of(&["one"]));
    assert_eq!(two, view_of(&["two"]));
}

#[test]
fn a_cache_without_room_builds_every_time() {
    let mut cache = IndexCache::new(0);
    let mut calls = 0;

    cache.get_or_build(Uid(1), || {
        calls += 1;
        view_of(&["a"])
    });
    let view = cache.get_or_build(Uid(1), || {
        calls += 1;
        view_of(&["b"])
    });

    assert_eq!(calls, 2);
    assert_eq!(view, view_of(&["b"]));
}

fn contents(items: &[Item]) -> Vec<&str> {
    items.iter().map(|i| i.content.as_str()).collect()
}

#[test]
fn a_task_moves_through_the_groups() {
    let mut state = ApplicationState::new(32);
    let today = Date { day: 738_886 };
    let alice = state.register("alice@example.com", "pw1").unwrap();
    assert_eq!(state.login("alice@example.com", "pw1"), Some(alice));

    let item_uid = state.add_item(alice, "Buy milk", Timestamp::new(738_886, 100, 0)).unwrap();
    let index = state.templated(alice, today);
    assert_eq!(contents(&index.unchecked_items), vec!["Buy milk"]);
    assert!(index.checked_items.is_empty());

    state.update_item_at(alice, item_uid, ItemState::Checked, Timestamp::new(738_886, 200, 0)).unwrap();
    let index = state.templated(alice, today);
    assert_eq!(contents(&index.checked_items), vec!["Buy milk"]);
    assert!(index.unchecked_items.is_empty());

    state.update_item_at(alice, item_uid, ItemState::Deleted, Timestamp::new(738_886, 300, 0)).unwrap();
    let index = state.templated(alice, today);
    assert!(index.checked_items.is_empty());
    assert!(index.unchecked_items.is_empty());
}

#[test]
fn each_account_sees_its_own_tasks_only() {
    let mut state = ApplicationState::new(32);
    let today = Date { day: 738_886 };
    let at = Timestamp::new(738_886, 100, 0);
    let one = state.register("one@example.com", "pw1").unwrap();
    let two = state.register("two@example.com", "pw2").unwrap();

    let item_one = state.add_item(one, "Task of one", at).unwrap();
    let item_two = state.add_item(two, "Task of two", at).unwrap();

    let index_one = state.templated(one, today);
    let uids_one: Vec<Uid> = index_one.unchecked_items.iter().map(|i| i.item_uid).collect();
    assert_eq!(uids_one, vec![item_one]);
    assert!(!uids_one.contains(&item_two));

    let index_two = state.templated(two, today);
    let uids_two: Vec<Uid> = index_two.unchecked_items.iter().map(|i| i.item_uid).collect();
    assert_eq!(uids_two, vec![item_two]);
}

#[test]
fn a_refused_update_leaves_the_owner_s_view() {
    let mut state = ApplicationState::new(32);
    let today = Date { day: 738_886 };
    let at = Timestamp::new(738_886, 100, 0);
    let one = state.register("one@example.com", "pw1").unwrap();
    let two = state.register("two@example.com", "pw2").unwrap();
    let item_uid = state.add_item(one, "Task of one", at).unwrap();
    let before = state.templated(one, today);

    assert_eq!(state.update_item(two, item_uid, ItemState::Deleted), Err(ServerError::Forbidden));
    assert_eq!(state.update_item(two, Uid(0), ItemState::Deleted), Err(ServerError::NotFound));
    assert_eq!(state.add_item(Uid(0), "Nobody's", at), Err(ServerError::StoreError));

    assert_eq!(state.templated(one, today), before);
    assert_eq!(contents(&before.unchecked_items), vec!["Task of one"]);
}

#[test]
fn a_write_is_seen_by_the_next_read() {
    let mut state = ApplicationState::new(32);
    let today = Date { day: 738_886 };
    let at = Timestamp::new(738_886, 100, 0);
    let alice = state.register("alice@example.com", "pw1").unwrap();

    state.add_item(alice, "First", at).unwrap();
    assert_eq!(contents(&state.templated(alice, today).unchecked_items), vec!["First"]);
    state.add_item(alice, "Second", at).unwrap();
    assert_eq!(contents(&state.templated(alice, today).unchecked_items), vec!["First", "Second"]);
}

#[test]
fn an_update_now_is_seen_by_the_next_read() {
    let mut state = ApplicationState::new(32);
    let alice = state.register("alice@example.com", "pw1").unwrap();
    let created = Timestamp::new(1, 0, 0);
    let item_uid = state.add_item(alice, "Old task", created).unwrap();
    assert_eq!(contents(&state.templated(alice, created.date()).unchecked_items), vec!["Old task"]);

    state.update_item(alice, item_uid, ItemState::Checked).unwrap();

    let index = state.templated(alice, created.date());
    assert_eq!(contents(&index.checked_items), vec!["Old task"]);
    assert!(index.unchecked_items.is_empty());
}

#[test]
fn a_duplicate_registration_is_refused() {
    let mut state = ApplicationState::new(32);
    state.register("alice@example.com", "pw1").unwrap();

    assert_eq!(state.register("Alice@Example.com", "pw1"), Err(ServerError::DuplicateEmail));
    assert_eq!(state.login("alice@example.com", "other"), None);
    assert_eq!(state.login("bob@example.com", "pw1"), None);
}

#[test]
fn a_registered_account_is_fetched_by_its_address() {
    let mut state = ApplicationState::new(32);
    let alice = state.register("Alice@Example.com", "pw1").unwrap();

    let account = state.fetch_account("ALICE@example.com").unwrap();
    assert_eq!(account.account_uid, alice);
    assert_eq!(account.email_address, "alice@example.com");
    assert_ne!(account.password, "pw1");
    assert!(state.fetch_account("bob@example.com").is_none());
}

#[test]
fn the_index_of_another_day_is_built_for_that_day() {
    let mut state = ApplicationState::new(32);
    let alice = state.register("alice@example.com", "pw1").unwrap();
    let monday = Date { day: 738_886 };
    let tuesday = Date { day: 738_887 };
    state.add_item(alice, "Monday task", Timestamp::new(738_886, 100, 0)).unwrap();
    state.add_item(alice, "Tuesday task", Timestamp::new(738_887, 100, 0)).unwrap();

    assert_eq!(contents(&state.templated(alice, monday).unchecked_items), vec!["Monday task"]);
    assert_eq!(contents(&state.templated(alice, monday).unchecked_items), vec!["Monday task"]);
    assert_eq!(contents(&state.templated(alice, tuesday).unchecked_items), vec!["Tuesday task"]);
    assert_eq!(contents(&state.templated(alice, monday).unchecked_items), vec!["Monday task"]);
}

#[test]
fn a_restored_store_is_served() {
    let mut store = Store::new();
    let password = HashedPassword::from_hashing(Ok(String::from("not a hash"))).unwrap();
    create_account(&mut store, Uid(1), &EmailAddress::from("a@example.com"), &password).unwrap();
    create_item(&mut store, Uid(1), Uid(10), "Restored", Timestamp::new(738_886, 0, 0)).unwrap();

    let mut state = ApplicationState::from_store(store, 4);

    let index = state.templated(Uid(1), Date { day: 738_886 });
    assert_eq!(contents(&index.unchecked_items), vec!["Restored"]);
    assert_eq!(state.login("a@example.com", "not a hash"), None);
}
