//! The task event store: tasks, their append-only event log, and the
//! projection that derives what an account currently sees.

use vstd::prelude::*;

use crate::error::ServerError;
use crate::markdown::{markdown_events, render, rendered};
use crate::persistence::account::{bcrypt_verdict, Account, AccountView};
use crate::persistence::projection::{
    current_state, has_event, is_latest, latest_event, lemma_appended_event_is_latest,
    lemma_latest_event, lemma_listing_members, lemma_listing_reads_own_states,
    lemma_listing_shows_each_task_once, lemma_other_tasks_keep_state, listed, listing, shown,
    shows_listed_task,
};
use crate::time::{current_timestamp, Date, Timestamp};
use crate::uid::{random_uid, Uid};

pub mod account;
pub mod projection;

verus! {

/// The kind of a task event, and so the state of a task after it.
#[derive(Copy, Clone, Debug, PartialEq, Eq, Structural)]
pub enum ItemState {
    Checked,
    Unchecked,
    Deleted,
}

impl ItemState {
    /// The name under which a state is stored and exchanged.
    pub open spec fn name(self) -> Seq<char> {
        match self {
            ItemState::Checked => "Checked"@,
            ItemState::Unchecked => "Unchecked"@,
            ItemState::Deleted => "Deleted"@,
        }
    }

    /// Whether `name` is the name of a state.
    pub open spec fn is_name(name: Seq<char>) -> bool {
        name == "Checked"@ || name == "Unchecked"@ || name == "Deleted"@
    }

    pub fn as_str(&self) -> (name: &'static str)
        ensures
            name@ == self.name(),
    {
        match self {
            ItemState::Checked => "Checked",
            ItemState::Unchecked => "Unchecked",
            ItemState::Deleted => "Deleted",
        }
    }

    /// The state with the given name, if it names one.
    pub fn parse(name: &String) -> (state: Option<ItemState>)
        ensures
            state matches Some(s) ==> s.name() == name@,
            state is None <==> !ItemState::is_name(name@),
    {
        if *name == "Checked".to_owned() {
            Some(ItemState::Checked)
        } else if *name == "Unchecked".to_owned() {
            Some(ItemState::Unchecked)
        } else if *name == "Deleted".to_owned() {
            Some(ItemState::Deleted)
        } else {
            None
        }
    }

    /// The state with the given name; any other text is not accepted.
    pub fn from(value: String) -> (state: ItemState)
        requires
            ItemState::is_name(value@),
        ensures
            state.name() == value@,
    {
        match ItemState::parse(&value) {
            Some(state) => state,
            None => vstd::pervasive::unreached(),
        }
    }
}

/// Different states have different names.
pub proof fn state_names_are_distinct(a: ItemState, b: ItemState)
    ensures
        a.name() == b.name() <==> a == b,
{
    reveal_strlit("Checked");
    reveal_strlit("Unchecked");
    reveal_strlit("Deleted");
    if a != b {
        assert(a.name()[0] != b.name()[0]);
    }
}

/// The raw text of a task, as it was entered.
#[derive(Clone, Debug, PartialEq, Eq)]
pub struct Content(pub String);

impl View for Content {
    type V = Seq<char>;

    open spec fn view(&self) -> Seq<char> {
        self.0@
    }
}

impl Content {
    pub fn as_str(&self) -> (text: &str)
        ensures
            text@ == self@,
    {
        self.0.as_str()
    }

    /// The text as it is displayed: plain text as it is, inline code
    /// between `<code>` and `</code>`, all other markup left out.
    pub fn render(&self) -> (display: String)
        ensures
            display@ == rendered(markdown_events(self@)),
    {
        render(self.0.as_str())
    }
}

impl From<String> for Content {
    fn from(value: String) -> (content: Content) {
        Content(value)
    }
}

impl vstd::std_specs::convert::FromSpecImpl<String> for Content {
    open spec fn obeys_from_spec() -> bool {
        true
    }

    open spec fn from_spec(value: String) -> Content {
        Content(value)
    }
}

/// What a listed task holds, as plain values.
pub struct ItemView {
    pub item_uid: Uid,
    pub content: Seq<char>,
    pub state: ItemState,
}

/// A task as a listing shows it: its identity, its text and its current
/// state.
#[derive(Clone, Debug, PartialEq, Eq)]
pub struct Item {
    pub item_uid: Uid,
    pub content: Content,
    pub state: ItemState,
}

impl View for Item {
    type V = ItemView;

    open spec fn view(&self) -> ItemView {
        ItemView { item_uid: self.item_uid, content: self.content@, state: self.state }
    }
}

impl Item {
    /// A copy that holds the same values.
    pub fn duplicate(&self) -> (copy: Item)
        ensures
            copy@ == self@,
    {
        Item {
            item_uid: self.item_uid,
            content: Content(self.content.0.clone()),
            state: self.state,
        }
    }
}

/// The plain values of a sequence of listed tasks, in the same order.
pub open spec fn items_view(items: Seq<Item>) -> Seq<ItemView> {
    Seq::new(items.len(), |i: int| items[i]@)
}

/// What a task row holds, as plain values.
pub struct ItemRowView {
    pub item_uid: Uid,
    pub account_uid: Uid,
    pub content: Seq<char>,
    pub created_at: Timestamp,
}

/// A task as it is stored: written once, never changed.
#[derive(Clone, Debug)]
pub(crate) struct ItemRow {
    pub(crate) item_uid: Uid,
    pub(crate) account_uid: Uid,
    pub(crate) content: String,
    pub(crate) created_at: Timestamp,
}

impl ItemRow {
    pub(crate) open spec fn row_view(self) -> ItemRowView {
        ItemRowView {
            item_uid: self.item_uid,
            account_uid: self.account_uid,
            content: self.content@,
            created_at: self.created_at,
        }
    }
}

/// One entry of the event log: a task took a state at some time.
#[derive(Copy, Clone, Debug, PartialEq, Eq, Structural)]
pub struct ItemEvent {
    pub item_uid: Uid,
    pub state: ItemState,
    pub occurred_at: Timestamp,
}

/// What the store holds, as plain values: the accounts, the tasks and the
/// event log, each in insertion order.
pub struct StoreView {
    pub accounts: Seq<AccountView>,
    pub items: Seq<ItemRowView>,
    pub events: Seq<ItemEvent>,
}

impl StoreView {
    /// Whether an account with this identity exists.
    pub open spec fn has_account(self, account_uid: Uid) -> bool {
        exists|i: int|
            0 <= i < self.accounts.len() && (#[trigger] self.accounts[i]).account_uid
                == account_uid
    }

    /// Whether an account with this normalised email address exists.
    pub open spec fn has_email(self, email_address: Seq<char>) -> bool {
        exists|i: int|
            0 <= i < self.accounts.len() && (#[trigger] self.accounts[i]).email_address
                == email_address
    }

    /// Whether a task with this identity exists.
    pub open spec fn has_item(self, item_uid: Uid) -> bool {
        exists|i: int|
            0 <= i < self.items.len() && (#[trigger] self.items[i]).item_uid == item_uid
    }

    /// Whether the task exists and belongs to the account.
    pub open spec fn owned_by(self, item_uid: Uid, account_uid: Uid) -> bool {
        exists|i: int|
            0 <= i < self.items.len() && (#[trigger] self.items[i]).item_uid == item_uid
                && self.items[i].account_uid == account_uid
    }

    /// The store's invariant: identities and email addresses are unique,
    /// every task belongs to an account and has at least one event, and
    /// every event is an event of a task.
    pub open spec fn wf(self) -> bool {
        &&& forall|i: int, j: int|
            0 <= i < j < self.accounts.len() ==> (#[trigger] self.accounts[i]).account_uid != (
            #[trigger] self.accounts[j]).account_uid
        &&& forall|i: int, j: int|
            0 <= i < j < self.accounts.len() ==> (#[trigger] self.accounts[i]).email_address != (
            #[trigger] self.accounts[j]).email_address
        &&& forall|i: int, j: int|
            0 <= i < j < self.items.len() ==> (#[trigger] self.items[i]).item_uid != (
            #[trigger] self.items[j]).item_uid
        &&& forall|i: int|
            0 <= i < self.items.len() ==> self.has_account((#[trigger] self.items[i]).account_uid)
        &&& forall|i: int|
            0 <= i < self.items.len() ==> has_event(
                self.events,
                (#[trigger] self.items[i]).item_uid,
            )
        &&& forall|k: int|
            0 <= k < self.events.len() ==> self.has_item((#[trigger] self.events[k]).item_uid)
    }

    /// A store that holds nothing.
    pub open spec fn empty() -> StoreView {
        StoreView { accounts: Seq::empty(), items: Seq::empty(), events: Seq::empty() }
    }

    /// The store after a task and its first event were written.
    pub open spec fn with_item(self, row: ItemRowView) -> StoreView {
        StoreView {
            accounts: self.accounts,
            items: self.items.push(row),
            events: self.events.push(
                ItemEvent {
                    item_uid: row.item_uid,
                    state: ItemState::Unchecked,
                    occurred_at: row.created_at,
                },
            ),
        }
    }

    /// The store after an event was appended to the log.
    pub open spec fn with_event(self, event: ItemEvent) -> StoreView {
        StoreView { accounts: self.accounts, items: self.items, events: self.events.push(event) }
    }

    /// The store after an account was written.
    pub open spec fn with_account(self, account: AccountView) -> StoreView {
        StoreView {
            accounts: self.accounts.push(account),
            items: self.items,
            events: self.events,
        }
    }

    /// The account with this normalised email address, if there is one.
    pub open spec fn account_by_email(self, email_address: Seq<char>) -> Option<AccountView> {
        if self.has_email(email_address) {
            Some(
                self.accounts[choose|i: int|
                    0 <= i < self.accounts.len() && (#[trigger] self.accounts[i]).email_address
                        == email_address],
            )
        } else {
            None
        }
    }

    /// Whom a login with this normalised email address and raw password
    /// identifies: the account with the address, where the password matches
    /// its hash; nobody otherwise.
    pub open spec fn login(self, email_address: Seq<char>, raw_password: Seq<char>) -> Option<Uid> {
        match self.account_by_email(email_address) {
            Some(account) if bcrypt_verdict(raw_password, account.password) == Some(true) => Some(
                account.account_uid,
            ),
            _ => None,
        }
    }

    /// What the account sees of the tasks created on `date`.
    pub open spec fn listing(self, account_uid: Uid, date: Date) -> Seq<ItemView> {
        listing(self.items, self.events, account_uid, date)
    }
}

/// The system of record: accounts, tasks and the append-only event log.
pub struct Store {
    pub(crate) accounts: Vec<Account>,
    pub(crate) items: Vec<ItemRow>,
    pub(crate) events: Vec<ItemEvent>,
}

impl View for Store {
    type V = StoreView;

    closed spec fn view(&self) -> StoreView {
        StoreView {
            accounts: self.accounts@.map_values(|a: Account| a@),
            items: self.items@.map_values(|r: ItemRow| r.row_view()),
            events: self.events@,
        }
    }
}

impl Store {
    /// The invariant holds of what the store holds.
    pub open spec fn wf(&self) -> bool {
        self@.wf()
    }

    /// How the fields make up the view.
    pub(crate) proof fn lemma_view(&self)
        ensures
            self@.accounts == self.accounts@.map_values(|a: Account| a@),
            self@.items == self.items@.map_values(|r: ItemRow| r.row_view()),
            self@.events == self.events@,
    {
    }

    /// A store that holds nothing.
    pub fn new() -> (store: Store)
        ensures
            store@ == StoreView::empty(),
            store.wf(),
    {
        let store = Store { accounts: Vec::new(), items: Vec::new(), events: Vec::new() };
        assert(store@.accounts =~= Seq::empty());
        assert(store@.items =~= Seq::empty());
        store
    }

    /// The state that the task's latest event gave it.
    pub fn state_of(&self, item_uid: Uid) -> (state: Option<ItemState>)
        ensures
            state == current_state(self@.events, item_uid),
    {
        let mut latest: Option<usize> = None;
        let mut k: usize = 0;
        while k < self.events.len()
            invariant
                k <= self.events.len(),
                match latest {
                    Some(i) => latest_event(self.events@.take(k as int), item_uid) == Some(
                        i as int,
                    ) && i < k,
                    None => latest_event(self.events@.take(k as int), item_uid) is None,
                },
            decreases self.events.len() - k,
        {
            proof {
                assert(self.events@.take(k + 1).drop_last() == self.events@.take(k as int));
            }
            if self.events[k].item_uid == item_uid {
                let occurred_at = self.events[k].occurred_at;
                latest =
                match latest {
                    Some(i) if occurred_at.is_before(&self.events[i].occurred_at) => Some(i),
                    _ => Some(k),
                };
            }
            k += 1;
        }
        proof {
            assert(self.events@.take(k as int) == self.events@);
        }
        match latest {
            Some(i) => Some(self.events[i].state),
            None => None,
        }
    }

    /// The account that the task belongs to, if the task exists.
    pub fn owner_of(&self, item_uid: Uid) -> (owner: Option<Uid>)
        ensures
            owner is Some <==> self@.has_item(item_uid),
            owner matches Some(account_uid) ==> self@.owned_by(item_uid, account_uid),
    {
        let mut i: usize = 0;
        while i < self.items.len()
            invariant
                i <= self.items.len(),
                forall|j: int| 0 <= j < i ==> (#[trigger] self@.items[j]).item_uid != item_uid,
                self@.items.len() == self.items.len(),
            decreases self.items.len() - i,
        {
            if self.items[i].item_uid == item_uid {
                assert(self@.items[i as int].item_uid == item_uid);
                assert(self@.items[i as int].account_uid == self.items[i as int].account_uid);
                return Some(self.items[i].account_uid);
            }
            assert(self@.items[i as int].item_uid != item_uid);
            i += 1;
        }
        None
    }

    /// Whether an account with this identity exists.
    pub fn has_account(&self, account_uid: Uid) -> (found: bool)
        ensures
            found == self@.has_account(account_uid),
    {
        let mut i: usize = 0;
        while i < self.accounts.len()
            invariant
                i <= self.accounts.len(),
                forall|j: int|
                    0 <= j < i ==> (#[trigger] self@.accounts[j]).account_uid != account_uid,
                self@.accounts.len() == self.accounts.len(),
            decreases self.accounts.len() - i,
        {
            if self.accounts[i].account_uid == account_uid {
                assert(self@.accounts[i as int].account_uid == account_uid);
                return true;
            }
            assert(self@.accounts[i as int].account_uid != account_uid);
            i += 1;
        }
        false
    }
}

/// Lists what the account sees of the tasks created on `date`: one row per
/// task that belongs to the account and is not deleted, with the state
/// that its latest event gave it, in the order in which the tasks were
/// created. Reads only.
pub fn select_items(store: &Store, account_uid: Uid, date: Date) -> (items: Vec<Item>)
    ensures
        items_view(items@) == store@.listing(account_uid, date),
{
    let mut items: Vec<Item> = Vec::new();
    let mut i: usize = 0;
    while i < store.items.len()
        invariant
            i <= store.items.len(),
            store@.items.len() == store.items.len(),
            items_view(items@) == listing(
                store@.items.take(i as int),
                store@.events,
                account_uid,
                date,
            ),
        decreases store.items.len() - i,
    {
        proof {
            assert(store@.items.take(i + 1).drop_last() == store@.items.take(i as int));
            assert(store@.items.take(i + 1).last() == store.items[i as int].row_view());
        }
        let row = &store.items[i];
        if row.account_uid == account_uid && row.created_at.date() == date {
            match store.state_of(row.item_uid) {
                Some(ItemState::Checked) => {
                    let ghost before = items_view(items@);
                    items.push(
                        Item {
                            item_uid: row.item_uid,
                            content: Content(row.content.clone()),
                            state: ItemState::Checked,
                        },
                    );
                    assert(items_view(items@) == before.push(
                        shown(row.row_view(), store@.events),
                    ));
                },
                Some(ItemState::Unchecked) => {
                    let ghost before = items_view(items@);
                    items.push(
                        Item {
                            item_uid: row.item_uid,
                            content: Content(row.content.clone()),
                            state: ItemState::Unchecked,
                        },
                    );
                    assert(items_view(items@) == before.push(
                        shown(row.row_view(), store@.events),
                    ));
                },
                _ => {},
            }
        }
        i += 1;
    }
    proof {
        assert(store@.items.take(i as int) == store@.items);
    }
    items
}

/// Writes a task and its first event, `Unchecked` at the time of creation,
/// as one unit: both are written or neither is. The write is refused, and
/// the store left as it was, where no account has the identity
/// `account_uid` or a task with the identity `item_uid` exists already.
pub fn create_item(
    store: &mut Store,
    account_uid: Uid,
    item_uid: Uid,
    content: &str,
    created_at: Timestamp,
) -> (result: Result<(), ServerError>)
    requires
        old(store).wf(),
    ensures
        final(store).wf(),
        result is Ok <==> old(store)@.has_account(account_uid) && !old(store)@.has_item(item_uid),
        result is Ok ==> final(store)@ == old(store)@.with_item(
            ItemRowView { item_uid, account_uid, content: content@, created_at },
        ),
        result is Err ==> result == Err::<(), ServerError>(ServerError::StoreError) && final(store)@
            == old(store)@,
{
    if !store.has_account(account_uid) || store.owner_of(item_uid).is_some() {
        return Err(ServerError::StoreError);
    }
    let row = ItemRow { item_uid, account_uid, content: content.to_owned(), created_at };
    let event = ItemEvent { item_uid, state: ItemState::Unchecked, occurred_at: created_at };
    let ghost before = store@;
    store.items.push(row);
    store.events.push(event);
    proof {
        let after = before.with_item(row.row_view());
        assert(store@.items =~= after.items);
        assert(store@.accounts =~= after.accounts);
        assert(store@ == after);
        lemma_with_item_keeps_wf(before, row.row_view());
    }
    Ok(())
}

/// Creates a task under a fresh random identity and returns the identity.
/// Fails, with the store left as it was, where the account does not exist
/// or the identity drawn is taken.
pub fn create_task(
    store: &mut Store,
    account_uid: Uid,
    content: &str,
    created_at: Timestamp,
) -> (result: Result<Uid, ServerError>)
    requires
        old(store).wf(),
    ensures
        final(store).wf(),
        !old(store)@.has_account(account_uid) ==> result is Err,
        match result {
            Ok(item_uid) => old(store)@.has_account(account_uid) && !old(store)@.has_item(
                item_uid,
            ) && final(store)@ == old(store)@.with_item(
                ItemRowView { item_uid, account_uid, content: content@, created_at },
            ),
            Err(e) => e == ServerError::StoreError && final(store)@ == old(store)@,
        },
{
    let item_uid = random_uid();
    match create_item(store, account_uid, item_uid, content, created_at) {
        Ok(()) => Ok(item_uid),
        Err(e) => Err(e),
    }
}

/// Appends a state transition to the event log, on behalf of
/// `account_uid`. A task that does not exist gives `NotFound`, a task of
/// another account `Forbidden`; either way the store stays as it was.
/// This is the only way in which a task changes.
pub fn append_event(
    store: &mut Store,
    account_uid: Uid,
    item_uid: Uid,
    state: ItemState,
    occurred_at: Timestamp,
) -> (result: Result<(), ServerError>)
    requires
        old(store).wf(),
    ensures
        final(store).wf(),
        result == append_outcome(old(store)@, account_uid, item_uid),
        final(store)@ == appended(
            old(store)@,
            account_uid,
            ItemEvent { item_uid, state, occurred_at },
        ),
{
    match store.owner_of(item_uid) {
        None => Err(ServerError::NotFound),
        Some(owner) => {
            proof {
                lemma_owner_is_unique(store@, item_uid, owner, account_uid);
            }
            if owner == account_uid {
                let ghost before = store@;
                let event = ItemEvent { item_uid, state, occurred_at };
                store.events.push(event);
                proof {
                    assert(store@.items =~= before.items);
                    assert(store@.accounts =~= before.accounts);
                    assert(store@ == before.with_event(event));
                    lemma_with_event_keeps_wf(before, event);
                }
                Ok(())
            } else {
                Err(ServerError::Forbidden)
            }
        },
    }
}

/// Appends a state transition that occurs now, by the clock. As
/// `append_event`, with the time of the call in the event.
pub fn update_item(
    store: &mut Store,
    account_uid: Uid,
    item_uid: Uid,
    state: ItemState,
) -> (result: Result<(), ServerError>)
    requires
        old(store).wf(),
    ensures
        final(store).wf(),
        result == append_outcome(old(store)@, account_uid, item_uid),
        result is Ok ==> final(store)@.events.len() > 0 && final(store)@ == old(store)@.with_event(
            ItemEvent { item_uid, state, occurred_at: final(store)@.events.last().occurred_at },
        ),
        result is Err ==> final(store)@ == old(store)@,
{
    let now = current_timestamp();
    append_event(store, account_uid, item_uid, state, now)
}

/// Whether the account may append an event to the task: `NotFound` where
/// the task does not exist, `Forbidden` where it belongs to another
/// account.
pub open spec fn append_outcome(store: StoreView, account_uid: Uid, item_uid: Uid) -> Result<
    (),
    ServerError,
> {
    if !store.has_item(item_uid) {
        Err(ServerError::NotFound)
    } else if !store.owned_by(item_uid, account_uid) {
        Err(ServerError::Forbidden)
    } else {
        Ok(())
    }
}

/// The store after the account tried to append the event: with the event
/// at the end of the log where the account owns the task, as it was
/// otherwise.
pub open spec fn appended(store: StoreView, account_uid: Uid, event: ItemEvent) -> StoreView {
    if append_outcome(store, account_uid, event.item_uid) is Ok {
        store.with_event(event)
    } else {
        store
    }
}

/// An account that does not own a task cannot change it: its attempt is
/// refused, and every listing, the owner's too, stays as it was.
pub proof fn stranger_changes_nothing(
    store: StoreView,
    account_uid: Uid,
    event: ItemEvent,
    owner: Uid,
    date: Date,
)
    requires
        !store.owned_by(event.item_uid, account_uid),
    ensures
        append_outcome(store, account_uid, event.item_uid) is Err,
        appended(store, account_uid, event) == store,
        appended(store, account_uid, event).listing(owner, date) == store.listing(owner, date),
{
    if store.has_item(event.item_uid) {
    } else {
        assert(!store.owned_by(event.item_uid, account_uid));
    }
}

/// A task belongs to one account only.
pub proof fn lemma_owner_is_unique(store: StoreView, item_uid: Uid, a: Uid, b: Uid)
    requires
        store.wf(),
        store.owned_by(item_uid, a),
    ensures
        store.owned_by(item_uid, b) <==> a == b,
{
    if store.owned_by(item_uid, b) {
        let i = choose|i: int|
            0 <= i < store.items.len() && (#[trigger] store.items[i]).item_uid == item_uid
                && store.items[i].account_uid == a;
        let j = choose|j: int|
            0 <= j < store.items.len() && (#[trigger] store.items[j]).item_uid == item_uid
                && store.items[j].account_uid == b;
        if i < j {
            assert(store.items[i].item_uid != store.items[j].item_uid);
        } else if j < i {
            assert(store.items[j].item_uid != store.items[i].item_uid);
        }
    }
}

/// Appending an event of an existing task keeps the invariant.
pub proof fn lemma_with_event_keeps_wf(store: StoreView, event: ItemEvent)
    requires
        store.wf(),
        store.has_item(event.item_uid),
    ensures
        store.with_event(event).wf(),
{
    let after = store.with_event(event);
    assert forall|i: int| 0 <= i < after.items.len() implies has_event(
        after.events,
        (#[trigger] after.items[i]).item_uid,
    ) by {
        let k = choose|k: int|
            0 <= k < store.events.len() && (#[trigger] store.events[k]).item_uid
                == store.items[i].item_uid;
        assert(after.events[k].item_uid == after.items[i].item_uid);
    }
    assert forall|k: int| 0 <= k < after.events.len() implies after.has_item(
        (#[trigger] after.events[k]).item_uid,
    ) by {
        let uid = after.events[k].item_uid;
        if k < store.events.len() {
            assert(store.has_item(store.events[k].item_uid));
        }
        let i = choose|i: int|
            0 <= i < store.items.len() && (#[trigger] store.items[i]).item_uid == uid;
        assert(after.items[i].item_uid == uid);
    }
    assert forall|i: int| 0 <= i < after.items.len() implies after.has_account(
        (#[trigger] after.items[i]).account_uid,
    ) by {
        assert(store.has_account(store.items[i].account_uid));
        let a = choose|a: int|
            0 <= a < store.accounts.len() && (#[trigger] store.accounts[a]).account_uid
                == store.items[i].account_uid;
        assert(after.accounts[a].account_uid == after.items[i].account_uid);
    }
}

/// Writing a new task of an existing account, with its first event, keeps
/// the invariant.
pub proof fn lemma_with_item_keeps_wf(store: StoreView, row: ItemRowView)
    requires
        store.wf(),
        store.has_account(row.account_uid),
        !store.has_item(row.item_uid),
    ensures
        store.with_item(row).wf(),
{
    let after = store.with_item(row);
    let n = store.items.len() as int;
    let m = store.events.len() as int;
    assert forall|i: int| 0 <= i < after.items.len() implies has_event(
        after.events,
        (#[trigger] after.items[i]).item_uid,
    ) by {
        if i < n {
            let k = choose|k: int|
                0 <= k < store.events.len() && (#[trigger] store.events[k]).item_uid
                    == store.items[i].item_uid;
            assert(after.events[k].item_uid == after.items[i].item_uid);
        } else {
            assert(after.events[m].item_uid == row.item_uid);
        }
    }
    assert forall|k: int| 0 <= k < after.events.len() implies after.has_item(
        (#[trigger] after.events[k]).item_uid,
    ) by {
        if k < m {
            let i = choose|i: int|
                0 <= i < store.items.len() && (#[trigger] store.items[i]).item_uid
                    == store.events[k].item_uid;
            assert(after.items[i].item_uid == after.events[k].item_uid);
        } else {
            assert(after.items[n].item_uid == row.item_uid);
        }
    }
    assert forall|i: int, j: int| 0 <= i < j < after.items.len() implies (
    #[trigger] after.items[i]).item_uid != (#[trigger] after.items[j]).item_uid by {
        if j == n {
            assert(store.items[i].item_uid != row.item_uid);
        }
    }
    assert forall|i: int| 0 <= i < after.items.len() implies after.has_account(
        (#[trigger] after.items[i]).account_uid,
    ) by {
        if i < n {
            assert(store.has_account(store.items[i].account_uid));
        }
        let a = choose|a: int|
            0 <= a < store.accounts.len() && (#[trigger] store.accounts[a]).account_uid
                == after.items[i].account_uid;
        assert(after.accounts[a].account_uid == after.items[i].account_uid);
    }
}

/// No listing leaks across accounts: every task in the listing of an
/// account belongs to that account, and to no other.
pub proof fn listing_holds_only_own_tasks(store: StoreView, account_uid: Uid, date: Date, k: int)
    requires
        store.wf(),
        0 <= k < store.listing(account_uid, date).len(),
    ensures
        store.owned_by(store.listing(account_uid, date)[k].item_uid, account_uid),
        forall|other: Uid|
            other != account_uid ==> !#[trigger] store.owned_by(
                store.listing(account_uid, date)[k].item_uid,
                other,
            ),
{
    let entry = store.listing(account_uid, date)[k];
    lemma_listing_members(store.items, store.events, account_uid, date);
    assert(shows_listed_task(store.items, store.events, account_uid, date, entry));
    let i = choose|i: int|
        0 <= i < store.items.len() && listed(
            #[trigger] store.items[i],
            store.events,
            account_uid,
            date,
        ) && entry == shown(store.items[i], store.events);
    assert(store.items[i].item_uid == entry.item_uid);
    assert(store.owned_by(entry.item_uid, account_uid));
    assert forall|other: Uid| other != account_uid implies !#[trigger] store.owned_by(
        entry.item_uid,
        other,
    ) by {
        lemma_owner_is_unique(store, entry.item_uid, account_uid, other);
    }
}

/// A listing shows each task once, with the state that the task's latest
/// event gave it; a task whose latest event is `Deleted` is in no listing,
/// of any account and for any day.
pub proof fn listing_shows_current_state(store: StoreView, account_uid: Uid, date: Date, k: int)
    requires
        store.wf(),
        0 <= k < store.listing(account_uid, date).len(),
    ensures
        current_state(store.events, store.listing(account_uid, date)[k].item_uid) == Some(
            store.listing(account_uid, date)[k].state,
        ),
        store.listing(account_uid, date)[k].state != ItemState::Deleted,
        forall|l: int|
            0 <= l < store.listing(account_uid, date).len() && l != k ==> (
            #[trigger] store.listing(account_uid, date)[l]).item_uid != store.listing(
                account_uid,
                date,
            )[k].item_uid,
{
    let all = store.listing(account_uid, date);
    lemma_listing_members(store.items, store.events, account_uid, date);
    assert(shows_listed_task(store.items, store.events, account_uid, date, all[k]));
    lemma_listing_shows_each_task_once(store.items, store.events, account_uid, date);
    assert forall|l: int| 0 <= l < all.len() && l != k implies (#[trigger] all[l]).item_uid
        != all[k].item_uid by {
        if l < k {
            assert(all[l].item_uid != all[k].item_uid);
        } else {
            assert(all[k].item_uid != all[l].item_uid);
        }
    }
}

/// After an event was appended that is no earlier than any event of its
/// task, a listing shows the task in the state of that event and in no
/// earlier one.
pub proof fn listing_shows_last_appended_state(
    store: StoreView,
    event: ItemEvent,
    account_uid: Uid,
    date: Date,
    k: int,
)
    requires
        forall|j: int|
            0 <= j < store.events.len() && (#[trigger] store.events[j]).item_uid == event.item_uid
                ==> !event.occurred_at.before(store.events[j].occurred_at),
        0 <= k < store.with_event(event).listing(account_uid, date).len(),
        store.with_event(event).listing(account_uid, date)[k].item_uid == event.item_uid,
    ensures
        store.with_event(event).listing(account_uid, date)[k].state == event.state,
{
    let after = store.with_event(event);
    lemma_appended_event_is_latest(store.events, event);
    lemma_listing_members(after.items, after.events, account_uid, date);
    assert(shows_listed_task(
        after.items,
        after.events,
        account_uid,
        date,
        after.listing(account_uid, date)[k],
    ));
}

/// In a log whose events of a task occur in the order of their insertion,
/// the task's state is that of the event inserted last, however many
/// events went before.
pub proof fn last_inserted_event_decides(events: Seq<ItemEvent>, item_uid: Uid, last: int)
    requires
        0 <= last < events.len(),
        events[last].item_uid == item_uid,
        forall|j: int| last < j < events.len() ==> (#[trigger] events[j]).item_uid != item_uid,
        forall|i: int, j: int|
            0 <= i < j < events.len() && (#[trigger] events[i]).item_uid == item_uid && (
            #[trigger] events[j]).item_uid == item_uid ==> !events[j].occurred_at.before(
                events[i].occurred_at,
            ),
    ensures
        current_state(events, item_uid) == Some(events[last].state),
{
    lemma_latest_event(events, item_uid);
    let i = latest_event(events, item_uid).unwrap();
    assert(is_latest(events, item_uid, i));
    if i != last {
        assert(events[last].item_uid == item_uid);
        assert(!events[last].occurred_at.before(events[i].occurred_at));
    }
}

/// An event of one account's task changes no listing of another account:
/// what an account sees depends on its own tasks alone.
pub proof fn event_changes_no_other_listing(
    store: StoreView,
    event: ItemEvent,
    owner: Uid,
    account_uid: Uid,
    date: Date,
)
    requires
        store.wf(),
        store.owned_by(event.item_uid, owner),
        owner != account_uid,
    ensures
        store.with_event(event).listing(account_uid, date) == store.listing(account_uid, date),
{
    let after = store.with_event(event);
    assert forall|i: int|
        0 <= i < store.items.len() && (#[trigger] store.items[i]).account_uid
            == account_uid implies current_state(store.events, store.items[i].item_uid)
        == current_state(after.events, store.items[i].item_uid) by {
        if store.items[i].item_uid == event.item_uid {
            assert(store.owned_by(event.item_uid, account_uid));
            lemma_owner_is_unique(store, event.item_uid, owner, account_uid);
        }
        lemma_other_tasks_keep_state(store.events, event, store.items[i].item_uid);
    }
    lemma_listing_reads_own_states(store.items, store.events, after.events, account_uid, date);
}

/// A new task of one account changes no listing of another account.
pub proof fn item_changes_no_other_listing(
    store: StoreView,
    row: ItemRowView,
    account_uid: Uid,
    date: Date,
)
    requires
        !store.has_item(row.item_uid),
        row.account_uid != account_uid,
    ensures
        store.with_item(row).listing(account_uid, date) == store.listing(account_uid, date),
{
    let after = store.with_item(row);
    let first = ItemEvent {
        item_uid: row.item_uid,
        state: ItemState::Unchecked,
        occurred_at: row.created_at,
    };
    assert(after.items.drop_last() == store.items);
    assert forall|i: int| 0 <= i < store.items.len() implies current_state(
        store.events,
        (#[trigger] store.items[i]).item_uid,
    ) == current_state(after.events, store.items[i].item_uid) by {
        lemma_other_tasks_keep_state(store.events, first, store.items[i].item_uid);
    }
    lemma_listing_reads_own_states(store.items, store.events, after.events, account_uid, date);
}

} // verus!
