//! The request paths: the per-account cache of the grouped view in front
//! of the store, and the reads and writes that keep the two consistent.

use vstd::prelude::*;

use crate::error::ServerError;
use crate::persistence::account::{
    account_view, create_outcome, fetch_account_by_email, lowercase, register, verify,
    written_account_logs_in, Account, AccountView, EmailAddress,
};
use crate::persistence::{
    append_event, append_outcome, appended, create_task, event_changes_no_other_listing,
    item_changes_no_other_listing, select_items, ItemEvent, ItemRowView, ItemState, Store,
    StoreView,
};
use crate::templates::{grouped, IndexContext, IndexContextView};
use crate::time::{current_timestamp, Date, Timestamp};
use crate::uid::Uid;

verus! {

/// Makes `moka::sync::Cache` known as a type. What a cache holds is
/// spoken of through `cached` alone.
#[verifier::external_type_specification]
#[verifier::external_body]
#[verifier::reject_recursive_types(K)]
#[verifier::reject_recursive_types(V)]
#[verifier::reject_recursive_types(S)]
pub struct ExCache<K, V, S>(moka::sync::Cache<K, V, S>);

/// The entries that a `moka::sync::Cache` holds: the values that `get`
/// would hand out, by key.
pub uninterp spec fn cached(cache: moka::sync::Cache<u128, IndexContext>) -> Map<
    u128,
    IndexContextView,
>;

/// No entries.
pub open spec fn empty_entries() -> Map<u128, IndexContextView> {
    Map::empty()
}

/// Builds a cache with `moka::sync::Cache::builder`, bounded by
/// `max_capacity` entries and evicting the least recently used. A new cache
/// holds nothing.
#[verifier::external_body]
fn cache_new(max_capacity: u64) -> (cache: moka::sync::Cache<u128, IndexContext>)
    ensures
        cached(cache) == empty_entries(),
{
    moka::sync::Cache::builder().max_capacity(max_capacity).eviction_policy(
        moka::policy::EvictionPolicy::lru(),
    ).build()
}

/// Calls `moka::sync::Cache::get`, which hands out a clone of the value
/// held for the key, or `None` where it holds none. The call may let the
/// cache evict entries, so afterwards it holds some of what it held.
#[verifier::external_body]
fn cache_get(cache: &mut moka::sync::Cache<u128, IndexContext>, key: u128) -> (value: Option<
    IndexContext,
>)
    ensures
        match value {
            Some(v) => cached(*old(cache)).contains_key(key) && cached(*old(cache))[key] == v@,
            None => !cached(*old(cache)).contains_key(key),
        },
        cached(*final(cache)).submap_of(cached(*old(cache))),
{
    cache.get(&key)
}

/// Calls `moka::sync::Cache::insert`, which puts the value under the key in
/// place of any other. The cache may decline the entry or evict entries to
/// stay in its bound, so afterwards it holds some of what it held and,
/// under the key, nothing or the new value.
#[verifier::external_body]
fn cache_insert(cache: &mut moka::sync::Cache<u128, IndexContext>, key: u128, value: IndexContext)
    ensures
        cached(*final(cache)).submap_of(cached(*old(cache)).insert(key, value@)),
{
    cache.insert(key, value)
}

/// Calls `moka::sync::Cache::invalidate`, which discards the value held for
/// the key, if any, before it returns.
#[verifier::external_body]
fn cache_invalidate(cache: &mut moka::sync::Cache<u128, IndexContext>, key: u128)
    ensures
        cached(*final(cache)).submap_of(cached(*old(cache)).remove(key)),
{
    cache.invalidate(&key)
}

/// The bounded cache of grouped views, one entry per account.
pub struct IndexCache {
    inner: moka::sync::Cache<u128, IndexContext>,
}

impl IndexCache {
    /// The views that the cache holds, by the number of the account's
    /// identity.
    pub closed spec fn entries(&self) -> Map<u128, IndexContextView> {
        cached(self.inner)
    }

    /// A cache that holds nothing and will hold at most `max_capacity`
    /// views.
    pub fn new(max_capacity: u64) -> (cache: IndexCache)
        ensures
            cache.entries() == empty_entries(),
    {
        IndexCache { inner: cache_new(max_capacity) }
    }

    /// The view of the account: the one held, where one is held; otherwise
    /// one that `build` makes, which is then offered to the cache. No other
    /// account's entry is added or changed.
    pub fn get_or_build<F: FnOnce() -> IndexContext>(
        &mut self,
        account_uid: Uid,
        build: F,
    ) -> (view: IndexContext)
        requires
            build.requires(()),
        ensures
            served(old(self).entries(), account_uid, build, view),
            final(self).entries().submap_of(old(self).entries().insert(account_uid.0, view@)),
    {
        let ghost before = self.entries();
        match cache_get(&mut self.inner, account_uid.0) {
            Some(view) => {
                proof {
                    lemma_submap_of_same(self.entries(), before, account_uid.0, view@);
                }
                view
            },
            None => {
                let ghost held = self.entries();
                let view = build();
                cache_insert(&mut self.inner, account_uid.0, view.duplicate());
                proof {
                    lemma_submap_of_insert(self.entries(), held, before, account_uid.0, view@);
                }
                view
            },
        }
    }

    /// Removes the account's entry, if there is one. No entry is added or
    /// changed.
    pub fn invalidate(&mut self, account_uid: Uid)
        ensures
            dropped(old(self).entries(), final(self).entries(), account_uid),
    {
        cache_invalidate(&mut self.inner, account_uid.0)
    }
}

/// What `get_or_build` hands out, given what the cache held: the view held
/// for the account, or else a view that `build` made.
pub open spec fn served<F: FnOnce() -> IndexContext>(
    entries: Map<u128, IndexContextView>,
    account_uid: Uid,
    build: F,
    view: IndexContext,
) -> bool {
    if entries.contains_key(account_uid.0) {
        view@ == entries[account_uid.0]
    } else {
        build.ensures((), view)
    }
}

/// What `invalidate` leaves of the entries: nothing under the account, and
/// elsewhere nothing that was not there.
pub open spec fn dropped(
    before: Map<u128, IndexContextView>,
    after: Map<u128, IndexContextView>,
    account_uid: Uid,
) -> bool {
    after.submap_of(before.remove(account_uid.0))
}

/// After an account's entry was invalidated, the next `get_or_build` for
/// the account hands out what `build` makes, never what was held before,
/// whatever was served to other accounts in between.
pub proof fn invalidated_view_is_rebuilt<F: FnOnce() -> IndexContext>(
    before: Map<u128, IndexContextView>,
    after: Map<u128, IndexContextView>,
    later: Map<u128, IndexContextView>,
    account_uid: Uid,
    build: F,
    view: IndexContext,
)
    requires
        dropped(before, after, account_uid),
        forall|key: u128|
            #[trigger] later.contains_key(key) && !after.contains_key(key) ==> key != account_uid.0,
        served(later, account_uid, build, view),
    ensures
        build.ensures((), view),
{
    assert(!before.remove(account_uid.0).contains_key(account_uid.0));
    assert(!after.contains_key(account_uid.0));
    assert(!later.contains_key(account_uid.0));
}

/// Whether every view held is the grouping of what the store now lists
/// for its account and the day: no entry has missed a write, and none is of
/// another day.
pub open spec fn coherent(
    store: StoreView,
    entries: Map<u128, IndexContextView>,
    date: Option<Date>,
) -> bool {
    match date {
        Some(day) => forall|key: u128| #[trigger]
            entries.contains_key(key) ==> entries[key] == grouped(store.listing(Uid(key), day)),
        None => entries == empty_entries(),
    }
}

/// The store and the cache in front of it.
pub struct ApplicationState {
    store: Store,
    index_cache: IndexCache,
    cached_date: Option<Date>,
    max_capacity: u64,
}

impl ApplicationState {
    /// What the store holds.
    pub closed spec fn store(&self) -> StoreView {
        self.store@
    }

    /// The views that the cache holds.
    pub closed spec fn entries(&self) -> Map<u128, IndexContextView> {
        self.index_cache.entries()
    }

    /// The day for which the views held were built, once one was built.
    pub closed spec fn cached_date(&self) -> Option<Date> {
        self.cached_date
    }

    /// The store's invariant holds, and every view held is what the store
    /// now lists for its account and the day of the cache.
    pub open spec fn wf(&self) -> bool {
        self.store().wf() && coherent(self.store(), self.entries(), self.cached_date())
    }

    /// An empty store behind an empty cache of at most `max_capacity`
    /// views.
    pub fn new(max_capacity: u64) -> (state: ApplicationState)
        ensures
            state.wf(),
            state.store() == StoreView::empty(),
            state.entries() == empty_entries(),
    {
        ApplicationState {
            store: Store::new(),
            index_cache: IndexCache::new(max_capacity),
            cached_date: None,
            max_capacity,
        }
    }

    /// The given store behind an empty cache of at most `max_capacity`
    /// views.
    pub fn from_store(store: Store, max_capacity: u64) -> (state: ApplicationState)
        requires
            store.wf(),
        ensures
            state.wf(),
            state.store() == store@,
            state.entries() == empty_entries(),
    {
        ApplicationState {
            store,
            index_cache: IndexCache::new(max_capacity),
            cached_date: None,
            max_capacity,
        }
    }

    /// Registers an account, as `register` does. No listing changes, so
    /// the cache stays as it is.
    pub fn register(&mut self, email: &str, raw_password: &str) -> (result: Result<
        Uid,
        ServerError,
    >)
        requires
            old(self).wf(),
        ensures
            final(self).wf(),
            final(self).entries() == old(self).entries(),
            final(self).cached_date() == old(self).cached_date(),
            old(self).store().has_email(lowercase(email@)) ==> result == Err::<Uid, ServerError>(
                ServerError::DuplicateEmail,
            ),
            match result {
                Ok(account_uid) => {
                    &&& create_outcome(old(self).store(), account_uid, lowercase(email@)) is Ok
                    &&& final(self).store().accounts.len() > 0
                    &&& final(self).store() == old(self).store().with_account(
                        AccountView {
                            account_uid,
                            email_address: lowercase(email@),
                            password: final(self).store().accounts.last().password,
                        },
                    )
                    &&& final(self).store().login(lowercase(email@), raw_password@) == Some(
                        account_uid,
                    )
                },
                Err(e) => {
                    &&& final(self).store() == old(self).store()
                    &&& e == ServerError::DuplicateEmail || e == ServerError::HashingFailure || e
                        == ServerError::StoreError
                    &&& e == ServerError::DuplicateEmail <==> old(self).store().has_email(
                        lowercase(email@),
                    )
                },
            },
    {
        let ghost before = self.store@;
        let result = register(&mut self.store, email, raw_password);
        proof {
            if result is Ok {
                written_account_logs_in(before, self.store@.accounts.last(), raw_password@);
            }
            if let Some(day) = self.cached_date {
                assert forall|key: u128| #[trigger]
                    self.entries().contains_key(key) implies self.entries()[key] == grouped(
                    self.store@.listing(Uid(key), day),
                ) by {
                    assert(self.store@.listing(Uid(key), day) == before.listing(Uid(key), day));
                }
            }
        }
        result
    }

    /// Checks a login, as `verify` does.
    pub fn login(&self, email: &str, raw_password: &str) -> (account_uid: Option<Uid>)
        requires
            self.wf(),
        ensures
            account_uid == self.store().login(lowercase(email@), raw_password@),
    {
        verify(&self.store, email, raw_password)
    }

    /// The account with the address, normalised, if there is one.
    pub fn fetch_account(&self, email: &str) -> (account: Option<Account>)
        requires
            self.wf(),
        ensures
            account_view(account) == self.store().account_by_email(lowercase(email@)),
    {
        fetch_account_by_email(&self.store, EmailAddress::from(email))
    }

    /// The index of an account for a day: the grouping of what the store
    /// lists for the account and the day. It is served from the cache where
    /// the cache holds it, and built from the store and offered to the
    /// cache where not; the answer is the same either way. Views of
    /// another day are dropped first. The store is only read.
    pub fn templated(&mut self, account_uid: Uid, date: Date) -> (view: IndexContext)
        requires
            old(self).wf(),
        ensures
            final(self).wf(),
            final(self).store() == old(self).store(),
            final(self).cached_date() == Some(date),
            view@ == grouped(old(self).store().listing(account_uid, date)),
            final(self).entries().submap_of(
                kept_for(old(self).entries(), old(self).cached_date(), date).insert(
                    account_uid.0,
                    view@,
                ),
            ),
    {
        let same_day = match self.cached_date {
            Some(day) => day == date,
            None => false,
        };
        if !same_day {
            self.index_cache = IndexCache::new(self.max_capacity);
            self.cached_date = Some(date);
        }
        let store = &self.store;
        let ghost listed = store@.listing(account_uid, date);
        let build = || -> (built: IndexContext)
            ensures
                built@ == grouped(listed),
            { IndexContext::from(select_items(store, account_uid, date)) };
        let ghost before = self.index_cache.entries();
        let view = self.index_cache.get_or_build(account_uid, build);
        proof {
            let after = self.index_cache.entries();
            let offered = before.insert(account_uid.0, view@);
            assert forall|key: u128| #[trigger] after.contains_key(key) implies after[key]
                == grouped(self.store@.listing(Uid(key), date)) by {
                assert(after.dom().contains(key));
                assert(offered.dom().contains(key));
                assert(after[key] == offered[key]);
                if key != account_uid.0 {
                    assert(before.contains_key(key));
                }
            }
        }
        view
    }

    /// Creates a task for the account, as `create_task` does, and on
    /// success removes the account's view from the cache before it
    /// returns, so that the account's next index is built afresh. On
    /// failure store and cache stay as they were.
    pub fn add_item(
        &mut self,
        account_uid: Uid,
        content: &str,
        created_at: Timestamp,
    ) -> (result: Result<Uid, ServerError>)
        requires
            old(self).wf(),
        ensures
            final(self).wf(),
            final(self).cached_date() == old(self).cached_date(),
            !old(self).store().has_account(account_uid) ==> result is Err,
            match result {
                Ok(item_uid) => {
                    &&& old(self).store().has_account(account_uid)
                    &&& !old(self).store().has_item(item_uid)
                    &&& final(self).store() == old(self).store().with_item(
                        ItemRowView { item_uid, account_uid, content: content@, created_at },
                    )
                    &&& dropped(old(self).entries(), final(self).entries(), account_uid)
                },
                Err(e) => {
                    &&& e == ServerError::StoreError
                    &&& final(self).store() == old(self).store()
                    &&& final(self).entries() == old(self).entries()
                },
            },
    {
        let ghost before = self.store@;
        let ghost held = self.index_cache.entries();
        match create_task(&mut self.store, account_uid, content, created_at) {
            Ok(item_uid) => {
                self.index_cache.invalidate(account_uid);
                proof {
                    let row = ItemRowView { item_uid, account_uid, content: content@, created_at };
                    let after = self.index_cache.entries();
                    match self.cached_date {
                        Some(day) => {
                            assert forall|key: u128| #[trigger]
                                after.contains_key(key) implies after[key] == grouped(
                                self.store@.listing(Uid(key), day),
                            ) by {
                                lemma_kept_entry(held, after, account_uid, key);
                                item_changes_no_other_listing(before, row, Uid(key), day);
                            }
                        },
                        None => {
                            lemma_nothing_kept(held, after, account_uid);
                        },
                    }
                }
                Ok(item_uid)
            },
            Err(e) => Err(e),
        }
    }

    /// Appends a state transition that occurs at `occurred_at`, as
    /// `append_event` does, and on success removes the account's view from
    /// the cache before it returns. A refused transition invalidates
    /// nothing: store and cache stay as they were.
    pub fn update_item_at(
        &mut self,
        account_uid: Uid,
        item_uid: Uid,
        state: ItemState,
        occurred_at: Timestamp,
    ) -> (result: Result<(), ServerError>)
        requires
            old(self).wf(),
        ensures
            final(self).wf(),
            final(self).cached_date() == old(self).cached_date(),
            result == append_outcome(old(self).store(), account_uid, item_uid),
            final(self).store() == appended(
                old(self).store(),
                account_uid,
                ItemEvent { item_uid, state, occurred_at },
            ),
            result is Ok ==> dropped(old(self).entries(), final(self).entries(), account_uid),
            result is Err ==> final(self).entries() == old(self).entries(),
    {
        let ghost before = self.store@;
        let ghost held = self.index_cache.entries();
        match append_event(&mut self.store, account_uid, item_uid, state, occurred_at) {
            Ok(()) => {
                self.index_cache.invalidate(account_uid);
                proof {
                    let event = ItemEvent { item_uid, state, occurred_at };
                    let after = self.index_cache.entries();
                    match self.cached_date {
                        Some(day) => {
                            assert forall|key: u128| #[trigger]
                                after.contains_key(key) implies after[key] == grouped(
                                self.store@.listing(Uid(key), day),
                            ) by {
                                lemma_kept_entry(held, after, account_uid, key);
                                event_changes_no_other_listing(
                                    before,
                                    event,
                                    account_uid,
                                    Uid(key),
                                    day,
                                );
                            }
                        },
                        None => {
                            lemma_nothing_kept(held, after, account_uid);
                        },
                    }
                }
                Ok(())
            },
            Err(e) => Err(e),
        }
    }

    /// Appends a state transition that occurs now, by the clock. As
    /// `update_item_at`, with the time of the call in the event.
    pub fn update_item(
        &mut self,
        account_uid: Uid,
        item_uid: Uid,
        state: ItemState,
    ) -> (result: Result<(), ServerError>)
        requires
            old(self).wf(),
        ensures
            final(self).wf(),
            final(self).cached_date() == old(self).cached_date(),
            result == append_outcome(old(self).store(), account_uid, item_uid),
            result is Ok ==> final(self).store().events.len() > 0 && final(self).store() == old(
                self,
            ).store().with_event(
                ItemEvent {
                    item_uid,
                    state,
                    occurred_at: final(self).store().events.last().occurred_at,
                },
            ) && dropped(old(self).entries(), final(self).entries(), account_uid),
            result is Err ==> final(self).store() == old(self).store() && final(self).entries()
                == old(self).entries(),
    {
        let now = current_timestamp();
        self.update_item_at(account_uid, item_uid, state, now)
    }
}

/// What of the views held is kept when an index for `date` is asked for:
/// all of them where they are of that day, none where they are of another.
pub open spec fn kept_for(
    entries: Map<u128, IndexContextView>,
    cached_date: Option<Date>,
    date: Date,
) -> Map<u128, IndexContextView> {
    if cached_date == Some(date) {
        entries
    } else {
        empty_entries()
    }
}

/// What `invalidate` leaves under another key is what was held there.
proof fn lemma_kept_entry(
    before: Map<u128, IndexContextView>,
    after: Map<u128, IndexContextView>,
    account_uid: Uid,
    key: u128,
)
    requires
        dropped(before, after, account_uid),
        after.contains_key(key),
    ensures
        key != account_uid.0,
        before.contains_key(key),
        before[key] == after[key],
{
    let rest = before.remove(account_uid.0);
    assert(after.dom().contains(key));
    assert(rest.dom().contains(key));
    assert(after[key] == rest[key]);
}

/// What `invalidate` leaves of nothing is nothing.
proof fn lemma_nothing_kept(
    before: Map<u128, IndexContextView>,
    after: Map<u128, IndexContextView>,
    account_uid: Uid,
)
    requires
        dropped(before, after, account_uid),
        before == empty_entries(),
    ensures
        after == empty_entries(),
{
    let rest = before.remove(account_uid.0);
    assert forall|key: u128| !after.dom().contains(key) by {
        if after.dom().contains(key) {
            assert(rest.dom().contains(key));
        }
    }
    assert(after =~= empty_entries());
}

/// A part of a map is a part of it still after an entry was written that
/// it held already.
proof fn lemma_submap_of_same(
    part: Map<u128, IndexContextView>,
    whole: Map<u128, IndexContextView>,
    key: u128,
    value: IndexContextView,
)
    requires
        part.submap_of(whole),
        whole.contains_key(key),
        whole[key] == value,
    ensures
        part.submap_of(whole.insert(key, value)),
{
    assert(whole.insert(key, value) =~= whole);
}

/// Writing the same entry to a map and to a part of it leaves a part of
/// the one a part of the other.
proof fn lemma_submap_of_insert(
    part: Map<u128, IndexContextView>,
    middle: Map<u128, IndexContextView>,
    whole: Map<u128, IndexContextView>,
    key: u128,
    value: IndexContextView,
)
    requires
        part.submap_of(middle.insert(key, value)),
        middle.submap_of(whole),
    ensures
        part.submap_of(whole.insert(key, value)),
{
    let m1 = middle.insert(key, value);
    let w1 = whole.insert(key, value);
    assert forall|k: u128| #[trigger] part.dom().contains(k) implies w1.dom().contains(k)
        && part[k] == w1[k] by {
        assert(m1.dom().contains(k));
        assert(part[k] == m1[k]);
        if k != key {
            assert(middle.dom().contains(k));
            assert(whole.dom().contains(k));
            assert(middle[k] == whole[k]);
        }
    }
}

} // verus!
