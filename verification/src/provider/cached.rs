//! Password caching wrapper for providers.
use crate::error::ProviderError;
use crate::provider::PasswordProvider;
use crate::text::str_eq;
use vstd::prelude::*;
use vstd::rwlock::{RwLock, RwLockPredicate};

verus! {

/// `std::time::Instant`, a reading of the monotonic clock.
#[verifier::external_type_specification]
#[verifier::external_body]
pub struct ExInstant(std::time::Instant);

/// Calls `Instant::now`. Nothing is claimed: it reads the clock.
#[verifier::external_body]
fn instant_now() -> (r: std::time::Instant) {
    std::time::Instant::now()
}

/// Calls `Instant::elapsed`: the time since `t`. Nothing is claimed: it
/// reads the clock.
#[verifier::external_body]
fn instant_elapsed(t: &std::time::Instant) -> (r: std::time::Duration) {
    t.elapsed()
}

/// Calls `Duration::as_secs`: the whole seconds of the span. Nothing is
/// claimed beyond the type, the span being opaque here.
#[verifier::external_body]
fn duration_secs(d: &std::time::Duration) -> (r: u64) {
    d.as_secs()
}

/// Cached password entry.
pub struct CacheEntry {
    /// The item the password is for; `None` for a provider's own password.
    pub item: Option<String>,
    /// The password.
    pub password: String,
    /// When the password was fetched.
    pub fetched_at: std::time::Instant,
}

/// The key under which an entry is cached.
pub open spec fn entry_key(e: CacheEntry) -> Option<Seq<char>> {
    match e.item {
        Some(s) => Some(s@),
        None => None,
    }
}

/// The key a lookup is for.
pub open spec fn item_key(item: Option<&str>) -> Option<Seq<char>> {
    match item {
        Some(s) => Some(s@),
        None => None,
    }
}

/// No item is cached twice.
pub open spec fn keys_unique(entries: Seq<CacheEntry>) -> bool {
    forall|i: int, j: int|
        0 <= i < j < entries.len() ==> entry_key(#[trigger] entries[i]) != entry_key(
            #[trigger] entries[j],
        )
}

/// What the inner provider answers a request for `item`: `r` is a result
/// that the request may give (`get_password_for` with the item, or
/// `get_password` for a provider's own password).
pub open spec fn fetched<P: PasswordProvider>(
    inner: P,
    item: Option<&str>,
    r: Result<String, ProviderError>,
) -> bool {
    match item {
        Some(s) => call_ensures(P::get_password_for, (&inner, s), r),
        None => call_ensures(P::get_password, (&inner,), r),
    }
}

/// `r` is an answer that the inner provider may give to a request under
/// `key`.
pub open spec fn answers<P: PasswordProvider>(
    inner: P,
    key: Option<Seq<char>>,
    r: Result<String, ProviderError>,
) -> bool {
    exists|item: Option<&str>| item_key(item) == key && #[trigger] fetched(inner, item, r)
}

/// The entry holds a password that the inner provider gave for its key.
pub open spec fn holds_answer<P: PasswordProvider>(inner: P, e: CacheEntry) -> bool {
    answers(inner, entry_key(e), Ok(e.password))
}

/// The invariant of the cache of a provider wrapping `inner`: one entry per
/// item, each holding a password that `inner` gave for that item.
pub struct CacheInv<P> {
    pub inner: P,
}

impl<P: PasswordProvider> RwLockPredicate<Vec<CacheEntry>> for CacheInv<P> {
    open spec fn inv(self, v: Vec<CacheEntry>) -> bool {
        &&& keys_unique(v@)
        &&& forall|i: int| 0 <= i < v@.len() ==> holds_answer(self.inner, #[trigger] v@[i])
    }
}

/// A wrapper that caches password retrieval results.
///
/// For slow providers like Bitwarden (Node.js CLI), caching avoids repeated
/// subprocess invocations. The cache is per-item (keyed by item_id) and
/// expires after `ttl_secs` seconds.
pub struct CachedProvider<P: PasswordProvider> {
    inner: P,
    ttl_secs: u64,
    cache: RwLock<Vec<CacheEntry>, CacheInv<P>>,
}

/// The entry is cached under the key.
fn key_matches(e: &CacheEntry, item: Option<&str>) -> (r: bool)
    ensures
        r == (entry_key(*e) == item_key(item)),
{
    match (&e.item, item) {
        (Some(a), Some(b)) => str_eq(a.as_str(), b),
        (None, None) => true,
        _ => false,
    }
}

/// The position of the entry cached under a key.
pub fn find_entry(entries: &Vec<CacheEntry>, item: Option<&str>) -> (r: Option<usize>)
    ensures
        match r {
            Some(i) => i < entries@.len() && entry_key(entries@[i as int]) == item_key(item),
            None => forall|i: int|
                0 <= i < entries@.len() ==> entry_key(#[trigger] entries@[i]) != item_key(item),
        },
{
    let mut i: usize = 0;
    while i < entries.len()
        invariant
            0 <= i <= entries@.len(),
            forall|j: int| 0 <= j < i ==> entry_key(#[trigger] entries@[j]) != item_key(item),
        decreases entries.len() - i,
    {
        if key_matches(&entries[i], item) {
            return Some(i);
        }
        i = i + 1;
    }
    None
}

/// `after` is `before` with `entry` stored: in place of the entry under the
/// same key, or appended when there is none.
pub open spec fn stored(before: Seq<CacheEntry>, after: Seq<CacheEntry>, entry: CacheEntry) -> bool {
    ||| exists|i: int|
        0 <= i < before.len() && entry_key(before[i]) == entry_key(entry) && after == before.update(
            i,
            entry,
        )
    ||| (forall|i: int| 0 <= i < before.len() ==> entry_key(#[trigger] before[i]) != entry_key(entry))
        && after == before.push(entry)
}

/// Put an entry in the cache, in place of the one under the same key.
pub fn store(entries: &mut Vec<CacheEntry>, entry: CacheEntry)
    requires
        keys_unique(old(entries)@),
    ensures
        keys_unique(final(entries)@),
        stored(old(entries)@, final(entries)@, entry),
{
    let found = match &entry.item {
        Some(s) => find_entry(entries, Some(s.as_str())),
        None => find_entry(entries, None),
    };
    match found {
        Some(i) => {
            let ghost before = entries@;
            entries.set(i, entry);
            assert(entries@ == before.update(i as int, entry));
            assert forall|a: int, b: int| 0 <= a < b < entries@.len() implies entry_key(
                #[trigger] entries@[a],
            ) != entry_key(#[trigger] entries@[b]) by {
                if a != i && b != i {
                    assert(entry_key(before[a]) != entry_key(before[b]));
                } else if a == i {
                    assert(entry_key(before[a]) != entry_key(before[b]));
                } else {
                    assert(entry_key(before[a]) != entry_key(before[b]));
                }
            }
        },
        None => {
            entries.push(entry);
        },
    }
}

/// A read after a write gives the write: once an entry is stored, the entry
/// found under its key is that entry, and the entries under other keys are
/// those that were there before.
pub proof fn lemma_lookup_after_store(
    before: Seq<CacheEntry>,
    after: Seq<CacheEntry>,
    entry: CacheEntry,
)
    requires
        keys_unique(after),
        stored(before, after, entry),
    ensures
        exists|i: int| 0 <= i < after.len() && entry_key(after[i]) == entry_key(entry),
        forall|i: int|
            0 <= i < after.len() && entry_key(#[trigger] after[i]) == entry_key(entry) ==> after[i]
                == entry,
        forall|i: int|
            0 <= i < after.len() && entry_key(#[trigger] after[i]) != entry_key(entry) ==> before.contains(
                after[i],
            ),
{
    if exists|i: int|
        0 <= i < before.len() && entry_key(before[i]) == entry_key(entry) && after == before.update(
            i,
            entry,
        ) {
        let j = choose|i: int|
            0 <= i < before.len() && entry_key(before[i]) == entry_key(entry) && after
                == before.update(i, entry);
        assert(after[j] == entry);
        assert forall|i: int|
            0 <= i < after.len() && entry_key(#[trigger] after[i]) == entry_key(entry) implies after[i]
                == entry by {
            if i != j {
                assert(entry_key(after[i]) != entry_key(after[j]));
            }
        }
        assert forall|i: int|
            0 <= i < after.len() && entry_key(#[trigger] after[i]) != entry_key(entry) implies before.contains(
                after[i],
            ) by {
            assert(after[i] == before[i]);
        }
    } else {
        let n = before.len() as int;
        assert(after[n] == entry);
        assert forall|i: int|
            0 <= i < after.len() && entry_key(#[trigger] after[i]) == entry_key(entry) implies after[i]
                == entry by {
            if i < n {
                assert(entry_key(after[i]) != entry_key(after[n]));
            }
        }
        assert forall|i: int|
            0 <= i < after.len() && entry_key(#[trigger] after[i]) != entry_key(entry) implies before.contains(
                after[i],
            ) by {
            assert(after[i] == before[i]);
        }
    }
}

/// The answer the cache holds for `key` when its entry is `age` whole
/// seconds old: the password of the entry under `key`, if there is one and
/// it is younger than the lifetime.
pub open spec fn cached_answer(entries: Seq<CacheEntry>, key: Option<Seq<char>>, age: u64, ttl: u64) -> Option<String> {
    if age < ttl && exists|i: int| 0 <= i < entries.len() && entry_key(entries[i]) == key {
        let i = choose|i: int| 0 <= i < entries.len() && entry_key(entries[i]) == key;
        Some(entries[i].password)
    } else {
        None
    }
}

/// The cache is kept per item: once a password is stored, a request for its
/// item within the lifetime is answered with that password, and the answers
/// for every other item are those the cache gave before.
pub proof fn lemma_stored_password_is_served(
    before: Seq<CacheEntry>,
    after: Seq<CacheEntry>,
    entry: CacheEntry,
    key: Option<Seq<char>>,
    age: u64,
    ttl: u64,
)
    requires
        keys_unique(before),
        keys_unique(after),
        stored(before, after, entry),
    ensures
        age < ttl ==> cached_answer(after, entry_key(entry), age, ttl) == Some(entry.password),
        key != entry_key(entry) ==> cached_answer(after, key, age, ttl) == cached_answer(
            before,
            key,
            age,
            ttl,
        ),
{
    lemma_lookup_after_store(before, after, entry);
    if key != entry_key(entry) {
        if exists|i: int| 0 <= i < after.len() && entry_key(after[i]) == key {
            let i = choose|i: int| 0 <= i < after.len() && entry_key(after[i]) == key;
            assert(before.contains(after[i]));
            let j = choose|j: int| 0 <= j < before.len() && before[j] == after[i];
            assert(entry_key(before[j]) == key);
            let k = choose|k: int| 0 <= k < before.len() && entry_key(before[k]) == key;
            if k != j {
                assert(entry_key(before[k]) != entry_key(before[j]));
            }
        } else {
            assert forall|j: int| 0 <= j < before.len() implies entry_key(#[trigger] before[j]) != key by {
                if exists|i: int|
                    0 <= i < before.len() && entry_key(before[i]) == entry_key(entry) && after
                        == before.update(i, entry) {
                    let i = choose|i: int|
                        0 <= i < before.len() && entry_key(before[i]) == entry_key(entry) && after
                            == before.update(i, entry);
                    if j != i {
                        assert(after[j] == before[j]);
                        assert(entry_key(after[j]) != key);
                    }
                } else {
                    assert(after[j] == before[j]);
                    assert(entry_key(after[j]) != key);
                }
            }
        }
    }
}

/// An entry serves its key exactly while its age is below the lifetime:
/// once it is `ttl` seconds old or older, the cache has no answer for the
/// key and the inner provider is asked again.
pub proof fn lemma_entries_expire(
    entries: Seq<CacheEntry>,
    i: int,
    age: u64,
    ttl: u64,
)
    requires
        keys_unique(entries),
        0 <= i < entries.len(),
    ensures
        age >= ttl ==> cached_answer(entries, entry_key(entries[i]), age, ttl) is None,
        age < ttl ==> cached_answer(entries, entry_key(entries[i]), age, ttl) == Some(
            entries[i].password,
        ),
{
    let key = entry_key(entries[i]);
    let k = choose|k: int| 0 <= k < entries.len() && entry_key(entries[k]) == key;
    if k != i {
        assert(entry_key(entries[k]) != entry_key(entries[i]));
    }
}

/// Whether a cached entry answers a request: there is an entry under the
/// request's key, and its age in whole seconds is below the lifetime.
pub fn cache_decision(entry_age_secs: Option<u64>, ttl: u64) -> (hit: bool)
    ensures
        hit == (entry_age_secs matches Some(age) && age < ttl),
{
    match entry_age_secs {
        Some(age) => age < ttl,
        None => false,
    }
}

/// The answer the cache gives from the entry found under a request's key,
/// given that entry's age: its password when the entry is young enough.
pub fn answer_from(found: Option<&CacheEntry>, age_secs: u64, ttl: u64) -> (r: Option<String>)
    ensures
        match found {
            Some(e) => if age_secs < ttl {
                r == Some(e.password)
            } else {
                r is None
            },
            None => r is None,
        },
{
    match found {
        Some(e) => if cache_decision(Some(age_secs), ttl) {
            Some(e.password.clone())
        } else {
            None
        },
        None => None,
    }
}

/// The password cached under a key: the password of the entry under that
/// key when it is younger than the lifetime (its age is read from the
/// clock, so whether it is young enough is not stated).
pub fn lookup(entries: &Vec<CacheEntry>, item: Option<&str>, ttl: u64) -> (r: Option<String>)
    ensures
        match r {
            Some(p) => exists|i: int|
                0 <= i < entries@.len() && entry_key(entries@[i]) == item_key(item) && p
                    == #[trigger] entries@[i].password,
            None => true,
        },
        (forall|i: int| 0 <= i < entries@.len() ==> entry_key(#[trigger] entries@[i]) != item_key(item))
            ==> r is None,
        ttl == 0 ==> r is None,
        keys_unique(entries@) ==> exists|age: u64|
            r == #[trigger] cached_answer(entries@, item_key(item), age, ttl),
        keys_unique(entries@) ==> forall|i: int|
            0 <= i < entries@.len() && entry_key(#[trigger] entries@[i]) == item_key(item)
                ==> exists|age: u64|
                clock_age(entries@[i], age) && r == (if age < ttl {
                    Some(entries@[i].password)
                } else {
                    None
                }),
{
    match find_entry(entries, item) {
        Some(i) => {
            let age = entry_age_secs(&entries[i]);
            let r = answer_from(Some(&entries[i]), age, ttl);
            assert(r matches Some(p) ==> p == entries@[i as int].password);
            proof {
                if keys_unique(entries@) {
                    let k = choose|k: int|
                        0 <= k < entries@.len() && entry_key(entries@[k]) == item_key(item);
                    if k != i {
                        assert(entry_key(entries@[k]) != entry_key(entries@[i as int]));
                    }
                    assert(r == cached_answer(entries@, item_key(item), age, ttl));
                    assert forall|j: int|
                        0 <= j < entries@.len() && entry_key(#[trigger] entries@[j]) == item_key(
                            item,
                        ) implies exists|a: u64|
                        clock_age(entries@[j], a) && r == (if a < ttl {
                            Some(entries@[j].password)
                        } else {
                            None
                        }) by {
                        if j != i {
                            assert(entry_key(entries@[j]) != entry_key(entries@[i as int]));
                        }
                        assert(clock_age(entries@[j], age));
                    }
                }
            }
            r
        },
        None => {
            let r = answer_from(None, 0, ttl);
            assert(r == cached_answer(entries@, item_key(item), 0, ttl));
            r
        },
    }
}

/// `age` is the age of an entry as the clock reports it: the whole seconds
/// (`Duration::as_secs`) of the time elapsed since the entry was fetched
/// (`Instant::elapsed` on its `fetched_at`).
pub closed spec fn clock_age(e: CacheEntry, age: u64) -> bool {
    exists|d: std::time::Duration|
        call_ensures(instant_elapsed, (&e.fetched_at,), d) && #[trigger] call_ensures(
            duration_secs,
            (&d,),
            age,
        )
}

/// How many whole seconds ago an entry was fetched, read from the clock.
fn entry_age_secs(entry: &CacheEntry) -> (r: u64)
    ensures
        clock_age(*entry, r),
{
    let elapsed = instant_elapsed(&entry.fetched_at);
    duration_secs(&elapsed)
}

/// The key of a request, as the entry stores it.
fn owned_key(item: Option<&str>) -> (r: Option<String>)
    ensures
        match r {
            Some(s) => item_key(item) == Some(s@),
            None => item is None,
        },
{
    match item {
        Some(s) => Some(s.to_owned()),
        None => None,
    }
}

/// Settle a request that the cache could not answer, with what the inner
/// provider answered: the answer is passed on unchanged; a password is
/// stored under the request's key, fetched at `now`; an error leaves the
/// cache as it was.
pub fn settle(
    entries: &mut Vec<CacheEntry>,
    item: Option<String>,
    fetched: Result<String, ProviderError>,
    now: std::time::Instant,
) -> (r: Result<String, ProviderError>)
    requires
        keys_unique(old(entries)@),
    ensures
        r == fetched,
        keys_unique(final(entries)@),
        fetched is Err ==> final(entries)@ == old(entries)@,
        fetched matches Ok(p) ==> stored(
            old(entries)@,
            final(entries)@,
            CacheEntry { item, password: p, fetched_at: now },
        ),
{
    match fetched {
        Ok(p) => {
            let entry = CacheEntry { item, password: p.clone(), fetched_at: now };
            store(entries, entry);
            Ok(p)
        },
        Err(e) => Err(e),
    }
}

/// Storing an entry that holds an answer of `inner` keeps every entry
/// holding one.
proof fn lemma_stored_keeps_answers<P: PasswordProvider>(
    inner: P,
    before: Seq<CacheEntry>,
    after: Seq<CacheEntry>,
    entry: CacheEntry,
)
    requires
        forall|i: int| 0 <= i < before.len() ==> holds_answer(inner, #[trigger] before[i]),
        holds_answer(inner, entry),
        stored(before, after, entry),
    ensures
        forall|i: int| 0 <= i < after.len() ==> holds_answer(inner, #[trigger] after[i]),
{
    assert forall|i: int| 0 <= i < after.len() implies holds_answer(inner, #[trigger] after[i]) by {
        if i < before.len() && after[i] != entry {
            assert(after[i] == before[i]);
        }
    }
}

impl<P: PasswordProvider> CachedProvider<P> {
    #[verifier::type_invariant]
    spec fn cache_wraps_inner(self) -> bool {
        self.cache.pred() == CacheInv { inner: self.inner }
    }

    pub fn new(inner: P, ttl_secs: u64) -> (r: Self)
        ensures
            r.inner() == inner,
            r.ttl_secs() == ttl_secs,
    {
        let entries: Vec<CacheEntry> = Vec::new();
        let ghost pred = CacheInv { inner };
        CachedProvider { inner, ttl_secs, cache: RwLock::new(entries, Ghost(pred)) }
    }

    /// The wrapped provider.
    pub closed spec fn inner(&self) -> P {
        self.inner
    }

    /// How long an entry stays valid, in seconds.
    pub closed spec fn ttl_secs(&self) -> u64 {
        self.ttl_secs
    }

    /// The entry was fetched less than `ttl_secs` seconds ago; with a
    /// lifetime of zero no entry is ever valid.
    fn is_valid(entry: &CacheEntry, ttl_secs: u64) -> (r: bool)
        ensures
            ttl_secs == 0 ==> !r,
            exists|age: u64| clock_age(*entry, age) && r == (age < ttl_secs),
    {
        cache_decision(Some(entry_age_secs(entry)), ttl_secs)
    }

    /// The password cached under a key, while it is valid: one that the
    /// inner provider gave for that key.
    fn cached_password(&self, item: Option<&str>) -> (r: Option<String>)
        ensures
            r matches Some(p) ==> answers(self.inner(), item_key(item), Ok(p)),
            self.ttl_secs() == 0 ==> r is None,
    {
        proof {
            use_type_invariant(self);
        }
        let handle = self.cache.acquire_read();
        let entries = handle.borrow();
        let r = lookup(entries, item, self.ttl_secs);
        proof {
            let ghost found = r;
            if let Some(p) = found {
                let i = choose|i: int|
                    0 <= i < entries@.len() && entry_key(entries@[i]) == item_key(item) && p
                        == #[trigger] entries@[i].password;
                assert(holds_answer(self.inner, entries@[i]));
            }
        }
        handle.release_read();
        r
    }

    /// Ask the inner provider for the password under `item`.
    fn fetch(&self, item: Option<&str>) -> (r: Result<String, ProviderError>)
        ensures
            fetched(self.inner(), item, r),
    {
        match item {
            Some(s) => self.inner.get_password_for(s),
            None => self.inner.get_password(),
        }
    }

    /// Answer a request for the password under `item` (`None` for the inner
    /// provider's own password): from the cache while its entry is valid,
    /// else by asking the inner provider once (`get_password_for` with the
    /// item, or `get_password`) and settling its answer into the cache (see
    /// `settle`).
    ///
    /// Every password returned is one the inner provider gave for this same
    /// item, now or earlier; an error is always the one the inner provider
    /// gave to this request; with a lifetime of zero the answer is always
    /// that of the inner provider to this request.
    pub fn serve(&self, item: Option<&str>) -> (r: Result<String, ProviderError>)
        ensures
            r is Ok ==> answers(self.inner(), item_key(item), r),
            r is Err ==> fetched(self.inner(), item, r),
            self.ttl_secs() == 0 ==> fetched(self.inner(), item, r),
    {
        proof {
            use_type_invariant(self);
        }
        if let Some(p) = self.cached_password(item) {
            return Ok(p);
        }
        let fetched = self.fetch(item);
        proof {
            assert(fetched matches Ok(_) ==> answers(self.inner, item_key(item), fetched));
        }
        let (mut entries, handle) = self.cache.acquire_write();
        let key = owned_key(item);
        let now = instant_now();
        let ghost before = entries@;
        let ghost answer = fetched;
        let r = settle(&mut entries, key, fetched, now);
        proof {
            if let Ok(p) = answer {
                let e = CacheEntry { item: key, password: p, fetched_at: now };
                assert(entry_key(e) == item_key(item));
                assert(holds_answer(self.inner, e));
                lemma_stored_keeps_answers(self.inner, before, entries@, e);
            }
        }
        handle.release_write(entries);
        r
    }
}

impl<P: PasswordProvider> PasswordProvider for CachedProvider<P> {
    /// The inner provider's own password, from the cache while it is valid.
    fn get_password(&self) -> (r: Result<String, ProviderError>)
        ensures
            r is Ok ==> answers(self.inner(), None, r),
            r is Err ==> call_ensures(P::get_password, (&self.inner(),), r),
            self.ttl_secs() == 0 ==> call_ensures(P::get_password, (&self.inner(),), r),
    {
        self.serve(None)
    }

    /// The password of `item_id`, from the cache while its entry is valid.
    fn get_password_for(&self, item_id: &str) -> (r: Result<String, ProviderError>)
        ensures
            r is Ok ==> answers(self.inner(), Some(item_id@), r),
            r is Err ==> call_ensures(P::get_password_for, (&self.inner(), item_id), r),
            self.ttl_secs() == 0 ==> call_ensures(
                P::get_password_for,
                (&self.inner(), item_id),
                r,
            ),
    {
        self.serve(Some(item_id))
    }

    /// The inner provider's name.
    fn name(&self) -> (r: &str)
        ensures
            call_ensures(P::name, (&self.inner(),), r),
    {
        proof {
            use_type_invariant(self);
        }
        self.inner.name()
    }
}

} // verus!
