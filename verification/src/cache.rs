//! A store of registry answers that serves each for a limited time.
//!
//! Time is a reading of a monotonic clock in nanoseconds. An answer is served
//! while less than the time to live has passed since it was stored; after
//! that it counts as missing, and the next answer fetched takes its place.

use crate::error::AnalysisError;
use crate::registry::PyPIResponse;
use crate::registry::PyPIResponseView;
use crate::text::str_same;
use vstd::prelude::*;

verus! {

/// The number of nanoseconds in a second.
pub const NANOS_PER_SECOND: u64 = 1_000_000_000;

/// The time to live, in seconds, where nothing else is asked for.
pub const DEFAULT_CACHE_SECONDS: u64 = 3600;

/// What an answer is stored under: the name of the package, and the version
/// asked for, if one was.
#[derive(Debug)]
pub struct CacheKey {
    pub name: String,
    pub version: Option<String>,
}

/// The mathematical value of a [`CacheKey`].
#[verifier::ext_equal]
pub struct CacheKeyView {
    pub name: Seq<char>,
    pub version: Option<Seq<char>>,
}

impl View for CacheKey {
    type V = CacheKeyView;

    open spec fn view(&self) -> CacheKeyView {
        CacheKeyView { name: self.name@, version: self.version.deep_view() }
    }
}

impl Clone for CacheKey {
    fn clone(&self) -> (copy: Self)
        ensures
            copy@ == self@,
    {
        let version = match &self.version {
            Some(text) => Some(text.clone()),
            None => None,
        };
        CacheKey { name: self.name.clone(), version }
    }
}

impl CacheKey {
    /// The key for a package and, where one is asked for, a version.
    pub fn new(package_name: &str, version: Option<&str>) -> (key: Self)
        ensures
            key@.name == package_name@,
            key@.version == match version {
                Some(text) => Some(text@),
                None => None,
            },
    {
        let version = match version {
            Some(text) => Some(text.to_owned()),
            None => None,
        };
        CacheKey { name: package_name.to_owned(), version }
    }

    /// Tells whether two keys are the same.
    pub fn same(&self, other: &CacheKey) -> (same: bool)
        ensures
            same == (self@ == other@),
    {
        if !str_same(self.name.as_str(), other.name.as_str()) {
            return false;
        }
        match (&self.version, &other.version) {
            (Some(mine), Some(theirs)) => str_same(mine.as_str(), theirs.as_str()),
            (None, None) => true,
            _ => false,
        }
    }
}

/// An answer as it is stored: the answer, and the clock's reading when it was
/// stored.
#[verifier::ext_equal]
pub struct Cached {
    pub data: PyPIResponseView,
    pub inserted_at: u64,
}

/// The time that has passed at `now` since `inserted_at`, in nanoseconds;
/// none where the clock reads less than it did then.
pub open spec fn age_nanos(inserted_at: u64, now: u64) -> nat {
    if now >= inserted_at {
        (now - inserted_at) as nat
    } else {
        0
    }
}

/// The whole seconds that have passed at `now` since `inserted_at`.
pub open spec fn age_seconds(inserted_at: u64, now: u64) -> nat {
    age_nanos(inserted_at, now) / (NANOS_PER_SECOND as nat)
}

/// An answer stored at `inserted_at` is still served at `now`: less than
/// `ttl_seconds` have passed.
pub open spec fn is_fresh(inserted_at: u64, now: u64, ttl_seconds: u64) -> bool {
    age_nanos(inserted_at, now) < ttl_seconds * NANOS_PER_SECOND
}

/// What the store serves for `key` at `now`: the answer stored under it where
/// there is one and it is fresh, nothing otherwise.
pub open spec fn served(
    stored: Map<CacheKeyView, Cached>,
    key: CacheKeyView,
    now: u64,
    ttl_seconds: u64,
) -> Option<PyPIResponseView> {
    if stored.contains_key(key) && is_fresh(stored[key].inserted_at, now, ttl_seconds) {
        Some(stored[key].data)
    } else {
        None
    }
}

/// `age` is the age in seconds of some stored answer, and no stored answer
/// is older.
pub open spec fn is_oldest_age(stored: Map<CacheKeyView, Cached>, now: u64, age: u64) -> bool {
    &&& exists|key: CacheKeyView| #[trigger]
        stored.contains_key(key) && age_seconds(stored[key].inserted_at, now) == age
    &&& forall|key: CacheKeyView| #[trigger]
        stored.contains_key(key) ==> age_seconds(stored[key].inserted_at, now) <= age
}

/// `age` is the age in seconds of some stored answer, and no stored answer
/// is newer.
pub open spec fn is_newest_age(stored: Map<CacheKeyView, Cached>, now: u64, age: u64) -> bool {
    &&& exists|key: CacheKeyView| #[trigger]
        stored.contains_key(key) && age_seconds(stored[key].inserted_at, now) == age
    &&& forall|key: CacheKeyView| #[trigger]
        stored.contains_key(key) ==> age_seconds(stored[key].inserted_at, now) >= age
}

/// `info` is what is told of a store that holds `stored`, at `now`: the
/// number of answers, and the ages in whole seconds of the oldest and of the
/// newest, or no ages where nothing is stored.
pub open spec fn is_cache_info(
    info: (usize, Option<u64>, Option<u64>),
    stored: Map<CacheKeyView, Cached>,
    now: u64,
) -> bool {
    &&& stored.dom().finite()
    &&& info.0 == stored.dom().len()
    &&& match info.1 {
        Some(age) => is_oldest_age(stored, now, age),
        None => stored == Map::<CacheKeyView, Cached>::empty(),
    }
    &&& match info.2 {
        Some(age) => is_newest_age(stored, now, age),
        None => stored == Map::<CacheKeyView, Cached>::empty(),
    }
}

struct CacheEntry {
    key: CacheKey,
    data: PyPIResponse,
    inserted_at: u64,
}

impl CacheEntry {
    spec fn cached(&self) -> Cached {
        Cached { data: self.data@, inserted_at: self.inserted_at }
    }
}

/// The store. No key is held twice: storing under a key that is held
/// replaces what was stored under it.
pub struct MetadataCache {
    entries: Vec<CacheEntry>,
}

impl View for MetadataCache {
    type V = Map<CacheKeyView, Cached>;

    /// What is stored under each key.
    closed spec fn view(&self) -> Map<CacheKeyView, Cached> {
        Map::new(
            |key: CacheKeyView| self.holds(key),
            |key: CacheKeyView| self.entries[self.place_of(key)].cached(),
        )
    }
}

impl MetadataCache {
    spec fn holds(&self, key: CacheKeyView) -> bool {
        exists|place: int| 0 <= place < self.entries.len() && #[trigger] self.entries[place].key@ == key
    }

    spec fn place_of(&self, key: CacheKeyView) -> int {
        choose|place: int| 0 <= place < self.entries.len() && #[trigger] self.entries[place].key@ == key
    }

    /// The store holds no key twice.
    #[verifier::type_invariant]
    spec fn wf(&self) -> bool {
        forall|first: int, second: int|
            0 <= first < second < self.entries.len() ==> #[trigger] self.entries[first].key@
                != #[trigger] self.entries[second].key@
    }

    /// The number of entries is the number of keys held.
    proof fn lemma_count(&self)
        requires
            self.wf(),
        ensures
            self@.dom().finite(),
            self@.dom().len() == self.entries.len(),
    {
        let keys = Seq::new(self.entries.len() as nat, |place: int| self.entries[place].key@);
        assert(keys.no_duplicates());
        keys.unique_seq_to_set();
        assert(keys.to_set() =~= self@.dom()) by {
            assert forall|key: CacheKeyView| keys.to_set().contains(key) <==> self@.dom().contains(
                key,
            ) by {
                if keys.contains(key) {
                    let place = choose|place: int| 0 <= place < keys.len() && keys[place] == key;
                    assert(self.entries[place].key@ == key);
                }
                if self.holds(key) {
                    let place = self.place_of(key);
                    assert(keys[place] == key);
                }
            }
        }
    }

    /// An empty store.
    pub fn new() -> (cache: Self)
        ensures
            cache@ == Map::<CacheKeyView, Cached>::empty(),
    {
        let cache = MetadataCache { entries: Vec::new() };
        assert(cache@ =~= Map::<CacheKeyView, Cached>::empty());
        cache
    }

    /// The number of answers stored.
    pub fn len(&self) -> (count: usize)
        ensures
            self@.dom().finite(),
            count == self@.dom().len(),
    {
        proof {
            use_type_invariant(self);
            self.lemma_count();
        }
        self.entries.len()
    }

    /// The place of `key` among the entries, if it is held.
    fn find(&self, key: &CacheKey) -> (found: Option<usize>)
        ensures
            match found {
                Some(place) => place < self.entries.len() && self.entries[place as int].key@ == key@
                    && self.holds(key@) && self.place_of(key@) == place,
                None => !self.holds(key@),
            },
    {
        proof {
            use_type_invariant(self);
        }
        let mut place: usize = 0;
        while place < self.entries.len()
            invariant
                self.wf(),
                place <= self.entries.len(),
                forall|earlier: int| 0 <= earlier < place ==> self.entries[earlier].key@ != key@,
            decreases self.entries.len() - place,
        {
            if self.entries[place].key.same(key) {
                proof {
                    assert(self.entries[place as int].key@ == key@);
                    let chosen = self.place_of(key@);
                    assert(self.entries[chosen].key@ == key@);
                }
                return Some(place);
            }
            place += 1;
        }
        None
    }

    /// Looks `key` up at `now`: a copy of the answer stored under it where
    /// that is fresh, nothing where there is none or it is too old. The
    /// store is left as it is either way.
    pub fn lookup(&self, key: &CacheKey, now: u64, ttl_seconds: u64) -> (found: Option<PyPIResponse>)
        ensures
            match found {
                Some(data) => served(self@, key@, now, ttl_seconds) == Some(data@),
                None => served(self@, key@, now, ttl_seconds) is None,
            },
    {
        match self.find(key) {
            Some(place) => {
                let entry = &self.entries[place];
                if fresh(entry.inserted_at, now, ttl_seconds) {
                    Some(entry.data.clone())
                } else {
                    None
                }
            },
            None => None,
        }
    }

    /// Stores `data` under `key` as of `now`, in place of what was stored
    /// under that key, if anything.
    pub fn store(&mut self, key: CacheKey, data: PyPIResponse, now: u64)
        ensures
            final(self)@ == old(self)@.insert(key@, (Cached { data: data@, inserted_at: now })),
    {
        let ghost stored = Cached { data: data@, inserted_at: now };
        let ghost key_view = key@;
        let found = self.find(&key);
        let entry = CacheEntry { key, data, inserted_at: now };
        proof {
            use_type_invariant(&*self);
        }
        let mut entries: Vec<CacheEntry> = Vec::new();
        core::mem::swap(&mut entries, &mut self.entries);
        match found {
            Some(place) => {
                entries.set(place, entry);
                self.entries = entries;
                proof {
                    assert forall|other: CacheKeyView| self.holds(other) <==> old(self).holds(
                        other,
                    ) by {
                        if self.holds(other) {
                            let at = self.place_of(other);
                            assert(old(self).entries[at].key@ == other);
                        }
                        if old(self).holds(other) {
                            let at = old(self).place_of(other);
                            assert(self.entries[at].key@ == other);
                        }
                    }
                    assert forall|other: CacheKeyView| self.holds(other) implies #[trigger] self@[other]
                        == old(self)@.insert(key_view, stored)[other] by {
                        let at = self.place_of(other);
                        if other != key_view {
                            assert(old(self).entries[at].key@ == other);
                            assert(old(self).place_of(other) == at);
                        }
                    }
                }
            },
            None => {
                entries.push(entry);
                self.entries = entries;
                proof {
                    let last = old(self).entries.len() as int;
                    assert(self.entries[last].key@ == key_view);
                    assert forall|other: CacheKeyView|
                        self.holds(other) <==> (other == key_view || old(self).holds(other)) by {
                        if old(self).holds(other) {
                            let at = old(self).place_of(other);
                            assert(self.entries[at].key@ == other);
                        }
                    }
                    assert forall|other: CacheKeyView| self.holds(other) implies #[trigger] self@[other]
                        == old(self)@.insert(key_view, stored)[other] by {
                        let at = self.place_of(other);
                        if other != key_view {
                            assert(old(self).entries[at].key@ == other);
                            assert(old(self).place_of(other) == at);
                        }
                    }
                }
            },
        }
        assert(self@ =~= old(self)@.insert(key_view, stored));
    }

    /// Drops every answer.
    pub fn clear(&mut self)
        ensures
            final(self)@ == Map::<CacheKeyView, Cached>::empty(),
    {
        self.entries = Vec::new();
        assert(self@ =~= Map::<CacheKeyView, Cached>::empty());
    }

    /// The number of answers stored, and the ages in whole seconds at `now`
    /// of the oldest and of the newest; no ages where nothing is stored.
    pub fn stats(&self, now: u64) -> (info: (usize, Option<u64>, Option<u64>))
        ensures
            self@.dom().finite(),
            info.0 == self@.dom().len(),
            match info.1 {
                Some(age) => is_oldest_age(self@, now, age),
                None => self@ == Map::<CacheKeyView, Cached>::empty(),
            },
            match info.2 {
                Some(age) => is_newest_age(self@, now, age),
                None => self@ == Map::<CacheKeyView, Cached>::empty(),
            },
            info.1 is Some <==> info.2 is Some,
    {
        proof {
            use_type_invariant(self);
        }
        let mut oldest: Option<u64> = None;
        let mut newest: Option<u64> = None;
        let mut place: usize = 0;
        while place < self.entries.len()
            invariant
                self.wf(),
                place <= self.entries.len(),
                oldest is Some <==> place > 0,
                newest is Some <==> place > 0,
                oldest matches Some(age) ==> {
                    &&& exists|at: int|
                        0 <= at < place && age_seconds(
                            (#[trigger] self.entries[at]).inserted_at,
                            now,
                        ) == age
                    &&& forall|at: int|
                        0 <= at < place ==> age_seconds(
                            (#[trigger] self.entries[at]).inserted_at,
                            now,
                        ) <= age
                },
                newest matches Some(age) ==> {
                    &&& exists|at: int|
                        0 <= at < place && age_seconds(
                            (#[trigger] self.entries[at]).inserted_at,
                            now,
                        ) == age
                    &&& forall|at: int|
                        0 <= at < place ==> age_seconds(
                            (#[trigger] self.entries[at]).inserted_at,
                            now,
                        ) >= age
                },
            decreases self.entries.len() - place,
        {
            let age = seconds_since(self.entries[place].inserted_at, now);
            oldest = match oldest {
                Some(other) if other >= age => Some(other),
                _ => Some(age),
            };
            newest = match newest {
                Some(other) if other <= age => Some(other),
                _ => Some(age),
            };
            place += 1;
        }
        proof {
            self.lemma_count();
            if place == 0 {
                assert(self@ =~= Map::<CacheKeyView, Cached>::empty());
            } else {
                let old_age = oldest->0;
                let new_age = newest->0;
                let old_at = choose|at: int|
                    0 <= at < place && age_seconds((#[trigger] self.entries[at]).inserted_at, now)
                        == old_age;
                let new_at = choose|at: int|
                    0 <= at < place && age_seconds((#[trigger] self.entries[at]).inserted_at, now)
                        == new_age;
                self.lemma_entry_is_stored(old_at);
                self.lemma_entry_is_stored(new_at);
                assert forall|key: CacheKeyView| #[trigger] self@.contains_key(key) implies age_seconds(
                    self@[key].inserted_at,
                    now,
                ) <= old_age && age_seconds(self@[key].inserted_at, now) >= new_age by {
                    let at = self.place_of(key);
                    assert(self.entries[at].key@ == key);
                }
            }
        }
        (self.entries.len(), oldest, newest)
    }

    /// Answers a request for the metadata of a package from the store,
    /// fetching it where the store has nothing fresh.
    ///
    /// The clock is read when the store is consulted. Where a fresh answer is
    /// stored under the key, a copy of it is handed back and `fetch_fn` is
    /// not called. Otherwise `fetch_fn` is called once: what it fetched is
    /// stored under the key as of a second reading of the clock, in place of
    /// what was there, and handed back; its failure is handed back unchanged
    /// and leaves the store as it was.
    pub fn get_or_fetch<C, F>(
        &mut self,
        package_name: &str,
        version: Option<&str>,
        ttl_seconds: u64,
        clock: &C,
        fetch_fn: F,
    ) -> (answer: Result<PyPIResponse, AnalysisError>) where
        C: Fn() -> u64,
        F: FnOnce() -> Result<PyPIResponse, AnalysisError>,

        requires
            call_requires(*clock, ()),
            call_requires(fetch_fn, ()) || forall|now: u64|
                call_ensures(*clock, (), now) ==> served(
                    old(self)@,
                    request_key(package_name@, version),
                    now,
                    ttl_seconds,
                ) is Some,
        ensures
            exists|consulted_at: u64|
                {
                    &&& #[trigger] call_ensures(*clock, (), consulted_at)
                    &&& is_hit_outcome(
                        old(self)@,
                        final(self)@,
                        request_key(package_name@, version),
                        consulted_at,
                        ttl_seconds,
                        answer,
                    ) || exists|stored_at: u64, fetched: Result<PyPIResponse, AnalysisError>|
                        {
                            &&& #[trigger] call_ensures(*clock, (), stored_at)
                            &&& #[trigger] call_ensures(fetch_fn, (), fetched)
                            &&& is_miss_outcome(
                                old(self)@,
                                final(self)@,
                                request_key(package_name@, version),
                                consulted_at,
                                stored_at,
                                ttl_seconds,
                                fetched,
                                answer,
                            )
                        }
                },
    {
        let key = CacheKey::new(package_name, version);
        let consulted_at = clock();
        if let Some(data) = self.lookup(&key, consulted_at, ttl_seconds) {
            let answer = Ok(data);
            assert(is_hit_outcome(
                old(self)@,
                self@,
                request_key(package_name@, version),
                consulted_at,
                ttl_seconds,
                answer,
            ));
            return answer;
        }
        let fetched = fetch_fn();
        let answer = match fetched {
            Ok(data) => {
                let stored_at = clock();
                self.store(key, data.clone(), stored_at);
                let answer = Ok(data);
                assert(is_miss_outcome(
                    old(self)@,
                    self@,
                    request_key(package_name@, version),
                    consulted_at,
                    stored_at,
                    ttl_seconds,
                    answer,
                    answer,
                ));
                answer
            },
            Err(failure) => {
                let answer = Err(failure);
                assert(is_miss_outcome(
                    old(self)@,
                    self@,
                    request_key(package_name@, version),
                    consulted_at,
                    consulted_at,
                    ttl_seconds,
                    answer,
                    answer,
                ));
                answer
            },
        };
        answer
    }

    /// In a well-formed store each entry is what is stored under its key.
    proof fn lemma_entry_is_stored(&self, at: int)
        requires
            self.wf(),
            0 <= at < self.entries.len(),
        ensures
            self@.contains_key(self.entries[at].key@),
            self@[self.entries[at].key@] == self.entries[at].cached(),
    {
        let key = self.entries[at].key@;
        assert(self.holds(key));
        let place = self.place_of(key);
        assert(self.entries[place].key@ == key);
    }
}

/// What a request for `key` leaves in the store and hands back, given what
/// the clock read when the store was consulted: on a hit the store is left as
/// it was and the stored answer is handed back.
pub open spec fn is_hit_outcome(
    before: Map<CacheKeyView, Cached>,
    after: Map<CacheKeyView, Cached>,
    key: CacheKeyView,
    consulted_at: u64,
    ttl_seconds: u64,
    answer: Result<PyPIResponse, AnalysisError>,
) -> bool {
    &&& served(before, key, consulted_at, ttl_seconds) is Some
    &&& after == before
    &&& answer matches Ok(data) && Some(data@) == served(before, key, consulted_at, ttl_seconds)
}

/// What a request for `key` leaves in the store and hands back when nothing
/// fresh is stored and `fetched` is what fetching gave: a fetched answer is
/// stored as of `stored_at` and handed back; a failure is handed back as it
/// is, and the store is left as it was.
pub open spec fn is_miss_outcome(
    before: Map<CacheKeyView, Cached>,
    after: Map<CacheKeyView, Cached>,
    key: CacheKeyView,
    consulted_at: u64,
    stored_at: u64,
    ttl_seconds: u64,
    fetched: Result<PyPIResponse, AnalysisError>,
    answer: Result<PyPIResponse, AnalysisError>,
) -> bool {
    &&& served(before, key, consulted_at, ttl_seconds) is None
    &&& answer == fetched
    &&& match fetched {
        Ok(data) => after == before.insert(key, (Cached { data: data@, inserted_at: stored_at })),
        Err(_) => after == before,
    }
}

/// The key under which a request for a package and, maybe, a version is
/// stored.
pub open spec fn request_key(package_name: Seq<char>, version: Option<&str>) -> CacheKeyView {
    CacheKeyView {
        name: package_name,
        version: match version {
            Some(text) => Some(text@),
            None => None,
        },
    }
}

/// An answer is served again for as long as it is fresh: a request for a key
/// under which an answer was stored less than the time to live ago finds
/// that answer in the store, so nothing is fetched for it.
pub proof fn lemma_fresh_answer_is_served(
    stored: Map<CacheKeyView, Cached>,
    key: CacheKeyView,
    data: PyPIResponseView,
    stored_at: u64,
    now: u64,
    ttl_seconds: u64,
)
    requires
        is_fresh(stored_at, now, ttl_seconds),
    ensures
        served(
            stored.insert(key, (Cached { data, inserted_at: stored_at })),
            key,
            now,
            ttl_seconds,
        ) == Some(data),
{
}

/// Once the time to live has passed, an answer is served no more: a request
/// for its key finds nothing, so the answer is fetched again, and what was
/// fetched takes the place of what was stored.
pub proof fn lemma_stale_answer_is_replaced(
    before: Map<CacheKeyView, Cached>,
    after: Map<CacheKeyView, Cached>,
    key: CacheKeyView,
    consulted_at: u64,
    stored_at: u64,
    ttl_seconds: u64,
    fetched: PyPIResponse,
    answer: Result<PyPIResponse, AnalysisError>,
)
    requires
        before.contains_key(key),
        !is_fresh(before[key].inserted_at, consulted_at, ttl_seconds),
    ensures
        served(before, key, consulted_at, ttl_seconds) is None,
        !is_hit_outcome(before, after, key, consulted_at, ttl_seconds, answer),
        is_miss_outcome(
            before,
            after,
            key,
            consulted_at,
            stored_at,
            ttl_seconds,
            Ok(fetched),
            answer,
        ) ==> answer == Ok::<PyPIResponse, AnalysisError>(fetched) && after.contains_key(key)
            && after[key] == (Cached { data: fetched@, inserted_at: stored_at }),
{
}

/// A store that was cleared serves nothing, whatever the key and the time:
/// every request that follows is answered by fetching.
pub proof fn lemma_cleared_store_serves_nothing(
    after: Map<CacheKeyView, Cached>,
    key: CacheKeyView,
    now: u64,
    ttl_seconds: u64,
    answer: Result<PyPIResponse, AnalysisError>,
)
    ensures
        served(Map::<CacheKeyView, Cached>::empty(), key, now, ttl_seconds) is None,
        !is_hit_outcome(
            Map::<CacheKeyView, Cached>::empty(),
            after,
            key,
            now,
            ttl_seconds,
            answer,
        ),
{
}

/// Tells whether an answer stored at `inserted_at` is still served at `now`.
pub fn fresh(inserted_at: u64, now: u64, ttl_seconds: u64) -> (fresh: bool)
    ensures
        fresh == is_fresh(inserted_at, now, ttl_seconds),
{
    seconds_since(inserted_at, now) < ttl_seconds
}

/// The whole seconds that have passed at `now` since `inserted_at`.
pub fn seconds_since(inserted_at: u64, now: u64) -> (seconds: u64)
    ensures
        seconds == age_seconds(inserted_at, now),
{
    now.saturating_sub(inserted_at) / NANOS_PER_SECOND
}

} // verus!
