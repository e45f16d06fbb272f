//! The store of registry answers behind a lock, for callers on many threads.
//!
//! Many readers may consult the store at once; storing an answer shuts every
//! other caller out for as long as it takes. No lock is held while an answer
//! is fetched, so two callers that miss the same key at the same time both
//! fetch, and the answer stored last stays.

use crate::cache::is_cache_info;
use crate::cache::request_key;
use crate::cache::served;
use crate::cache::Cached;
use crate::cache::CacheKey;
use crate::cache::CacheKeyView;
use crate::cache::MetadataCache;
use crate::error::AnalysisError;
use crate::registry::PyPIResponse;
use std::sync::RwLock;
use std::sync::RwLockReadGuard;
use std::sync::RwLockWriteGuard;
use vstd::prelude::*;
use vstd::string::StringExecFns;

verus! {

/// `std::sync::RwLock`: a lock for many readers or one writer.
#[verifier::external_type_specification]
#[verifier::external_body]
#[verifier::reject_recursive_types(T)]
pub struct ExRwLock<T: ?Sized>(RwLock<T>);

/// `std::sync::RwLockReadGuard`: shared access, given up when it is dropped.
#[verifier::external_type_specification]
#[verifier::external_body]
#[verifier::reject_recursive_types(T)]
pub struct ExRwLockReadGuard<'a, T: ?Sized>(RwLockReadGuard<'a, T>);

/// `std::sync::RwLockWriteGuard`: exclusive access, given up when it is
/// dropped.
#[verifier::external_type_specification]
#[verifier::external_body]
#[verifier::reject_recursive_types(T)]
pub struct ExRwLockWriteGuard<'a, T: ?Sized + 'a>(RwLockWriteGuard<'a, T>);

/// Puts a store behind a lock, with `RwLock::new`. Trusted; nothing is
/// claimed of the lock.
#[verifier::external_body]
fn lock_around(cache: MetadataCache) -> (lock: RwLock<MetadataCache>) {
    RwLock::new(cache)
}

/// Waits for shared access with `RwLock::read`. Trusted: it gives the guard,
/// or nothing where the lock is poisoned; nothing is claimed of what the
/// lock holds.
#[verifier::external_body]
fn lock_for_reading<'a>(lock: &'a RwLock<MetadataCache>) -> (guard: Option<
    RwLockReadGuard<'a, MetadataCache>,
>) {
    match lock.read() {
        Ok(guard) => Some(guard),
        Err(_) => None,
    }
}

/// Waits for exclusive access with `RwLock::write`. Trusted: it gives the
/// guard, or nothing where the lock is poisoned; nothing is claimed of what
/// the lock holds.
#[verifier::external_body]
fn lock_for_writing<'a>(lock: &'a RwLock<MetadataCache>) -> (guard: Option<
    RwLockWriteGuard<'a, MetadataCache>,
>) {
    match lock.write() {
        Ok(guard) => Some(guard),
        Err(_) => None,
    }
}

/// The store that a read guard gives access to, by the guard's `Deref`.
/// Trusted; nothing is claimed of the store.
#[verifier::external_body]
fn read_access<'a, 'b>(guard: &'a RwLockReadGuard<'b, MetadataCache>) -> (cache: &'a MetadataCache) {
    &**guard
}

/// The store that a write guard gives access to, by the guard's `DerefMut`.
/// Trusted; nothing is claimed of the store.
#[verifier::external_body]
fn write_access<'a, 'b>(guard: &'a mut RwLockWriteGuard<'b, MetadataCache>) -> (cache:
    &'a mut MetadataCache) {
    &mut **guard
}

/// A store of registry answers that callers on many threads share.
pub struct SharedCache {
    lock: RwLock<MetadataCache>,
}

impl SharedCache {
    /// An empty shared store.
    pub fn new() -> (shared: Self) {
        SharedCache { lock: lock_around(MetadataCache::new()) }
    }
}

/// What `fetch_fn` may give when it is called.
pub open spec fn fetch_results<F: FnOnce() -> Result<PyPIResponse, AnalysisError>>(
    fetch_fn: F,
) -> spec_fn(Result<PyPIResponse, AnalysisError>) -> bool {
    |fetched: Result<PyPIResponse, AnalysisError>| call_ensures(fetch_fn, (), fetched)
}

/// `answer` is what a request for `key` comes to when the store held `seen`
/// as it was consulted at `consulted_at`, and fetching gives one of the
/// `possible` results. Where `seen` serves a fresh answer for the key, that
/// answer is handed back. Otherwise an answer is fetched: a failure to fetch
/// is handed back unchanged; what was fetched is handed back, unless the lock
/// is found poisoned when the answer is to be stored.
pub open spec fn is_shared_outcome(
    answer: Result<PyPIResponse, AnalysisError>,
    seen: Map<CacheKeyView, Cached>,
    key: CacheKeyView,
    consulted_at: u64,
    ttl_seconds: u64,
    possible: spec_fn(Result<PyPIResponse, AnalysisError>) -> bool,
) -> bool {
    match served(seen, key, consulted_at, ttl_seconds) {
        Some(data) => answer matches Ok(found) && found@ == data,
        None => exists|fetched: Result<PyPIResponse, AnalysisError>|
            {
                &&& #[trigger] possible(fetched)
                &&& match fetched {
                    Ok(data) => answer == Ok::<PyPIResponse, AnalysisError>(data) || (answer matches Err(
                        error,
                    ) && is_write_lock_failure(error)),
                    Err(failure) => answer == Err::<PyPIResponse, AnalysisError>(failure),
                }
            },
    }
}

/// An outcome stays an outcome when more results of fetching are held
/// possible.
pub proof fn lemma_shared_outcome_widens(
    answer: Result<PyPIResponse, AnalysisError>,
    seen: Map<CacheKeyView, Cached>,
    key: CacheKeyView,
    consulted_at: u64,
    ttl_seconds: u64,
    narrow: spec_fn(Result<PyPIResponse, AnalysisError>) -> bool,
    wide: spec_fn(Result<PyPIResponse, AnalysisError>) -> bool,
)
    requires
        is_shared_outcome(answer, seen, key, consulted_at, ttl_seconds, narrow),
        forall|fetched: Result<PyPIResponse, AnalysisError>| #[trigger]
            narrow(fetched) ==> wide(fetched),
    ensures
        is_shared_outcome(answer, seen, key, consulted_at, ttl_seconds, wide),
{
    if served(seen, key, consulted_at, ttl_seconds) is None {
        let fetched = choose|fetched: Result<PyPIResponse, AnalysisError>|
            {
                &&& #[trigger] narrow(fetched)
                &&& match fetched {
                    Ok(data) => answer == Ok::<PyPIResponse, AnalysisError>(data) || (answer matches Err(
                        error,
                    ) && is_write_lock_failure(error)),
                    Err(failure) => answer == Err::<PyPIResponse, AnalysisError>(failure),
                }
            };
        assert(wide(fetched));
    }
}

/// Answers a request for the metadata of a package from the shared store,
/// fetching it where the store has nothing fresh.
///
/// The store is consulted under the lock for readers: a fresh answer stored
/// under the key is handed back as a copy, and `fetch_fn` is not called.
/// Otherwise that lock is let go and `fetch_fn` is called once, with no lock
/// held. What it fetched is stored under the lock for writers, as of a
/// second reading of the clock, and handed back; its failure is handed back
/// unchanged and nothing is stored. Where a lock is found poisoned the
/// request fails with `CacheUnavailable`. Neither the clock nor `fetch_fn`
/// runs while a lock is held.
pub fn fetch_pypi_metadata_cached<C, F>(
    cache: &SharedCache,
    package_name: &str,
    version: Option<&str>,
    ttl_seconds: u64,
    clock: &C,
    fetch_fn: F,
) -> (answer: Result<PyPIResponse, AnalysisError>) where
    C: Fn() -> u64,
    F: FnOnce() -> Result<PyPIResponse, AnalysisError>,

    requires
        call_requires(*clock, ()),
        call_requires(fetch_fn, ()),
    ensures
        answer matches Err(error) ==> is_lock_failure(error) || call_ensures(
            fetch_fn,
            (),
            Err::<PyPIResponse, AnalysisError>(error),
        ),
        (answer matches Err(error) && is_read_lock_failure(error)) || exists|
            consulted_at: u64,
            seen: Map<CacheKeyView, Cached>,
        |
            {
                &&& call_ensures(*clock, (), consulted_at)
                &&& #[trigger] is_shared_outcome(
                    answer,
                    seen,
                    request_key(package_name@, version),
                    consulted_at,
                    ttl_seconds,
                    fetch_results(fetch_fn),
                )
            },
{
    let key = CacheKey::new(package_name, version);
    let consulted_at = clock();
    let ghost seen = Map::<CacheKeyView, Cached>::empty();
    let found = match lock_for_reading(&cache.lock) {
        Some(guard) => {
            let store = read_access(&guard);
            proof {
                seen = store@;
            }
            store.lookup(&key, consulted_at, ttl_seconds)
        },
        None => {
            return Err(read_lock_poisoned());
        },
    };
    if let Some(data) = found {
        let answer = Ok(data);
        assert(is_shared_outcome(
            answer,
            seen,
            request_key(package_name@, version),
            consulted_at,
            ttl_seconds,
            fetch_results(fetch_fn),
        ));
        return answer;
    }
    let outcome = fetch_fn();
    let ghost fetched = outcome;
    assert(fetch_results(fetch_fn)(fetched));
    let answer = match outcome {
        Ok(data) => {
            let stored_at = clock();
            match lock_for_writing(&cache.lock) {
                Some(mut guard) => {
                    write_access(&mut guard).store(key, data.clone(), stored_at);
                    Ok(data)
                },
                None => Err(write_lock_poisoned()),
            }
        },
        Err(failure) => Err(failure),
    };
    assert(is_shared_outcome(
        answer,
        seen,
        request_key(package_name@, version),
        consulted_at,
        ttl_seconds,
        fetch_results(fetch_fn),
    ));
    answer
}

/// Drops every answer from the shared store. Fails with `CacheUnavailable`
/// where the lock is found poisoned.
pub fn clear_metadata_cache(cache: &SharedCache) -> (done: Result<(), AnalysisError>)
    ensures
        done matches Err(error) ==> is_lock_failure(error),
{
    match lock_for_writing(&cache.lock) {
        Some(mut guard) => {
            write_access(&mut guard).clear();
            Ok(())
        },
        None => Err(write_lock_poisoned()),
    }
}

/// The number of answers in the shared store, and the ages in whole seconds,
/// at the clock's reading, of the oldest and of the newest; no ages where
/// nothing is stored. Fails with `CacheUnavailable` where the lock is found
/// poisoned.
pub fn get_cache_info<C>(cache: &SharedCache, clock: &C) -> (info: Result<
    (usize, Option<u64>, Option<u64>),
    AnalysisError,
>) where C: Fn() -> u64
    requires
        call_requires(*clock, ()),
    ensures
        match info {
            Ok(found) => {
                &&& found.1 is None <==> found.0 == 0
                &&& found.2 is None <==> found.0 == 0
                &&& found.1 matches Some(oldest) ==> (found.2 matches Some(newest) ==> newest
                    <= oldest)
                &&& exists|now: u64, seen: Map<CacheKeyView, Cached>|
                    call_ensures(*clock, (), now) && #[trigger] is_cache_info(found, seen, now)
            },
            Err(error) => is_read_lock_failure(error),
        },
{
    let now = clock();
    match lock_for_reading(&cache.lock) {
        Some(guard) => {
            let store = read_access(&guard);
            let found = store.stats(now);
            proof {
                if found.0 == 0 {
                    store@.dom().lemma_len0_is_empty();
                }
                assert(is_cache_info(found, store@, now));
            }
            Ok(found)
        },
        None => Err(read_lock_poisoned()),
    }
}

/// `error` says that the lock was found poisoned when the store was to be
/// consulted.
pub open spec fn is_read_lock_failure(error: AnalysisError) -> bool {
    error matches AnalysisError::CacheUnavailable(text) && text@ == "Cache read lock poisoned"@
}

/// `error` says that the lock was found poisoned when the store was to be
/// changed.
pub open spec fn is_write_lock_failure(error: AnalysisError) -> bool {
    error matches AnalysisError::CacheUnavailable(text) && text@ == "Cache write lock poisoned"@
}

/// `error` says that the lock was found poisoned, and on which side.
pub open spec fn is_lock_failure(error: AnalysisError) -> bool {
    is_read_lock_failure(error) || is_write_lock_failure(error)
}

/// The failure of a request that found the lock poisoned when it went to
/// consult the store.
fn read_lock_poisoned() -> (error: AnalysisError)
    ensures
        is_read_lock_failure(error),
{
    AnalysisError::CacheUnavailable(String::from_str("Cache read lock poisoned"))
}

/// The failure of a request that found the lock poisoned when it went to
/// change the store.
fn write_lock_poisoned() -> (error: AnalysisError)
    ensures
        is_write_lock_failure(error),
{
    AnalysisError::CacheUnavailable(String::from_str("Cache write lock poisoned"))
}

} // verus!
