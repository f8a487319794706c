//! An in-memory cache whose entries expire after a time-to-live.
//!
//! An expired entry reads as missing through `get`, but its value stays
//! available through `get_stale` for background-refresh patterns.

use crate::ordered_map::OrderedMap;
use vstd::prelude::*;

verus! {

/// `std::time::Instant`, a reading of the monotonic clock.
#[verifier::external_type_specification]
#[verifier::external_body]
pub struct ExInstant(std::time::Instant);

/// `Instant::now`: the current reading of the monotonic clock.
#[verifier::external_body]
fn instant_now() -> std::time::Instant {
    std::time::Instant::now()
}

/// `Instant::elapsed`: the time since `at`; it depends on the clock, so
/// nothing is stated of it.
#[verifier::external_body]
fn elapsed_since(at: &std::time::Instant) -> std::time::Duration {
    at.elapsed()
}

/// `Duration::as_nanos` of a duration: its whole nanoseconds, a function of
/// the duration alone.
pub uninterp spec fn duration_ns(d: std::time::Duration) -> u128;

/// `Duration::as_nanos`: the whole nanoseconds of a duration.
#[verifier::external_body]
fn duration_nanos(d: &std::time::Duration) -> (r: u128)
    ensures
        r == duration_ns(*d),
{
    d.as_nanos()
}

/// Whether an entry of age `age` (in nanoseconds) is still fresh under a
/// time-to-live of `ttl` nanoseconds: it is younger.
pub fn fresh_for(age: u128, ttl: u128) -> (r: bool)
    ensures
        r == fresh_age(age, ttl),
{
    age < ttl
}

/// An entry of age `age` is fresh under a time-to-live of `ttl`: it is
/// younger.
pub open spec fn fresh_age(age: u128, ttl: u128) -> bool {
    age < ttl
}

/// A cached value and the time it was stored.
pub struct CacheEntry<V> {
    value: V,
    inserted_at: std::time::Instant,
}

/// String-keyed cache with a time-to-live for entries.
pub struct ResponseCache<V> {
    entries: OrderedMap<CacheEntry<V>>,
    ttl_nanos: u128,
}

impl<V> View for ResponseCache<V> {
    type V = Map<Seq<char>, V>;

    /// The stored values, fresh or expired.
    closed spec fn view(&self) -> Map<Seq<char>, V> {
        self.entries@.map_values(|e: CacheEntry<V>| e.value)
    }
}

impl<V> ResponseCache<V> {
    /// The time-to-live of entries, in nanoseconds.
    pub closed spec fn ttl_nanos(&self) -> u128 {
        self.ttl_nanos
    }

    /// The entry under `key` is fresh when its age is `age` nanoseconds: it
    /// is present and younger than the time-to-live.
    pub open spec fn fresh_at(&self, key: Seq<char>, age: u128) -> bool {
        self@.contains_key(key) && fresh_age(age, self.ttl_nanos())
    }

    /// The instant at which each entry was stored.
    pub closed spec fn stored_at(&self) -> Map<Seq<char>, std::time::Instant> {
        self.entries@.map_values(|e: CacheEntry<V>| e.inserted_at)
    }

    /// An empty cache whose entries live for `ttl_nanos` nanoseconds.
    pub fn with_ttl_nanos(ttl_nanos: u128) -> (r: Self)
        ensures
            r@ == Map::<Seq<char>, V>::empty(),
            r.stored_at() == Map::<Seq<char>, std::time::Instant>::empty(),
            r.ttl_nanos() == ttl_nanos,
    {
        let r = ResponseCache { entries: OrderedMap::new(), ttl_nanos };
        assert(r@ =~= Map::<Seq<char>, V>::empty());
        assert(r.stored_at() =~= Map::<Seq<char>, std::time::Instant>::empty());
        r
    }

    /// An empty cache whose entries live for `ttl` (taken to the whole
    /// nanosecond, which is how `Duration` counts).
    pub fn new(ttl: std::time::Duration) -> (r: Self)
        ensures
            r@ == Map::<Seq<char>, V>::empty(),
            r.stored_at() == Map::<Seq<char>, std::time::Instant>::empty(),
            r.ttl_nanos() == duration_ns(ttl),
    {
        ResponseCache::with_ttl_nanos(duration_nanos(&ttl))
    }

    /// Stores `value` under `key`, replacing any entry and restarting its
    /// time-to-live: the entry is stamped with the current instant, and
    /// every other entry keeps its value and its instant.
    pub fn insert(&mut self, key: &str, value: V)
        ensures
            final(self)@ == old(self)@.insert(key@, value),
            final(self).stored_at().dom() == old(self).stored_at().dom().insert(key@),
            forall|k: Seq<char>|
                k != key@ && #[trigger] old(self).stored_at().contains_key(k)
                    ==> final(self).stored_at()[k] == old(self).stored_at()[k],
            final(self).ttl_nanos() == old(self).ttl_nanos(),
    {
        let entry = CacheEntry { value, inserted_at: instant_now() };
        let ghost at = entry.inserted_at;
        self.entries.insert(key, entry);
        assert(self@ =~= old(self)@.insert(key@, value));
        assert(self.stored_at() =~= old(self).stored_at().insert(key@, at));
    }

    /// The value under `key` if it is present and has not expired: the age of
    /// its entry, read from the clock since `stored_at()[key]`, is below the
    /// time-to-live. `value_if_fresh` states the answer for each reading. A
    /// zero time-to-live and an absent key give `None`.
    pub fn get(&self, key: &str) -> (r: Option<&V>)
        ensures
            exists|age: u128| r is Some == #[trigger] self.fresh_at(key@, age),
            r matches Some(v) ==> *v == self@[key@],
            self.ttl_nanos() == 0 ==> r is None,
            !self@.contains_key(key@) ==> r is None,
    {
        let fresh = self.is_fresh(key);
        let r = self.value_if_fresh(key, fresh);
        proof {
            let age = choose|age: u128| fresh == #[trigger] self.fresh_at(key@, age);
            assert(r is Some == self.fresh_at(key@, age));
        }
        r
    }

    /// The value under `key` given whether its entry was found fresh: the
    /// stored value when the key is present and `fresh` holds, else `None`.
    pub fn value_if_fresh(&self, key: &str, fresh: bool) -> (r: Option<&V>)
        ensures
            r is Some == (fresh && self@.contains_key(key@)),
            r matches Some(v) ==> *v == self@[key@],
    {
        if !fresh {
            return None;
        }
        match self.entries.get(key) {
            Some(entry) => Some(&entry.value),
            None => None,
        }
    }

    /// The value under `key` whether or not it has expired.
    pub fn get_stale(&self, key: &str) -> (r: Option<&V>)
        ensures
            r is Some == self@.contains_key(key@),
            r matches Some(v) ==> *v == self@[key@],
    {
        match self.entries.get(key) {
            Some(entry) => Some(&entry.value),
            None => None,
        }
    }

    /// Whether `key` is present and has not expired: the clock's age of the
    /// entry, measured from `stored_at()[key]`, is below the time-to-live
    /// (`fresh_for`). An absent key, and any key under a zero time-to-live,
    /// is never fresh.
    pub fn is_fresh(&self, key: &str) -> (r: bool)
        ensures
            exists|age: u128| r == #[trigger] self.fresh_at(key@, age),
            self.ttl_nanos() == 0 ==> !r,
            r ==> self@.contains_key(key@),
    {
        match self.entries.get(key) {
            Some(entry) => {
                let age = duration_nanos(&elapsed_since(&entry.inserted_at));
                let r = fresh_for(age, self.ttl_nanos);
                assert(self@.contains_key(key@));
                assert(r == self.fresh_at(key@, age));
                r
            },
            None => {
                assert(false == self.fresh_at(key@, 0));
                false
            },
        }
    }

    /// Removes the entry under `key`; every other entry keeps its value and
    /// its instant.
    pub fn invalidate(&mut self, key: &str)
        ensures
            final(self)@ == old(self)@.remove(key@),
            final(self).stored_at() == old(self).stored_at().remove(key@),
            final(self).ttl_nanos() == old(self).ttl_nanos(),
    {
        let _ = self.entries.remove(key);
        assert(self@ =~= old(self)@.remove(key@));
        assert(self.stored_at() =~= old(self).stored_at().remove(key@));
    }

    /// Removes every entry.
    pub fn clear(&mut self)
        ensures
            final(self)@ == Map::<Seq<char>, V>::empty(),
            final(self).stored_at() == Map::<Seq<char>, std::time::Instant>::empty(),
            final(self).ttl_nanos() == old(self).ttl_nanos(),
    {
        self.entries.clear();
        assert(self@ =~= Map::<Seq<char>, V>::empty());
        assert(self.stored_at() =~= Map::<Seq<char>, std::time::Instant>::empty());
    }
}

} // verus!
