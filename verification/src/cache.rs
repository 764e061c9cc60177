//! The attribute cache: a capacity-bounded, TTL-expiring map from composite
//! cache keys to rendered result fragments, backed by moka's synchronous
//! cache.
//!
//! The contracts model the cache as the map of live entries. Because entries
//! expire on their own and the size-based policy may evict or refuse entries,
//! every operation only promises that the live entries afterwards are among
//! those one would expect from the operation: an entry that is present was
//! put there by an insert of exactly that pair, and an invalidated key is
//! gone. Nothing ever promises that an entry is still present.

use vstd::prelude::*;

verus! {

/// The bounded key-value store. The inner cache is reached only through the
/// trusted operations below.
#[verifier::external_body]
pub struct AttrCache {
    inner: moka::sync::Cache<String, String>,
}

/// The entries the cache currently holds.
pub uninterp spec fn cache_contents(c: AttrCache) -> Map<Seq<char>, Seq<char>>;

impl AttrCache {
    /// Relies on moka's cache builder: a fresh cache with the given capacity
    /// bound and time-to-live (in seconds) holds nothing. The builder panics
    /// on a time-to-live of 1000 years or more, so such values are excluded.
    #[verifier::external_body]
    pub fn new(capacity: u64, ttl_secs: u64) -> (r: AttrCache)
        requires
            ttl_secs <= 30_000_000_000,
        ensures
            forall|k: Seq<char>| !cache_contents(r).contains_key(k),
    {
        AttrCache {
            inner: moka::sync::Cache::builder().max_capacity(capacity).time_to_live(
                std::time::Duration::from_secs(ttl_secs),
            ).build(),
        }
    }

    /// Relies on moka's `get`: it returns a clone of the live entry under the
    /// key, or nothing; reading never adds entries, though expiry may drop
    /// some.
    #[verifier::external_body]
    pub fn get(&mut self, key: &str) -> (r: Option<String>)
        ensures
            r matches Some(v) ==> cache_contents(*old(self)).contains_key(key@)
                && cache_contents(*old(self))[key@] == v@,
            cache_contents(*final(self)).submap_of(cache_contents(*old(self))),
    {
        self.inner.get(key)
    }

    /// Relies on moka's `insert`: afterwards the live entries are among the
    /// previous ones plus the new pair; the size policy may evict others or
    /// refuse the new entry.
    #[verifier::external_body]
    pub fn insert(&mut self, key: String, value: String)
        ensures
            cache_contents(*final(self)).submap_of(
                cache_contents(*old(self)).insert(key@, value@),
            ),
    {
        self.inner.insert(key, value);
    }

    /// Relies on moka's `invalidate`: the entry under the key is discarded at
    /// once, and nothing new appears.
    #[verifier::external_body]
    pub fn invalidate(&mut self, key: &str)
        ensures
            !cache_contents(*final(self)).contains_key(key@),
            cache_contents(*final(self)).submap_of(cache_contents(*old(self)).remove(key@)),
    {
        self.inner.invalidate(key);
    }
}

} // verus!
