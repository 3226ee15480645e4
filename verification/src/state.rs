//! Session state: the in-memory cache binding a session id to the local
//! commitment/opening pair, and the request/response shapes of the protocol.
//!
//! The cache is keyed by the 128-bit session id.  Entries can disappear on
//! their own — the cache evicts by time-to-live, time-to-idle and capacity —
//! so every contract only promises that the entries after a call are among
//! the entries before it plus whatever the call inserted.

use vstd::prelude::*;

use crate::bytes::le_bytes_to_u64;
use crate::commitment::{Commitment, Opening};
use crate::errors::RandomGenerationError;
use crate::random::generate_random;

verus! {

/// What a node caches for one session: the commitment it answered with and
/// its own opening.  On a peer the commitment is the aggregate of the
/// dealer's and the peer's own; the opening is the peer's alone.
#[derive(Debug)]
pub struct CommittedRandomData {
    pub commitment: Commitment,
    pub opening: Opening,
}

/// A revealed pair, both parts in serialized form.
#[derive(Debug, Clone)]
pub struct CommittedRandom {
    pub commitment: Vec<u8>,
    pub opening: Vec<u8>,
}

/// One node's commitment for a session, as sent between nodes.
#[derive(Debug, Clone)]
pub struct CommitmentForRandom {
    pub node_id: u16,
    pub commitment_id: u128,
    pub commitment: Vec<u8>,
}

/// The dealer's reply: the aggregated commitment and the participants.
#[derive(Debug, Clone)]
pub struct CommitmentForRandoms {
    pub commitment_id: u128,
    pub commitment: Vec<u8>,
    pub node_ids: Vec<u16>,
    pub dealer_id: u16,
}

impl Clone for CommittedRandomData {
    fn clone(&self) -> (r: Self)
        ensures
            r.commitment@ == self.commitment@,
            r.opening@ == self.opening@,
    {
        CommittedRandomData { commitment: self.commitment.clone(), opening: self.opening.clone() }
    }
}

/// The view of one cache entry: the commitment's bytes, the opening's value,
/// and the opening's blinding bytes.
pub type EntryView = (Seq<u8>, u64, Seq<u8>);

/// The view of a stored pair.
pub open spec fn data_view(d: CommittedRandomData) -> EntryView {
    (d.commitment@, d.opening@.0, d.opening@.1)
}

#[verifier::external_type_specification]
#[verifier::external_body]
#[verifier::reject_recursive_types(K)]
#[verifier::reject_recursive_types(V)]
#[verifier::reject_recursive_types(S)]
pub struct ExCache<K, V, S>(moka::sync::Cache<K, V, S>);

/// The entries a lookup could currently return from `c`.
pub uninterp spec fn cache_entries(
    c: moka::sync::Cache<u128, CommittedRandomData, std::hash::RandomState>,
) -> Map<u128, EntryView>;

/// The session cache: an in-memory map from session id to the local pair,
/// bounded in size and expiring entries by age and idleness.
pub struct SessionCache {
    cache: moka::sync::Cache<u128, CommittedRandomData, std::hash::RandomState>,
}

impl SessionCache {
    /// The entries a lookup could currently return.
    pub closed spec fn entries(self) -> Map<u128, EntryView> {
        cache_entries(self.cache)
    }

    /// Builds an empty cache with the given capacity, time-to-live and
    /// time-to-idle.
    ///
    /// Relies on `moka::sync::CacheBuilder`: `max_capacity`, `time_to_live`
    /// and `time_to_idle` configure the eviction policy, and `build` returns
    /// a cache with no entries.  `build` panics on an expiration above 1000
    /// years (31 536 000 000 seconds), so those are excluded here.
    #[verifier::external_body]
    fn with_policy(capacity: u64, ttl_secs: u64, tti_secs: u64) -> (r: SessionCache)
        requires
            ttl_secs <= 31_536_000_000,
            tti_secs <= 31_536_000_000,
        ensures
            cache_entries(r.cache) =~= Map::empty(),
    {
        let cache = moka::sync::Cache::builder()
            .max_capacity(capacity)
            .time_to_live(std::time::Duration::from_secs(ttl_secs))
            .time_to_idle(std::time::Duration::from_secs(tti_secs))
            .build();
        SessionCache { cache }
    }

    /// Stores `value` under `key`, replacing any previous entry.
    ///
    /// Relies on `moka::sync::Cache::insert`.  No entry other than `key`'s
    /// can change or appear, and whatever ends up cached under `key` is
    /// `value`; but the new entry itself is not guaranteed to stay, since
    /// the insertion may trigger maintenance, and at capacity the admission
    /// policy can evict the entry it just admitted.
    #[verifier::external_body]
    pub fn insert(&mut self, key: u128, value: CommittedRandomData)
        ensures
            final(self).entries().submap_of(old(self).entries().insert(key, data_view(value))),
            final(self).entries().contains_key(key) ==> final(self).entries()[key] == data_view(
                value,
            ),
    {
        self.cache.insert(key, value);
    }

    /// Looks up `key`, returning a clone of the stored pair.
    ///
    /// Relies on `moka::sync::Cache::get`.  A hit returns what was stored
    /// and keeps it cached; a miss means the key is not (or no longer)
    /// present.  The call itself may expire other entries.
    #[verifier::external_body]
    pub fn get(&mut self, key: u128) -> (r: Option<CommittedRandomData>)
        ensures
            final(self).entries().submap_of(old(self).entries()),
            r is Some ==> old(self).entries().contains_key(key) && old(self).entries()[key]
                == data_view(r->0) && final(self).entries().contains_key(key),
            r is None ==> !final(self).entries().contains_key(key),
    {
        self.cache.get(&key)
    }

    /// Removes any entry under `key`.
    ///
    /// Relies on `moka::sync::Cache::invalidate`: the key is absent
    /// afterwards, and no other entry changes or appears.
    #[verifier::external_body]
    pub fn invalidate(&mut self, key: u128)
        ensures
            final(self).entries().submap_of(old(self).entries()),
            !final(self).entries().contains_key(key),
    {
        self.cache.invalidate(&key);
    }

    /// Decides whether an entry is currently cached under `key`.
    ///
    /// Relies on `moka::sync::Cache::contains_key`.  The call may first
    /// drop expired entries; the answer describes the state after that.
    #[verifier::external_body]
    pub fn contains_key(&mut self, key: u128) -> (r: bool)
        ensures
            final(self).entries().submap_of(old(self).entries()),
            r == final(self).entries().contains_key(key),
    {
        self.cache.contains_key(&key)
    }
}

/// Capacity bound of the session cache.
pub const MAX_CACHED_SESSIONS: u64 = 10000;

/// Time-to-live of a cached session, in seconds: 30 minutes.
pub const SESSION_TTL_SECS: u64 = 1800;

/// Time-to-idle of a cached session, in seconds: 5 minutes.
pub const SESSION_TTI_SECS: u64 = 300;

/// The shared per-process state: the session cache.
pub struct AppState {
    pub cache: SessionCache,
}

/// Creates the process state with an empty session cache.
pub fn create_state() -> (r: AppState)
    ensures
        r.cache.entries() == Map::<u128, EntryView>::empty(),
{
    AppState {
        cache: SessionCache::with_policy(MAX_CACHED_SESSIONS, SESSION_TTL_SECS, SESSION_TTI_SECS),
    }
}

/// Draws a fresh random 128-bit session id in the shape of a version-4
/// UUID: sixteen random bytes with, in the big-endian reading of the id,
/// the version nibble set to four and the variant bits set to the standard
/// variant.  Fails only when the entropy source does.
pub(crate) fn fresh_session_id() -> (r: Result<u128, RandomGenerationError>) {
    let raw = match generate_random(16) {
        Ok(b) => b,
        Err(e) => {
            return Err(e);
        },
    };
    let hi = le_bytes_to_u64(&raw, 0, 8);
    let lo = le_bytes_to_u64(&raw, 8, 8);
    let id: u128 = ((hi as u128) << 64u128) | (lo as u128);
    // Byte 6 of the big-endian layout spans bits 72..80: its high nibble,
    // bits 76..80, carries the version.  Byte 8 spans bits 56..64: its top
    // two bits, 62..64, carry the variant.
    let id: u128 = (id & !(0xfu128 << 76u128)) | (0x4u128 << 76u128);
    let id: u128 = (id & !(0x3u128 << 62u128)) | (0x2u128 << 62u128);
    Ok(id)
}

} // verus!
