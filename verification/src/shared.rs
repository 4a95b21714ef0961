//! The authorization cache behind a read/write lock, for the threads that
//! answer requests: many may check at once, and a reload swaps the whole
//! cache in while it holds the lock alone.

use crate::cache::{cache_of, AuthorizationCache};
use crate::db::{envelope_views, Envelope, EnvelopeView};
use crate::error::AuthError;
use crate::master_key::MasterKey;
use vstd::prelude::*;
use vstd::rwlock::RwLock;

verus! {

/// Whether `map` is what some list of envelopes gives as a whole under
/// `key`: the result of a complete rebuild, never a part of one.
pub open spec fn is_rebuilt(key: Seq<u8>, map: Map<Seq<char>, Seq<u8>>) -> bool {
    exists|envelopes: Seq<EnvelopeView>| #[trigger] cache_of(key, envelopes) == Some(map)
}

/// An authorization cache shared between threads, with the master key that
/// its tokens are opened under.
pub struct SharedCache {
    key: MasterKey,
    lock: RwLock<AuthorizationCache, spec_fn(AuthorizationCache) -> bool>,
}

impl SharedCache {
    #[verifier::type_invariant]
    spec fn holds_rebuilt_caches(self) -> bool {
        forall|cache: AuthorizationCache| #[trigger]
            self.lock.inv(cache) <==> is_rebuilt(self.key@, cache@)
    }

    /// The bytes of the master key of this cache.
    pub closed spec fn key(&self) -> Seq<u8> {
        self.key@
    }

    /// A shared cache that allows no token yet.
    pub fn new(key: MasterKey) -> (shared: SharedCache)
        ensures
            shared.key() == key@,
    {
        let empty = AuthorizationCache::new();
        let ghost bytes = key@;
        let ghost allowed = |cache: AuthorizationCache| is_rebuilt(bytes, cache@);
        proof {
            assert(cache_of(bytes, Seq::<EnvelopeView>::empty()) == Some(empty@));
        }
        SharedCache { key, lock: RwLock::new(empty, Ghost(allowed)) }
    }

    /// The master key of this cache.
    pub fn master_key(&self) -> (key: &MasterKey)
        ensures
            key@ == self.key(),
    {
        &self.key
    }

    /// Whether `token` is allowed access, by the cache as it stands while
    /// this thread holds the lock for reading. Whatever other threads do,
    /// that cache is the whole result of one rebuild.
    pub fn check(&self, token: &str) -> (allowed: bool)
        ensures
            exists|map: Map<Seq<char>, Seq<u8>>|
                is_rebuilt(self.key(), map) && allowed == #[trigger] map.contains_key(token@),
    {
        proof {
            use_type_invariant(self);
        }
        let handle = self.lock.acquire_read();
        let allowed = handle.borrow().check(token);
        proof {
            let map = handle.view()@;
            assert(self.lock.inv(handle.view()));
            assert(is_rebuilt(self.key(), map) && allowed == map.contains_key(token@));
        }
        handle.release_read();
        allowed
    }

    /// Rebuilds the cache from `active` and swaps it in as a whole. If any
    /// envelope cannot be opened the call fails and the cache that the
    /// threads share is not touched.
    pub fn reload(&self, active: &Vec<Envelope>) -> (done: Result<(), AuthError>)
        ensures
            match cache_of(self.key(), envelope_views(active@)) {
                Some(_) => done is Ok,
                None => done == Err::<(), AuthError>(AuthError::DecryptionFailed),
            },
    {
        proof {
            use_type_invariant(self);
        }
        let mut fresh = AuthorizationCache::new();
        match fresh.reload(&self.key, active) {
            Ok(()) => {},
            Err(e) => {
                return Err(e);
            },
        }
        let (_stale, handle) = self.lock.acquire_write();
        handle.release_write(fresh);
        Ok(())
    }
}

} // verus!
