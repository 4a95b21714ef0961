//! The authorization cache: the tokens of the active keys, each with its
//! salt, rebuilt as a whole from the envelopes of the record store.

use crate::cipher::{open, opened};
use crate::db::{envelope_views, Envelope, EnvelopeView};
use crate::encoding::{base64_decoded, decode};
use crate::error::AuthError;
use crate::master_key::MasterKey;
use vstd::hash_map::StringHashMap;
use vstd::prelude::*;

verus! {

/// The token that an envelope holds under `key`: its salt decoded from
/// base64, and its sealed token opened under that salt.
pub open spec fn envelope_token(key: Seq<u8>, envelope: EnvelopeView) -> Option<Seq<char>> {
    match base64_decoded(envelope.salt) {
        Some(salt) => opened(key, envelope.api_key, salt),
        None => None,
    }
}

/// The mapping from token to salt that the envelopes give under `key`, or
/// nothing if any of them cannot be opened. Of two envelopes with the same
/// token the later one gives the salt.
pub open spec fn cache_of(key: Seq<u8>, envelopes: Seq<EnvelopeView>) -> Option<
    Map<Seq<char>, Seq<u8>>,
>
    decreases envelopes.len(),
{
    if envelopes.len() == 0 {
        Some(Map::empty())
    } else {
        match (cache_of(key, envelopes.drop_last()), envelope_token(key, envelopes.last())) {
            (Some(map), Some(token)) => Some(
                map.insert(token, base64_decoded(envelopes.last().salt).unwrap()),
            ),
            _ => None,
        }
    }
}

/// If the envelopes give a mapping, so does every prefix of them.
pub proof fn lemma_cache_of_prefix(key: Seq<u8>, envelopes: Seq<EnvelopeView>, n: int)
    requires
        0 <= n <= envelopes.len(),
        cache_of(key, envelopes) is Some,
    ensures
        cache_of(key, envelopes.take(n)) is Some,
    decreases envelopes.len(),
{
    if n == envelopes.len() {
        assert(envelopes.take(n) =~= envelopes);
    } else {
        lemma_cache_of_prefix(key, envelopes.drop_last(), n);
        assert(envelopes.drop_last().take(n) =~= envelopes.take(n));
    }
}

/// The envelopes give a mapping exactly when each of them can be opened,
/// and its tokens are then exactly the tokens of the envelopes.
pub proof fn lemma_cache_of_tokens(key: Seq<u8>, envelopes: Seq<EnvelopeView>)
    ensures
        cache_of(key, envelopes) is Some <==> forall|i: int|
            0 <= i < envelopes.len() ==> envelope_token(key, #[trigger] envelopes[i]) is Some,
        cache_of(key, envelopes) is Some ==> forall|token: Seq<char>|
            cache_of(key, envelopes).unwrap().contains_key(token) <==> exists|i: int|
                0 <= i < envelopes.len() && envelope_token(key, #[trigger] envelopes[i]) == Some(
                    token,
                ),
    decreases envelopes.len(),
{
    if envelopes.len() > 0 {
        let front = envelopes.drop_last();
        lemma_cache_of_tokens(key, front);
        assert(forall|i: int| 0 <= i < front.len() ==> front[i] == envelopes[i]);
        if cache_of(key, envelopes) is Some {
            let map = cache_of(key, envelopes).unwrap();
            let last = envelopes.len() - 1;
            assert forall|token: Seq<char>| map.contains_key(token) implies exists|i: int|
                0 <= i < envelopes.len() && envelope_token(key, #[trigger] envelopes[i]) == Some(
                    token,
                ) by {
                if envelope_token(key, envelopes[last]) == Some(token) {
                } else {
                    assert(cache_of(key, front).unwrap().contains_key(token));
                    let i = choose|i: int|
                        0 <= i < front.len() && envelope_token(key, #[trigger] front[i]) == Some(
                            token,
                        );
                    assert(envelope_token(key, envelopes[i]) == Some(token));
                }
            }
            assert forall|token: Seq<char>|
                (exists|i: int|
                    0 <= i < envelopes.len() && envelope_token(key, #[trigger] envelopes[i])
                        == Some(token)) implies map.contains_key(token) by {
                let i = choose|i: int|
                    0 <= i < envelopes.len() && envelope_token(key, #[trigger] envelopes[i])
                        == Some(token);
                if i < last {
                    assert(envelope_token(key, front[i]) == Some(token));
                }
            }
        } else {
            if cache_of(key, front) is Some {
                assert(envelope_token(key, envelopes[envelopes.len() - 1]) is None);
            } else {
                let i = choose|i: int|
                    0 <= i < front.len() && !(envelope_token(key, #[trigger] front[i]) is Some);
                assert(!(envelope_token(key, envelopes[i]) is Some));
            }
        }
    }
}

/// The tokens that are allowed access, each with the salt of its key.
pub struct AuthorizationCache {
    salts: StringHashMap<Vec<u8>>,
}

impl View for AuthorizationCache {
    type V = Map<Seq<char>, Seq<u8>>;

    closed spec fn view(&self) -> Map<Seq<char>, Seq<u8>> {
        self.salts@.map_values(|salt: Vec<u8>| salt@)
    }
}

impl AuthorizationCache {
    /// A cache that allows no token.
    pub fn new() -> (cache: AuthorizationCache)
        ensures
            cache@ == Map::<Seq<char>, Seq<u8>>::empty(),
    {
        let cache = AuthorizationCache { salts: StringHashMap::new() };
        assert(cache@ =~= Map::<Seq<char>, Seq<u8>>::empty());
        cache
    }

    /// Whether `token` is allowed access.
    pub fn check(&self, token: &str) -> (allowed: bool)
        ensures
            allowed == self@.contains_key(token@),
    {
        self.salts.contains_key(token)
    }

    /// Replaces the whole cache by what `active` gives under `key`. If any
    /// envelope cannot be opened the cache keeps what it held.
    pub fn reload(&mut self, key: &MasterKey, active: &Vec<Envelope>) -> (done: Result<
        (),
        AuthError,
    >)
        ensures
            match cache_of(key@, envelope_views(active@)) {
                Some(map) => done is Ok && final(self)@ == map,
                None => done == Err::<(), AuthError>(AuthError::DecryptionFailed) && final(self)@
                    == old(self)@,
            },
    {
        let ghost envelopes = envelope_views(active@);
        let mut fresh = AuthorizationCache::new();
        let mut i: usize = 0;
        while i < active.len()
            invariant
                i <= active@.len(),
                envelopes == envelope_views(active@),
                cache_of(key@, envelopes.take(i as int)) == Some(fresh@),
            decreases active@.len() - i,
        {
            proof {
                assert(envelopes.take(i + 1).drop_last() =~= envelopes.take(i as int));
                assert(envelopes.take(i + 1).last() == active@[i as int]@);
                if cache_of(key@, envelopes) is Some {
                    lemma_cache_of_prefix(key@, envelopes, i + 1);
                }
            }
            let salt = match decode(active[i].salt.as_str()) {
                Some(salt) => salt,
                None => {
                    return Err(AuthError::DecryptionFailed);
                },
            };
            let token = match open(key, active[i].api_key.as_str(), salt.as_slice()) {
                Ok(token) => token,
                Err(_) => {
                    return Err(AuthError::DecryptionFailed);
                },
            };
            let ghost before = fresh@;
            fresh.salts.insert(token, salt);
            assert(fresh@ =~= before.insert(token@, salt@));
            i = i + 1;
        }
        proof {
            assert(envelopes.take(i as int) =~= envelopes);
        }
        *self = fresh;
        Ok(())
    }
}

} // verus!
