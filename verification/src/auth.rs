//! The key lifecycle: issuing a key, revoking it, and rebuilding the
//! authorization cache from the record store after every change.

use crate::cache::{cache_of, envelope_token, lemma_cache_of_prefix, AuthorizationCache};
use crate::cipher::{open, seal, sealed};
use crate::db::{
    envelope_views, lemma_active_after_store, Database, Envelope, EnvelopeView, Query, Tables,
    Timestamp,
};
use crate::encoding::{
    base64_decoded, base64_encoded, decode, encode, lemma_base64_round_trip, max_encodable_len,
    push_char, same_text,
};
use crate::error::AuthError;
use crate::master_key::MasterKey;
use crate::random::{is_alphanumeric, random_alphanumeric, secure_random_bytes};
use crate::revocation::{
    holding_token, lemma_active_after_revoke, lemma_cache_without_token,
    lemma_revoked_all_holding, revoked_all, revoked_token,
};
use vstd::prelude::*;

verus! {

/// The number of bytes of a salt.
pub const SALT_LENGTH: usize = 16;

/// The number of characters of a token.
pub const API_KEY_LENGTH: usize = 40;

/// Whether `token` has the shape of an issued token: forty characters, each
/// a letter or a digit of ASCII.
pub open spec fn is_api_key(token: Seq<char>) -> bool {
    &&& token.len() == API_KEY_LENGTH
    &&& forall|i: int| 0 <= i < token.len() ==> is_alphanumeric(#[trigger] token[i])
}

/// Draws a new token: forty random letters and digits. Nothing is stored.
pub fn create_api_key() -> (token: String)
    ensures
        is_api_key(token@),
{
    let mut token = String::new();
    let mut drawn: usize = 0;
    while drawn < API_KEY_LENGTH
        invariant
            drawn <= API_KEY_LENGTH,
            token@.len() == drawn,
            forall|i: int| 0 <= i < token@.len() ==> is_alphanumeric(#[trigger] token@[i]),
        decreases API_KEY_LENGTH - drawn,
    {
        push_char(&mut token, random_alphanumeric());
        drawn = drawn + 1;
    }
    token
}

/// The salt for what the secure random source returned: `None` is a failure
/// of the source.
pub fn salt_from_random(drawn: Option<Vec<u8>>) -> (salt: Result<Vec<u8>, AuthError>)
    ensures
        match drawn {
            Some(bytes) => salt is Ok && salt.unwrap()@ == bytes@,
            None => salt == Err::<Vec<u8>, AuthError>(AuthError::RandomnessError),
        },
{
    match drawn {
        Some(bytes) => Ok(bytes),
        None => Err(AuthError::RandomnessError),
    }
}

/// Draws the salt of a new key: sixteen bytes from the secure random source.
/// It fails with `RandomnessError` exactly when the source does.
pub fn generate_salt() -> (salt: Result<Vec<u8>, AuthError>)
    ensures
        match salt {
            Ok(bytes) => bytes@.len() == SALT_LENGTH,
            Err(e) => e == AuthError::RandomnessError,
        },
{
    salt_from_random(secure_random_bytes(SALT_LENGTH))
}

/// Whether `api_key` is allowed access: whether the cache holds it. Nothing
/// but the cache is consulted.
pub fn is_key_allowed_access(api_keys: &AuthorizationCache, api_key: &str) -> (allowed: bool)
    ensures
        allowed == api_keys@.contains_key(api_key@),
{
    api_keys.check(api_key)
}

/// Rebuilds the cache from the active keys of the store. If any of them
/// cannot be opened under `key`, the call fails and the cache keeps what it
/// held.
pub fn load_api_keys(key: &MasterKey, database: &Database, api_keys: &mut AuthorizationCache) -> (done:
    Result<(), AuthError>)
    ensures
        match cache_of(key@, database@.active()) {
            Some(map) => done is Ok && final(api_keys)@ == map,
            None => done == Err::<(), AuthError>(AuthError::DecryptionFailed) && final(api_keys)@
                == old(api_keys)@,
        },
{
    let active = database.list_active();
    api_keys.reload(key, &active)
}

/// The envelope that stores `api_key` sealed under `key` and bound to
/// `salt`, or nothing where the cipher refuses or the salt is too long to
/// encode.
pub open spec fn sealed_envelope(key: Seq<u8>, api_key: Seq<char>, salt: Seq<u8>) -> Option<
    EnvelopeView,
> {
    match sealed(key, api_key, salt) {
        Some(ciphertext) => if salt.len() <= max_encodable_len() {
            Some(EnvelopeView { salt: base64_encoded(salt), api_key: ciphertext })
        } else {
            None
        },
        None => None,
    }
}

/// Seals `api_key` under `key`, bound to `salt`, into the envelope to store.
/// The envelope opens to `api_key` again, with `salt` as its salt.
pub fn seal_envelope(key: &MasterKey, api_key: &str, salt: &[u8]) -> (made: Result<
    Envelope,
    AuthError,
>)
    ensures
        match sealed_envelope(key@, api_key@, salt@) {
            Some(envelope) => made is Ok && made.unwrap()@ == envelope,
            None => made == Err::<Envelope, AuthError>(AuthError::EncryptionFailed),
        },
        made is Ok ==> base64_decoded(made.unwrap()@.salt) == Some(salt@) && envelope_token(
            key@,
            made.unwrap()@,
        ) == Some(api_key@),
{
    if salt.len() > (isize::MAX as usize) / 2 {
        return Err(AuthError::EncryptionFailed);
    }
    proof {
        lemma_base64_round_trip(salt@);
    }
    match seal(key, api_key, salt) {
        Ok(ciphertext) => Ok(Envelope { salt: encode(salt), api_key: ciphertext }),
        Err(_) => Err(AuthError::EncryptionFailed),
    }
}

/// What storing `api_key` with `salt` at `now` comes to: whether `done`,
/// `after` and `cache_after` are the result, the tables and the cache that
/// follow from `before` and `cache_before`.
///
/// Where the cipher refuses, the call fails with `EncryptionFailed`; where
/// an active key of the store cannot be opened, with `DecryptionFailed`. In
/// both cases nothing changes. Otherwise the envelope is appended as an
/// active row and the cache is what the store gives: the tokens it gave
/// before, and `api_key` with `salt`.
pub open spec fn is_store_outcome(
    key: Seq<u8>,
    api_key: Seq<char>,
    salt: Seq<u8>,
    now: Timestamp,
    before: Tables,
    cache_before: Map<Seq<char>, Seq<u8>>,
    done: Result<(), AuthError>,
    after: Tables,
    cache_after: Map<Seq<char>, Seq<u8>>,
) -> bool {
    match sealed_envelope(key, api_key, salt) {
        None => done == Err::<(), AuthError>(AuthError::EncryptionFailed) && after == before
            && cache_after == cache_before,
        Some(envelope) => match cache_of(key, before.active()) {
            None => done == Err::<(), AuthError>(AuthError::DecryptionFailed) && after == before
                && cache_after == cache_before,
            Some(map) => done is Ok && after == before.stored(envelope.salt, envelope.api_key, now)
                && cache_after == map.insert(api_key, salt),
        },
    }
}

/// Decides how `api_key` is stored with `salt` beside the keys in `active`:
/// the query that appends its envelope, and the cache that holds once the
/// query has run. Every envelope in `active` is opened on the way, so that a
/// store that cannot be read is found before anything is written.
pub fn prepare_store(key: &MasterKey, active: Vec<Envelope>, api_key: &str, salt: &[u8]) -> (plan:
    Result<(Query, AuthorizationCache), AuthError>)
    ensures
        match sealed_envelope(key@, api_key@, salt@) {
            None => plan matches Err(e) && e == AuthError::EncryptionFailed,
            Some(envelope) => match cache_of(key@, envelope_views(active@)) {
                None => plan matches Err(e) && e == AuthError::DecryptionFailed,
                Some(map) => plan is Ok && plan.unwrap().0.stores(envelope) && plan.unwrap().1@
                    == map.insert(api_key@, salt@) && cache_of(
                    key@,
                    envelope_views(active@).push(envelope),
                ) == Some(plan.unwrap().1@),
            },
        },
{
    let envelope = match seal_envelope(key, api_key, salt) {
        Ok(envelope) => envelope,
        Err(e) => {
            return Err(e);
        },
    };
    let query = Query::StoreApiKey {
        salt: envelope.salt.clone(),
        api_key: envelope.api_key.clone(),
    };
    let mut candidates = active;
    candidates.push(envelope);
    proof {
        assert(envelope_views(candidates@) =~= envelope_views(active@).push(envelope@));
        assert(envelope_views(candidates@).drop_last() =~= envelope_views(active@));
    }
    let mut fresh = AuthorizationCache::new();
    match fresh.reload(key, &candidates) {
        Ok(()) => Ok((query, fresh)),
        Err(e) => Err(e),
    }
}

/// Stores `api_key` as a new active key, sealed under `key` with the given
/// `salt`, and rebuilds the cache. Either both happen or neither does.
pub fn store_api_key_with_salt(
    key: &MasterKey,
    database: &mut Database,
    api_keys: &mut AuthorizationCache,
    api_key: &str,
    salt: &[u8],
    now: Timestamp,
) -> (done: Result<(), AuthError>)
    ensures
        is_store_outcome(
            key@,
            api_key@,
            salt@,
            now,
            old(database)@,
            old(api_keys)@,
            done,
            final(database)@,
            final(api_keys)@,
        ),
        done is Ok ==> final(api_keys)@.contains_key(api_key@),
        done is Ok ==> cache_of(key@, final(database)@.active()) == Some(final(api_keys)@),
{
    let (query, fresh) = match prepare_store(key, database.list_active(), api_key, salt) {
        Ok(plan) => plan,
        Err(e) => {
            return Err(e);
        },
    };
    proof {
        let envelope = sealed_envelope(key@, api_key@, salt@).unwrap();
        lemma_active_after_store(old(database)@, envelope.salt, envelope.api_key, now);
    }
    query.execute(database, now);
    *api_keys = fresh;
    Ok(())
}

/// Stores `api_key` as a new active key, sealed under `key` with a fresh
/// salt, and rebuilds the cache. Either both happen or neither does.
///
/// The salt comes from the secure random source: where the source fails the
/// call fails with `RandomnessError` and nothing changes; for the salt that
/// it delivers the outcome is that of [`store_api_key_with_salt`].
pub fn store_api_key(
    key: &MasterKey,
    database: &mut Database,
    api_keys: &mut AuthorizationCache,
    api_key: &str,
    now: Timestamp,
) -> (done: Result<(), AuthError>)
    ensures
        (done == Err::<(), AuthError>(AuthError::RandomnessError) && final(database)@ == old(
            database,
        )@ && final(api_keys)@ == old(api_keys)@) || (exists|salt: Seq<u8>|
            salt.len() == SALT_LENGTH && #[trigger] is_store_outcome(
                key@,
                api_key@,
                salt,
                now,
                old(database)@,
                old(api_keys)@,
                done,
                final(database)@,
                final(api_keys)@,
            )),
        done is Ok ==> final(api_keys)@.contains_key(api_key@),
        done is Ok ==> cache_of(key@, final(database)@.active()) == Some(final(api_keys)@),
{
    let salt = match generate_salt() {
        Ok(salt) => salt,
        Err(e) => {
            return Err(e);
        },
    };
    store_api_key_with_salt(key, database, api_keys, api_key, salt.as_slice(), now)
}

/// The envelopes among `active` that hold `token` under `key`: the keys to
/// revoke when `token` is revoked. Every envelope is opened on the way, and
/// if any cannot be opened the call fails.
pub fn revocations(key: &MasterKey, active: &Vec<Envelope>, token: &str) -> (found: Result<
    Vec<Envelope>,
    AuthError,
>)
    ensures
        match cache_of(key@, envelope_views(active@)) {
            Some(_) => found is Ok && envelope_views(found.unwrap()@) == holding_token(
                key@,
                envelope_views(active@),
                token@,
            ),
            None => found == Err::<Vec<Envelope>, AuthError>(AuthError::DecryptionFailed),
        },
{
    let ghost envelopes = envelope_views(active@);
    let mut found: Vec<Envelope> = Vec::new();
    let mut i: usize = 0;
    while i < active.len()
        invariant
            i <= active@.len(),
            envelopes == envelope_views(active@),
            cache_of(key@, envelopes.take(i as int)) is Some,
            envelope_views(found@) =~= holding_token(key@, envelopes.take(i as int), token@),
        decreases active@.len() - i,
    {
        proof {
            assert(envelopes.take(i + 1).drop_last() =~= envelopes.take(i as int));
            assert(envelopes.take(i + 1).last() == active@[i as int]@);
            if cache_of(key@, envelopes) is Some {
                lemma_cache_of_prefix(key@, envelopes, i + 1);
            }
        }
        let salt = match decode(active[i].salt.as_str()) {
            Some(salt) => salt,
            None => {
                return Err(AuthError::DecryptionFailed);
            },
        };
        let held = match open(key, active[i].api_key.as_str(), salt.as_slice()) {
            Ok(held) => held,
            Err(_) => {
                return Err(AuthError::DecryptionFailed);
            },
        };
        if same_text(held.as_str(), token) {
            found.push(Envelope { salt: active[i].salt.clone(), api_key: active[i].api_key.clone() });
        }
        i = i + 1;
    }
    proof {
        assert(envelopes.take(i as int) =~= envelopes);
    }
    Ok(found)
}

/// Revokes `token`: every active key that holds it is marked as revoked at
/// `now`, and the cache is rebuilt. Either both happen or neither does.
///
/// The call fails, with `DecryptionFailed` and without any change, exactly
/// when an active key of the store cannot be opened under `key`. Otherwise
/// it succeeds, whether or not `token` was ever issued or is revoked
/// already: the cache is then what the store gave before, without `token`.
pub fn revoke_api_key(
    key: &MasterKey,
    database: &mut Database,
    api_keys: &mut AuthorizationCache,
    token: String,
    now: Timestamp,
) -> (done: Result<(), AuthError>)
    ensures
        match cache_of(key@, old(database)@.active()) {
            Some(map) => done is Ok && final(database)@ == revoked_token(
                old(database)@,
                key@,
                token@,
                now,
            ) && final(api_keys)@ == map.remove(token@),
            None => done == Err::<(), AuthError>(AuthError::DecryptionFailed) && final(database)@
                == old(database)@ && final(api_keys)@ == old(api_keys)@,
        },
        done is Ok ==> !final(api_keys)@.contains_key(token@),
        done is Ok ==> cache_of(key@, final(database)@.active()) == Some(final(api_keys)@),
{
    let active = database.list_active();
    let found = match revocations(key, &active, token.as_str()) {
        Ok(found) => found,
        Err(e) => {
            return Err(e);
        },
    };
    let ghost before = old(database)@;
    let mut k: usize = 0;
    while k < found.len()
        invariant
            k <= found@.len(),
            database@ == revoked_all(before, envelope_views(found@).take(k as int), now),
        decreases found@.len() - k,
    {
        proof {
            let all = envelope_views(found@);
            assert(all.take(k + 1).drop_last() =~= all.take(k as int));
            assert(all.take(k + 1).last() == found@[k as int]@);
        }
        let query = Query::RevokeApiKey {
            salt: found[k].salt.clone(),
            api_key: found[k].api_key.clone(),
        };
        query.execute(database, now);
        k = k + 1;
    }
    proof {
        let all = envelope_views(found@);
        assert(all.take(k as int) =~= all);
        lemma_revoked_all_holding(before, key@, token@, now);
        lemma_active_after_revoke(before.api_keys, key@, token@, now);
        lemma_cache_without_token(key@, before.active(), token@);
    }
    load_api_keys(key, database, api_keys)
}

/// What storing reports of a key that was issued: success, or the error
/// that kept the key from being stored.
pub open spec fn stored_as(issued: Result<String, AuthError>) -> Result<(), AuthError> {
    match issued {
        Ok(_) => Ok(()),
        Err(e) => Err(e),
    }
}

/// What issuing a key at `now` comes to: whether `issued`, `after` and
/// `cache_after` are the result, the tables and the cache that follow from
/// `before` and `cache_before`.
///
/// Either the secure random source fails, the call fails with
/// `RandomnessError` and nothing changes; or a token of the shape of
/// [`is_api_key`] and a salt of sixteen bytes are drawn, and the outcome is
/// that of storing this token with this salt, as [`is_store_outcome`] says:
/// on success the token is the one returned.
pub open spec fn is_issue_outcome(
    key: Seq<u8>,
    now: Timestamp,
    before: Tables,
    cache_before: Map<Seq<char>, Seq<u8>>,
    issued: Result<String, AuthError>,
    after: Tables,
    cache_after: Map<Seq<char>, Seq<u8>>,
) -> bool {
    ||| issued matches Err(e) && e == AuthError::RandomnessError && after == before && cache_after
        == cache_before
    ||| exists|token: Seq<char>, salt: Seq<u8>|
        is_api_key(token) && salt.len() == SALT_LENGTH && (issued matches Ok(text) ==> text@
            == token) && #[trigger] is_store_outcome(
            key,
            token,
            salt,
            now,
            before,
            cache_before,
            stored_as(issued),
            after,
            cache_after,
        )
}

/// Issues a key: draws a token, stores it sealed under a fresh salt, and
/// rebuilds the cache. The token is returned here and nowhere else: the
/// store holds only its envelope.
///
/// Token and salt come from random sources, so the contract says what holds
/// of whatever they deliver: the outcome is that of storing the token drawn
/// with the salt drawn. On success the token has the shape of
/// [`is_api_key`], the cache allows it, and the store has one more active
/// row, which holds it. The call fails with `RandomnessError` where the
/// secure random source fails, with `EncryptionFailed` where the cipher
/// refuses, and with `DecryptionFailed` where an active key of the store
/// cannot be opened under `key`; then nothing has changed.
pub fn issue(
    key: &MasterKey,
    database: &mut Database,
    api_keys: &mut AuthorizationCache,
    now: Timestamp,
) -> (issued: Result<String, AuthError>)
    ensures
        is_issue_outcome(
            key@,
            now,
            old(database)@,
            old(api_keys)@,
            issued,
            final(database)@,
            final(api_keys)@,
        ),
        match issued {
            Ok(token) => {
                &&& is_api_key(token@)
                &&& final(api_keys)@.contains_key(token@)
                &&& cache_of(key@, final(database)@.active()) == Some(final(api_keys)@)
            },
            Err(e) => {
                &&& final(database)@ == old(database)@
                &&& final(api_keys)@ == old(api_keys)@
                &&& e == AuthError::RandomnessError || e == AuthError::EncryptionFailed || e
                    == AuthError::DecryptionFailed
                &&& e == AuthError::DecryptionFailed ==> cache_of(key@, old(database)@.active())
                    is None
            },
        },
        cache_of(key@, old(database)@.active()) is None ==> issued is Err,
{
    let token = create_api_key();
    let done = store_api_key(key, database, api_keys, token.as_str(), now);
    let issued = match done {
        Ok(()) => Ok(token),
        Err(e) => Err(e),
    };
    proof {
        if done is Ok {
            assert(done.unwrap() == ());
        }
        assert(stored_as(issued) == done);
        if !(done == Err::<(), AuthError>(AuthError::RandomnessError) && database@ == old(
            database,
        )@ && api_keys@ == old(api_keys)@) {
            let salt = choose|salt: Seq<u8>|
                salt.len() == SALT_LENGTH && #[trigger] is_store_outcome(
                    key@,
                    token@,
                    salt,
                    now,
                    old(database)@,
                    old(api_keys)@,
                    done,
                    database@,
                    api_keys@,
                );
            assert(is_store_outcome(
                key@,
                token@,
                salt,
                now,
                old(database)@,
                old(api_keys)@,
                stored_as(issued),
                database@,
                api_keys@,
            ));
        }
    }
    issued
}

} // verus!
