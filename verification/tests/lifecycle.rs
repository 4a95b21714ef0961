use hello_actix::auth::{
    create_api_key, generate_salt, is_key_allowed_access, issue, load_api_keys, prepare_store,
    revocations, revoke_api_key, salt_from_random, seal_envelope, store_api_key,
    store_api_key_with_salt, API_KEY_LENGTH, SALT_LENGTH,
};
use hello_actix::cache::AuthorizationCache;
use hello_actix::cipher::open;
use hello_actix::db::{ApiKeyRow, Database, Envelope, Query, Timestamp};
use hello_actix::error::AuthError;
use hello_actix::master_key::MasterKey;

const TOKEN: &str = "AB12AB12AB12AB12AB12AB12AB12AB12AB12EF==";

fn key() -> MasterKey {
    MasterKey::from_bytes(vec![7; 32]).unwrap()
}

fn at(seconds: i64) -> Timestamp {
    Timestamp { seconds, nanoseconds: 0 }
}

fn corrupted(database: &Database, row: usize) -> Database {
    let mut rows: Vec<ApiKeyRow> = database.api_keys().clone();
    rows[row].salt = "AAAAAAAAAAAAAAAAAAAAAA".to_string();
    Database::from_rows(database.usage().clone(), rows)
}

#[test]
fn a_token_has_forty_letters_and_digits() {
    assert_eq!(API_KEY_LENGTH, 40);
    let token = create_api_key();
    assert_eq!(token.chars().count(), 40);
    assert!(token.chars().all(|c| c.is_ascii_alphanumeric()));
    assert_ne!(token, create_api_key());
}

#[test]
fn a_salt_has_sixteen_bytes() {
    assert_eq!(SALT_LENGTH, 16);
    let salt = generate_salt().unwrap();
    assert_eq!(salt.len(), 16);
    assert_ne!(salt, generate_salt().unwrap());
}

#[test]
fn a_failed_random_source_gives_no_salt() {
    assert_eq!(salt_from_random(None), Err(AuthError::RandomnessError));
    assert_eq!(salt_from_random(Some(vec![1, 2, 3])), Ok(vec![1, 2, 3]));
}

#[test]
fn an_envelope_holds_the_encoded_salt_and_the_sealed_token() {
    let salt: Vec<u8> = (0u8..16).collect();
    let envelope = seal_envelope(&key(), TOKEN, &salt).unwrap();
    assert_eq!(envelope.salt, "AAECAwQFBgcICQoLDA0ODw");
    assert_eq!(
        envelope.api_key,
        "IJqVgLrQOtqgRb5WhTl6nPytmMsynpppV1ex+g6rK1Ssi3hmxrRWw7iF1lRDOZdyl8MDukH1+gE"
    );
    assert_eq!(open(&key(), &envelope.api_key, &salt), Ok(TOKEN.to_string()));
}

#[test]
fn issue_then_revoke_then_revoke_again() {
    let key = key();
    let mut database = Database::new();
    let mut api_keys = AuthorizationCache::new();

    assert_eq!(store_api_key(&key, &mut database, &mut api_keys, TOKEN, at(1)), Ok(()));
    assert!(is_key_allowed_access(&api_keys, TOKEN));

    assert_eq!(revoke_api_key(&key, &mut database, &mut api_keys, TOKEN.to_string(), at(2)), Ok(()));
    assert!(!is_key_allowed_access(&api_keys, TOKEN));

    assert_eq!(revoke_api_key(&key, &mut database, &mut api_keys, TOKEN.to_string(), at(3)), Ok(()));
    assert!(!is_key_allowed_access(&api_keys, TOKEN));
    // The second revocation was a no-op: the row keeps its first time.
    assert_eq!(database.api_keys().len(), 1);
    assert_eq!(database.api_keys()[0].revoked_at, Some(at(2)));
}

#[test]
fn a_corrupted_salt_fails_the_reload_and_keeps_the_cache() {
    let key = key();
    let mut database = Database::new();
    let mut api_keys = AuthorizationCache::new();
    store_api_key(&key, &mut database, &mut api_keys, "first", at(1)).unwrap();
    store_api_key(&key, &mut database, &mut api_keys, "second", at(2)).unwrap();

    let damaged = corrupted(&database, 0);
    assert_eq!(
        load_api_keys(&key, &damaged, &mut api_keys),
        Err(AuthError::DecryptionFailed)
    );
    assert!(is_key_allowed_access(&api_keys, "first"));
    assert!(is_key_allowed_access(&api_keys, "second"));
    assert!(!is_key_allowed_access(&api_keys, "third"));
}

#[test]
fn a_salt_that_is_no_base64_fails_the_reload() {
    let key = key();
    let envelope = seal_envelope(&key, "first", &[1; 16]).unwrap();
    let mut database = Database::new();
    database.insert_active(envelope.api_key, "not base64!".to_string(), at(1));
    let mut api_keys = AuthorizationCache::new();
    assert_eq!(
        load_api_keys(&key, &database, &mut api_keys),
        Err(AuthError::DecryptionFailed)
    );
}

#[test]
fn a_reload_under_another_key_fails_and_keeps_the_cache() {
    let key = key();
    let mut database = Database::new();
    let mut api_keys = AuthorizationCache::new();
    store_api_key(&key, &mut database, &mut api_keys, "first", at(1)).unwrap();
    let stale = MasterKey::from_bytes(vec![8; 32]).unwrap();
    assert_eq!(
        load_api_keys(&stale, &database, &mut api_keys),
        Err(AuthError::DecryptionFailed)
    );
    assert!(is_key_allowed_access(&api_keys, "first"));
}

#[test]
fn a_reload_replaces_the_whole_cache() {
    let key = key();
    let mut database = Database::new();
    let mut api_keys = AuthorizationCache::new();
    store_api_key(&key, &mut database, &mut api_keys, "first", at(1)).unwrap();

    let mut other = Database::new();
    let mut scratch = AuthorizationCache::new();
    store_api_key(&key, &mut other, &mut scratch, "second", at(2)).unwrap();

    assert_eq!(load_api_keys(&key, &other, &mut api_keys), Ok(()));
    assert!(!is_key_allowed_access(&api_keys, "first"));
    assert!(is_key_allowed_access(&api_keys, "second"));

    assert_eq!(load_api_keys(&key, &Database::new(), &mut api_keys), Ok(()));
    assert!(!is_key_allowed_access(&api_keys, "second"));
}

#[test]
fn an_issued_token_is_allowed_until_it_is_revoked_and_never_after() {
    let key = key();
    let mut database = Database::new();
    let mut api_keys = AuthorizationCache::new();

    let token = issue(&key, &mut database, &mut api_keys, at(1)).unwrap();
    assert_eq!(token.len(), 40);
    assert!(is_key_allowed_access(&api_keys, &token));

    let other = issue(&key, &mut database, &mut api_keys, at(2)).unwrap();
    assert!(is_key_allowed_access(&api_keys, &token));
    revoke_api_key(&key, &mut database, &mut api_keys, other.clone(), at(3)).unwrap();
    assert!(is_key_allowed_access(&api_keys, &token));
    load_api_keys(&key, &database, &mut api_keys).unwrap();
    assert!(is_key_allowed_access(&api_keys, &token));

    revoke_api_key(&key, &mut database, &mut api_keys, token.clone(), at(4)).unwrap();
    assert!(!is_key_allowed_access(&api_keys, &token));

    load_api_keys(&key, &database, &mut api_keys).unwrap();
    assert!(!is_key_allowed_access(&api_keys, &token));
    let third = issue(&key, &mut database, &mut api_keys, at(5)).unwrap();
    assert!(!is_key_allowed_access(&api_keys, &token));
    assert!(!is_key_allowed_access(&api_keys, &other));
    assert!(is_key_allowed_access(&api_keys, &third));
    revoke_api_key(&key, &mut database, &mut api_keys, other, at(6)).unwrap();
    assert!(!is_key_allowed_access(&api_keys, &token));
    assert!(is_key_allowed_access(&api_keys, &third));
}

#[test]
fn revoking_an_unknown_token_succeeds_and_changes_nothing() {
    let key = key();
    let mut database = Database::new();
    let mut api_keys = AuthorizationCache::new();
    store_api_key(&key, &mut database, &mut api_keys, "first", at(1)).unwrap();
    store_api_key(&key, &mut database, &mut api_keys, "second", at(2)).unwrap();
    let rows = database.api_keys().clone();

    assert_eq!(
        revoke_api_key(&key, &mut database, &mut api_keys, "unknown".to_string(), at(3)),
        Ok(())
    );
    assert_eq!(database.api_keys(), &rows);
    assert!(is_key_allowed_access(&api_keys, "first"));
    assert!(is_key_allowed_access(&api_keys, "second"));
    assert!(!is_key_allowed_access(&api_keys, "unknown"));

    let mut empty = Database::new();
    let mut none = AuthorizationCache::new();
    assert_eq!(revoke_api_key(&key, &mut empty, &mut none, "unknown".to_string(), at(4)), Ok(()));
    assert_eq!(empty.api_keys().len(), 0);
}

#[test]
fn revoking_a_token_revokes_every_key_that_holds_it() {
    let key = key();
    let mut database = Database::new();
    let mut api_keys = AuthorizationCache::new();
    store_api_key(&key, &mut database, &mut api_keys, "twice", at(1)).unwrap();
    store_api_key(&key, &mut database, &mut api_keys, "once", at(2)).unwrap();
    store_api_key(&key, &mut database, &mut api_keys, "twice", at(3)).unwrap();
    assert_ne!(database.api_keys()[0].salt, database.api_keys()[2].salt);

    revoke_api_key(&key, &mut database, &mut api_keys, "twice".to_string(), at(4)).unwrap();
    assert_eq!(database.api_keys()[0].revoked_at, Some(at(4)));
    assert_eq!(database.api_keys()[1].revoked_at, None);
    assert_eq!(database.api_keys()[2].revoked_at, Some(at(4)));
    assert!(!is_key_allowed_access(&api_keys, "twice"));
    assert!(is_key_allowed_access(&api_keys, "once"));
}

#[test]
fn revoking_in_an_unreadable_store_fails_and_changes_nothing() {
    let key = key();
    let mut database = Database::new();
    let mut api_keys = AuthorizationCache::new();
    store_api_key(&key, &mut database, &mut api_keys, "first", at(1)).unwrap();
    store_api_key(&key, &mut database, &mut api_keys, "second", at(2)).unwrap();
    let mut damaged = corrupted(&database, 1);
    let rows = damaged.api_keys().clone();

    assert_eq!(
        revoke_api_key(&key, &mut damaged, &mut api_keys, "first".to_string(), at(3)),
        Err(AuthError::DecryptionFailed)
    );
    assert_eq!(damaged.api_keys(), &rows);
    assert!(is_key_allowed_access(&api_keys, "first"));
    assert!(is_key_allowed_access(&api_keys, "second"));
}

#[test]
fn storing_in_an_unreadable_store_fails_and_changes_nothing() {
    let key = key();
    let mut database = Database::new();
    let mut api_keys = AuthorizationCache::new();
    store_api_key(&key, &mut database, &mut api_keys, "first", at(1)).unwrap();
    let mut damaged = corrupted(&database, 0);

    assert_eq!(
        store_api_key(&key, &mut damaged, &mut api_keys, "second", at(2)),
        Err(AuthError::DecryptionFailed)
    );
    assert_eq!(damaged.api_keys().len(), 1);
    assert!(is_key_allowed_access(&api_keys, "first"));
    assert!(!is_key_allowed_access(&api_keys, "second"));
    assert_eq!(
        issue(&key, &mut damaged, &mut api_keys, at(3)).err(),
        Some(AuthError::DecryptionFailed)
    );
    assert_eq!(damaged.api_keys().len(), 1);
}

#[test]
fn storing_with_a_given_salt_appends_its_envelope() {
    let key = key();
    let salt: Vec<u8> = (0u8..16).collect();
    let mut database = Database::new();
    let mut api_keys = AuthorizationCache::new();
    assert_eq!(
        store_api_key_with_salt(&key, &mut database, &mut api_keys, TOKEN, &salt, at(9)),
        Ok(())
    );
    assert_eq!(
        database.api_keys(),
        &vec![ApiKeyRow {
            salt: "AAECAwQFBgcICQoLDA0ODw".to_string(),
            api_key: "IJqVgLrQOtqgRb5WhTl6nPytmMsynpppV1ex+g6rK1Ssi3hmxrRWw7iF1lRDOZdyl8MDukH1+gE"
                .to_string(),
            created_at: at(9),
            revoked_at: None,
        }]
    );
    assert!(is_key_allowed_access(&api_keys, TOKEN));
}

#[test]
fn a_prepared_store_names_the_query_and_the_cache() {
    let key = key();
    let first = seal_envelope(&key, "first", &[1; 16]).unwrap();
    let (query, cache) = prepare_store(&key, vec![first.clone()], "second", &[2; 16]).unwrap();
    let second = seal_envelope(&key, "second", &[2; 16]).unwrap();
    assert_eq!(query, Query::StoreApiKey { salt: second.salt, api_key: second.api_key });
    assert!(cache.check("first"));
    assert!(cache.check("second"));

    let broken = Envelope { salt: first.salt, api_key: "AAAA".to_string() };
    assert_eq!(
        prepare_store(&key, vec![broken], "second", &[2; 16]).err(),
        Some(AuthError::DecryptionFailed)
    );
}

#[test]
fn revocations_are_the_envelopes_that_hold_the_token() {
    let key = key();
    let a = seal_envelope(&key, "twice", &[1; 16]).unwrap();
    let b = seal_envelope(&key, "once", &[2; 16]).unwrap();
    let c = seal_envelope(&key, "twice", &[3; 16]).unwrap();
    let active = vec![a.clone(), b.clone(), c.clone()];
    assert_eq!(revocations(&key, &active, "twice"), Ok(vec![a, c]));
    assert_eq!(revocations(&key, &active, "once"), Ok(vec![b.clone()]));
    assert_eq!(revocations(&key, &active, "never"), Ok(vec![]));
    assert_eq!(revocations(&key, &vec![], "never"), Ok(vec![]));

    let broken = Envelope { salt: b.salt, api_key: "AAAA".to_string() };
    assert_eq!(
        revocations(&key, &vec![active[0].clone(), broken], "twice"),
        Err(AuthError::DecryptionFailed)
    );
}
