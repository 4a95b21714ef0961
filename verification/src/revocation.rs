//! Revocation in the model of the record store: which rows a revoked token
//! marks, and what that does to the active envelopes and to the cache.

use crate::cache::{cache_of, envelope_token};
use crate::db::{
    active_envelopes, lemma_active_envelopes_rows, ApiKeyRecord, EnvelopeView, Tables, Timestamp,
};
use crate::encoding::base64_decoded;
use vstd::prelude::*;

verus! {

/// The envelopes among `envelopes` that hold `token` under `key`, in their
/// order.
pub open spec fn holding_token(key: Seq<u8>, envelopes: Seq<EnvelopeView>, token: Seq<char>) -> Seq<
    EnvelopeView,
>
    decreases envelopes.len(),
{
    if envelopes.len() == 0 {
        Seq::empty()
    } else if envelope_token(key, envelopes.last()) == Some(token) {
        holding_token(key, envelopes.drop_last(), token).push(envelopes.last())
    } else {
        holding_token(key, envelopes.drop_last(), token)
    }
}

/// The envelopes among `envelopes` that do not hold `token` under `key`, in
/// their order.
pub open spec fn without_token(key: Seq<u8>, envelopes: Seq<EnvelopeView>, token: Seq<char>) -> Seq<
    EnvelopeView,
>
    decreases envelopes.len(),
{
    if envelopes.len() == 0 {
        Seq::empty()
    } else if envelope_token(key, envelopes.last()) == Some(token) {
        without_token(key, envelopes.drop_last(), token)
    } else {
        without_token(key, envelopes.drop_last(), token).push(envelopes.last())
    }
}

/// The rows after `token` was revoked at `now`: every active row whose
/// envelope holds `token` under `key` is marked, and no other row changes.
pub open spec fn rows_without_token(
    rows: Seq<ApiKeyRecord>,
    key: Seq<u8>,
    token: Seq<char>,
    now: Timestamp,
) -> Seq<ApiKeyRecord> {
    Seq::new(
        rows.len(),
        |i: int|
            if rows[i].is_active() && envelope_token(key, rows[i].envelope()) == Some(token) {
                ApiKeyRecord { revoked_at: Some(now), ..rows[i] }
            } else {
                rows[i]
            },
    )
}

/// The tables after `token` was revoked at `now`.
pub open spec fn revoked_token(tables: Tables, key: Seq<u8>, token: Seq<char>, now: Timestamp) -> Tables {
    Tables { api_keys: rows_without_token(tables.api_keys, key, token, now), ..tables }
}

/// The tables after each of `envelopes` was revoked at `now`, one after the
/// other.
pub open spec fn revoked_all(tables: Tables, envelopes: Seq<EnvelopeView>, now: Timestamp) -> Tables
    decreases envelopes.len(),
{
    if envelopes.len() == 0 {
        tables
    } else {
        revoked_all(tables, envelopes.drop_last(), now).revoked(
            envelopes.last().salt,
            envelopes.last().api_key,
            now,
        )
    }
}

/// An envelope is among those holding `token` exactly when it is one of
/// `envelopes` and holds `token`.
pub proof fn lemma_holding_token_contains(
    key: Seq<u8>,
    envelopes: Seq<EnvelopeView>,
    token: Seq<char>,
    envelope: EnvelopeView,
)
    ensures
        holding_token(key, envelopes, token).contains(envelope) <==> envelopes.contains(envelope)
            && envelope_token(key, envelope) == Some(token),
    decreases envelopes.len(),
{
    if envelopes.len() > 0 {
        let front = envelopes.drop_last();
        let last = envelopes.len() - 1;
        lemma_holding_token_contains(key, front, token, envelope);
        let found = holding_token(key, envelopes, token);
        if found.contains(envelope) {
            let j = choose|j: int| 0 <= j < found.len() && found[j] == envelope;
            if envelope_token(key, envelopes[last]) == Some(token) && j == found.len() - 1 {
                assert(envelopes[last] == envelope);
            } else {
                assert(holding_token(key, front, token)[j] == envelope);
                assert(holding_token(key, front, token).contains(envelope));
                let i = choose|i: int| 0 <= i < front.len() && front[i] == envelope;
                assert(envelopes[i] == envelope);
            }
        }
        if envelopes.contains(envelope) && envelope_token(key, envelope) == Some(token) {
            let i = choose|i: int| 0 <= i < envelopes.len() && envelopes[i] == envelope;
            if i == last {
                assert(found[found.len() - 1] == envelope);
            } else {
                assert(front[i] == envelope);
                assert(front.contains(envelope));
                let j = choose|j: int|
                    0 <= j < holding_token(key, front, token).len() && holding_token(
                        key,
                        front,
                        token,
                    )[j] == envelope;
                assert(found[j] == envelope);
            }
        }
    }
}

/// Revoking envelopes one after the other marks exactly the active rows that
/// store one of them.
pub proof fn lemma_revoked_all_rows(tables: Tables, envelopes: Seq<EnvelopeView>, now: Timestamp)
    ensures
        revoked_all(tables, envelopes, now).usage == tables.usage,
        revoked_all(tables, envelopes, now).api_keys.len() == tables.api_keys.len(),
        forall|i: int|
            0 <= i < tables.api_keys.len() ==> #[trigger] revoked_all(
                tables,
                envelopes,
                now,
            ).api_keys[i] == if tables.api_keys[i].is_active() && envelopes.contains(
                tables.api_keys[i].envelope(),
            ) {
                ApiKeyRecord { revoked_at: Some(now), ..tables.api_keys[i] }
            } else {
                tables.api_keys[i]
            },
    decreases envelopes.len(),
{
    if envelopes.len() > 0 {
        let front = envelopes.drop_last();
        let last = envelopes.last();
        lemma_revoked_all_rows(tables, front, now);
        assert forall|i: int| 0 <= i < tables.api_keys.len() implies #[trigger] revoked_all(
            tables,
            envelopes,
            now,
        ).api_keys[i] == if tables.api_keys[i].is_active() && envelopes.contains(
            tables.api_keys[i].envelope(),
        ) {
            ApiKeyRecord { revoked_at: Some(now), ..tables.api_keys[i] }
        } else {
            tables.api_keys[i]
        } by {
            let row = tables.api_keys[i];
            let envelope = row.envelope();
            assert(revoked_all(tables, front, now).api_keys[i] == if row.is_active()
                && front.contains(envelope) {
                ApiKeyRecord { revoked_at: Some(now), ..row }
            } else {
                row
            });
            if front.contains(envelope) {
                let j = choose|j: int| 0 <= j < front.len() && front[j] == envelope;
                assert(envelopes[j] == envelope);
            }
            if row.holds(last.salt, last.api_key) {
                assert(envelopes[envelopes.len() - 1] == envelope);
            }
            if envelopes.contains(envelope) && !front.contains(envelope) {
                let j = choose|j: int| 0 <= j < envelopes.len() && envelopes[j] == envelope;
                if j < front.len() {
                    assert(front[j] == envelope);
                }
            }
        }
    }
}

/// Revoking, one after the other, the active envelopes that hold `token`
/// revokes `token`.
pub proof fn lemma_revoked_all_holding(
    tables: Tables,
    key: Seq<u8>,
    token: Seq<char>,
    now: Timestamp,
)
    ensures
        revoked_all(tables, holding_token(key, tables.active(), token), now) == revoked_token(
            tables,
            key,
            token,
            now,
        ),
{
    let found = holding_token(key, tables.active(), token);
    let after = revoked_all(tables, found, now);
    lemma_revoked_all_rows(tables, found, now);
    assert forall|i: int| 0 <= i < tables.api_keys.len() implies after.api_keys[i]
        == rows_without_token(tables.api_keys, key, token, now)[i] by {
        let row = tables.api_keys[i];
        lemma_holding_token_contains(key, tables.active(), token, row.envelope());
        lemma_active_envelopes_rows(tables.api_keys, row.envelope());
    }
    assert(after.api_keys =~= rows_without_token(tables.api_keys, key, token, now));
}

/// After `token` was revoked, the active envelopes are those of before that
/// do not hold it.
pub proof fn lemma_active_after_revoke(
    rows: Seq<ApiKeyRecord>,
    key: Seq<u8>,
    token: Seq<char>,
    now: Timestamp,
)
    ensures
        active_envelopes(rows_without_token(rows, key, token, now)) == without_token(
            key,
            active_envelopes(rows),
            token,
        ),
    decreases rows.len(),
{
    if rows.len() > 0 {
        lemma_active_after_revoke(rows.drop_last(), key, token, now);
        assert(rows_without_token(rows, key, token, now).drop_last() =~= rows_without_token(
            rows.drop_last(),
            key,
            token,
            now,
        ));
        if rows.last().is_active() {
            assert(active_envelopes(rows).drop_last() =~= active_envelopes(rows.drop_last()));
        }
    }
}

/// The envelopes that do not hold `token` give the mapping of all of them
/// without `token`.
pub proof fn lemma_cache_without_token(key: Seq<u8>, envelopes: Seq<EnvelopeView>, token: Seq<char>)
    requires
        cache_of(key, envelopes) is Some,
    ensures
        cache_of(key, without_token(key, envelopes, token)) == Some(
            cache_of(key, envelopes).unwrap().remove(token),
        ),
    decreases envelopes.len(),
{
    if envelopes.len() == 0 {
        assert(Map::<Seq<char>, Seq<u8>>::empty().remove(token) =~= Map::empty());
    } else {
        let front = envelopes.drop_last();
        let last = envelopes.last();
        lemma_cache_without_token(key, front, token);
        let map = cache_of(key, front).unwrap();
        let salt = base64_decoded(last.salt).unwrap();
        let held = envelope_token(key, last).unwrap();
        if held == token {
            assert(map.insert(held, salt).remove(token) =~= map.remove(token));
        } else {
            let rest = without_token(key, envelopes, token);
            assert(rest.drop_last() =~= without_token(key, front, token));
            assert(map.remove(token).insert(held, salt) =~= map.insert(held, salt).remove(token));
        }
    }
}

} // verus!
