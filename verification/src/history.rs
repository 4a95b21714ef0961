//! What holds of the keys over any sequence of changes to the record store:
//! a key is allowed from the moment it is stored until it is revoked, and
//! never again after that.

use crate::cache::{cache_of, envelope_token, lemma_cache_of_tokens};
use crate::db::{lemma_active_envelopes_rows, EnvelopeView, Tables, Timestamp};
use crate::revocation::{
    lemma_active_after_revoke, lemma_cache_without_token, revoked_token, rows_without_token,
};
use vstd::prelude::*;

verus! {

/// The tokens of the active keys: those that some active row holds under
/// `key`.
pub open spec fn active_tokens(key: Seq<u8>, tables: Tables) -> Set<Seq<char>> {
    Set::new(
        |token: Seq<char>|
            exists|i: int|
                0 <= i < tables.api_keys.len() && (#[trigger] tables.api_keys[i]).is_active()
                    && envelope_token(key, tables.api_keys[i].envelope()) == Some(token),
    )
}

/// A change to the table of issued keys.
pub enum Change {
    /// An envelope is stored as a new active key.
    Store { salt: Seq<char>, api_key: Seq<char>, now: Timestamp },
    /// A token is revoked.
    Revoke { token: Seq<char>, now: Timestamp },
}

impl Change {
    /// Whether this change stores a key that holds `token` under `key`.
    pub open spec fn stores_token(self, key: Seq<u8>, token: Seq<char>) -> bool {
        match self {
            Change::Store { salt, api_key, now } => envelope_token(
                key,
                EnvelopeView { salt, api_key },
            ) == Some(token),
            Change::Revoke { token: revoked, now } => false,
        }
    }

    /// Whether this change revokes `token`.
    pub open spec fn revokes_token(self, token: Seq<char>) -> bool {
        match self {
            Change::Store { salt, api_key, now } => false,
            Change::Revoke { token: revoked, now } => revoked == token,
        }
    }

    /// The tables after this change.
    pub open spec fn applied(self, key: Seq<u8>, tables: Tables) -> Tables {
        match self {
            Change::Store { salt, api_key, now } => tables.stored(salt, api_key, now),
            Change::Revoke { token, now } => revoked_token(tables, key, token, now),
        }
    }
}

/// The tables after each of `changes`, one after the other.
pub open spec fn after_changes(key: Seq<u8>, tables: Tables, changes: Seq<Change>) -> Tables
    decreases changes.len(),
{
    if changes.len() == 0 {
        tables
    } else {
        changes.last().applied(key, after_changes(key, tables, changes.drop_last()))
    }
}

/// A cache rebuilt from the store allows exactly the tokens of its active
/// keys.
pub proof fn lemma_rebuilt_cache_allows_active_tokens(key: Seq<u8>, tables: Tables)
    requires
        cache_of(key, tables.active()) is Some,
    ensures
        cache_of(key, tables.active()).unwrap().dom() == active_tokens(key, tables),
{
    let map = cache_of(key, tables.active()).unwrap();
    let active = tables.active();
    lemma_cache_of_tokens(key, active);
    assert forall|token: Seq<char>| map.dom().contains(token) implies active_tokens(
        key,
        tables,
    ).contains(token) by {
        assert(map.contains_key(token));
        let j = choose|j: int|
            0 <= j < active.len() && envelope_token(key, #[trigger] active[j]) == Some(token);
        assert(active.contains(active[j]));
        lemma_active_envelopes_rows(tables.api_keys, active[j]);
    }
    assert forall|token: Seq<char>| active_tokens(key, tables).contains(token) implies map.dom().contains(
        token,
    ) by {
        let i = choose|i: int|
            0 <= i < tables.api_keys.len() && (#[trigger] tables.api_keys[i]).is_active()
                && envelope_token(key, tables.api_keys[i].envelope()) == Some(token);
        let envelope = tables.api_keys[i].envelope();
        lemma_active_envelopes_rows(tables.api_keys, envelope);
        let j = choose|j: int| 0 <= j < active.len() && active[j] == envelope;
        assert(envelope_token(key, active[j]) == Some(token));
        assert(map.contains_key(token));
    }
    assert(map.dom() =~= active_tokens(key, tables));
}

/// Storing a key adds the token that it holds, if it holds one, and no
/// other.
pub proof fn lemma_store_adds_its_token(
    key: Seq<u8>,
    tables: Tables,
    salt: Seq<char>,
    api_key: Seq<char>,
    now: Timestamp,
)
    ensures
        active_tokens(key, tables.stored(salt, api_key, now)) == match envelope_token(
            key,
            EnvelopeView { salt, api_key },
        ) {
            Some(token) => active_tokens(key, tables).insert(token),
            None => active_tokens(key, tables),
        },
{
    let after = tables.stored(salt, api_key, now);
    let expected = match envelope_token(key, EnvelopeView { salt, api_key }) {
        Some(token) => active_tokens(key, tables).insert(token),
        None => active_tokens(key, tables),
    };
    let last = tables.api_keys.len() as int;
    assert(after.api_keys[last].is_active());
    assert(after.api_keys[last].envelope() == EnvelopeView { salt, api_key });
    assert forall|token: Seq<char>| active_tokens(key, after).contains(token) implies expected.contains(
        token,
    ) by {
        let i = choose|i: int|
            0 <= i < after.api_keys.len() && (#[trigger] after.api_keys[i]).is_active()
                && envelope_token(key, after.api_keys[i].envelope()) == Some(token);
        if i < last {
            assert(tables.api_keys[i].is_active());
        }
    }
    assert forall|token: Seq<char>| expected.contains(token) implies active_tokens(
        key,
        after,
    ).contains(token) by {
        if active_tokens(key, tables).contains(token) {
            let i = choose|i: int|
                0 <= i < tables.api_keys.len() && (#[trigger] tables.api_keys[i]).is_active()
                    && envelope_token(key, tables.api_keys[i].envelope()) == Some(token);
            assert(after.api_keys[i].is_active());
        }
    }
    assert(active_tokens(key, after) =~= expected);
}

/// Revoking a token removes it from the tokens of the active keys, and no
/// other.
pub proof fn lemma_revoke_removes_its_token(
    key: Seq<u8>,
    tables: Tables,
    token: Seq<char>,
    now: Timestamp,
)
    ensures
        active_tokens(key, revoked_token(tables, key, token, now)) == active_tokens(
            key,
            tables,
        ).remove(token),
{
    let after = revoked_token(tables, key, token, now);
    let expected = active_tokens(key, tables).remove(token);
    assert forall|other: Seq<char>| active_tokens(key, after).contains(other) implies expected.contains(
        other,
    ) by {
        let i = choose|i: int|
            0 <= i < after.api_keys.len() && (#[trigger] after.api_keys[i]).is_active()
                && envelope_token(key, after.api_keys[i].envelope()) == Some(other);
        assert(tables.api_keys[i].is_active());
    }
    assert forall|other: Seq<char>| expected.contains(other) implies active_tokens(
        key,
        after,
    ).contains(other) by {
        let i = choose|i: int|
            0 <= i < tables.api_keys.len() && (#[trigger] tables.api_keys[i]).is_active()
                && envelope_token(key, tables.api_keys[i].envelope()) == Some(other);
        assert(after.api_keys[i].is_active());
    }
    assert(active_tokens(key, after) =~= expected);
}

/// Revoking a token that no active key holds, be it unknown or revoked
/// before, changes nothing in the store.
pub proof fn lemma_revoke_of_inactive_token(
    key: Seq<u8>,
    tables: Tables,
    token: Seq<char>,
    now: Timestamp,
)
    requires
        !active_tokens(key, tables).contains(token),
    ensures
        revoked_token(tables, key, token, now) == tables,
{
    let after = rows_without_token(tables.api_keys, key, token, now);
    assert forall|i: int| 0 <= i < tables.api_keys.len() implies after[i]
        == tables.api_keys[i] by {
        if tables.api_keys[i].is_active() && envelope_token(key, tables.api_keys[i].envelope())
            == Some(token) {
            assert(active_tokens(key, tables).contains(token));
        }
    }
    assert(after =~= tables.api_keys);
}

/// Revoking a token leaves the access of every other token as it was: the
/// cache rebuilt after the revocation is the one rebuilt before it, without
/// the revoked token.
pub proof fn lemma_revoke_spares_other_tokens(
    key: Seq<u8>,
    tables: Tables,
    token: Seq<char>,
    now: Timestamp,
)
    requires
        cache_of(key, tables.active()) is Some,
    ensures
        cache_of(key, revoked_token(tables, key, token, now).active()) == Some(
            cache_of(key, tables.active()).unwrap().remove(token),
        ),
        forall|other: Seq<char>|
            other != token ==> (#[trigger] cache_of(
                key,
                revoked_token(tables, key, token, now).active(),
            ).unwrap().contains_key(other) <==> cache_of(key, tables.active()).unwrap().contains_key(
                other,
            )),
{
    lemma_active_after_revoke(tables.api_keys, key, token, now);
    lemma_cache_without_token(key, tables.active(), token);
}

/// Rows are only ever added, no row changes its envelope, and a row that is
/// revoked stays exactly as it is.
pub proof fn lemma_rows_are_kept(key: Seq<u8>, tables: Tables, changes: Seq<Change>)
    ensures
        after_changes(key, tables, changes).api_keys.len() >= tables.api_keys.len(),
        forall|i: int|
            #![trigger after_changes(key, tables, changes).api_keys[i]]
            0 <= i < tables.api_keys.len() ==> {
                let before = tables.api_keys[i];
                let after = after_changes(key, tables, changes).api_keys[i];
                &&& after.envelope() == before.envelope()
                &&& after.created_at == before.created_at
                &&& !before.is_active() ==> after == before
            },
    decreases changes.len(),
{
    if changes.len() > 0 {
        lemma_rows_are_kept(key, tables, changes.drop_last());
        let middle = after_changes(key, tables, changes.drop_last());
        let end = after_changes(key, tables, changes);
        assert forall|i: int|
            #![trigger end.api_keys[i]]
            0 <= i < tables.api_keys.len() implies {
            let before = tables.api_keys[i];
            let after = end.api_keys[i];
            &&& after.envelope() == before.envelope()
            &&& after.created_at == before.created_at
            &&& !before.is_active() ==> after == before
        } by {
            let between = middle.api_keys[i];
            assert(between.envelope() == tables.api_keys[i].envelope());
        }
    }
}

/// Revocation is permanent: a token that no active key holds is held by
/// none after any sequence of changes, unless one of them stores a key
/// that holds it.
pub proof fn lemma_revoked_token_stays_out(
    key: Seq<u8>,
    tables: Tables,
    changes: Seq<Change>,
    token: Seq<char>,
)
    requires
        !active_tokens(key, tables).contains(token),
        forall|i: int| 0 <= i < changes.len() ==> !(#[trigger] changes[i]).stores_token(key, token),
    ensures
        !active_tokens(key, after_changes(key, tables, changes)).contains(token),
    decreases changes.len(),
{
    if changes.len() > 0 {
        let front = changes.drop_last();
        assert(forall|i: int| 0 <= i < front.len() ==> front[i] == changes[i]);
        lemma_revoked_token_stays_out(key, tables, front, token);
        let middle = after_changes(key, tables, front);
        assert(!changes[changes.len() - 1].stores_token(key, token));
        match changes.last() {
            Change::Store { salt, api_key, now } => {
                lemma_store_adds_its_token(key, middle, salt, api_key, now);
            },
            Change::Revoke { token: revoked, now } => {
                lemma_revoke_removes_its_token(key, middle, revoked, now);
            },
        }
    }
}

/// A key lasts until it is revoked: a token that an active key holds is
/// still held by one after any sequence of changes, unless one of them
/// revokes it.
pub proof fn lemma_token_stays_until_revoked(
    key: Seq<u8>,
    tables: Tables,
    changes: Seq<Change>,
    token: Seq<char>,
)
    requires
        active_tokens(key, tables).contains(token),
        forall|i: int| 0 <= i < changes.len() ==> !(#[trigger] changes[i]).revokes_token(token),
    ensures
        active_tokens(key, after_changes(key, tables, changes)).contains(token),
    decreases changes.len(),
{
    if changes.len() > 0 {
        let front = changes.drop_last();
        assert(forall|i: int| 0 <= i < front.len() ==> front[i] == changes[i]);
        lemma_token_stays_until_revoked(key, tables, front, token);
        let middle = after_changes(key, tables, front);
        assert(!changes[changes.len() - 1].revokes_token(token));
        match changes.last() {
            Change::Store { salt, api_key, now } => {
                lemma_store_adds_its_token(key, middle, salt, api_key, now);
            },
            Change::Revoke { token: revoked, now } => {
                lemma_revoke_removes_its_token(key, middle, revoked, now);
            },
        }
    }
}

} // verus!
