//! The record store: the table of issued keys and the table of recorded
//! calls, held in memory, and the queries that change them.
//!
//! A key is stored as an envelope, its sealed token and the salt it was
//! sealed under, both as base64 text. Rows are never removed, and a row that
//! has been revoked stays revoked.

use crate::encoding::same_text;
pub use crate::endpoint::{ApiEndpoint, UnknownApiEndpoint};
use vstd::prelude::*;

verus! {

/// A point in time: seconds since the start of 1970 in UTC, and the
/// nanoseconds into that second.
#[derive(Clone, Copy, Debug, PartialEq, Eq, Structural)]
pub struct Timestamp {
    pub seconds: i64,
    pub nanoseconds: u32,
}

/// A sealed token with the salt it is bound to, as stored.
#[derive(Clone, Debug, PartialEq, Eq)]
pub struct Envelope {
    pub salt: String,
    pub api_key: String,
}

/// The texts of an [`Envelope`].
pub struct EnvelopeView {
    pub salt: Seq<char>,
    pub api_key: Seq<char>,
}

impl View for Envelope {
    type V = EnvelopeView;

    open spec fn view(&self) -> EnvelopeView {
        EnvelopeView { salt: self.salt@, api_key: self.api_key@ }
    }
}

/// A row of the table of issued keys.
#[derive(Clone, Debug, PartialEq, Eq)]
pub struct ApiKeyRow {
    pub salt: String,
    pub api_key: String,
    pub created_at: Timestamp,
    pub revoked_at: Option<Timestamp>,
}

/// What a row of the table of issued keys holds.
pub struct ApiKeyRecord {
    pub salt: Seq<char>,
    pub api_key: Seq<char>,
    pub created_at: Timestamp,
    pub revoked_at: Option<Timestamp>,
}

impl View for ApiKeyRow {
    type V = ApiKeyRecord;

    open spec fn view(&self) -> ApiKeyRecord {
        ApiKeyRecord {
            salt: self.salt@,
            api_key: self.api_key@,
            created_at: self.created_at,
            revoked_at: self.revoked_at,
        }
    }
}

impl ApiKeyRecord {
    /// Whether the key of this row has not been revoked.
    pub open spec fn is_active(self) -> bool {
        self.revoked_at is None
    }

    /// The envelope that this row stores.
    pub open spec fn envelope(self) -> EnvelopeView {
        EnvelopeView { salt: self.salt, api_key: self.api_key }
    }

    /// Whether this row stores exactly this salt and sealed token.
    pub open spec fn holds(self, salt: Seq<char>, api_key: Seq<char>) -> bool {
        self.salt == salt && self.api_key == api_key
    }

    /// This row once a revocation of the given envelope at `now` has passed
    /// over it: only a row that is active and stores the envelope changes.
    pub open spec fn revoked(self, salt: Seq<char>, api_key: Seq<char>, now: Timestamp) -> Self {
        if self.is_active() && self.holds(salt, api_key) {
            ApiKeyRecord { revoked_at: Some(now), ..self }
        } else {
            self
        }
    }
}

/// A row of the table of recorded calls.
#[derive(Clone, Debug, PartialEq, Eq)]
pub struct UsageRow {
    pub api_key: String,
    pub endpoint: ApiEndpoint,
    pub called_at: Timestamp,
}

/// What a row of the table of recorded calls holds.
pub struct UsageRecord {
    pub api_key: Seq<char>,
    pub endpoint: ApiEndpoint,
    pub called_at: Timestamp,
}

impl View for UsageRow {
    type V = UsageRecord;

    open spec fn view(&self) -> UsageRecord {
        UsageRecord { api_key: self.api_key@, endpoint: self.endpoint, called_at: self.called_at }
    }
}

/// The envelopes of the rows that are not revoked, in the order of the rows.
pub open spec fn active_envelopes(rows: Seq<ApiKeyRecord>) -> Seq<EnvelopeView>
    decreases rows.len(),
{
    if rows.len() == 0 {
        Seq::empty()
    } else if rows.last().is_active() {
        active_envelopes(rows.drop_last()).push(rows.last().envelope())
    } else {
        active_envelopes(rows.drop_last())
    }
}

/// The number of active rows that store exactly this salt and sealed token.
pub open spec fn count_holding(rows: Seq<ApiKeyRecord>, salt: Seq<char>, api_key: Seq<char>) -> nat
    decreases rows.len(),
{
    if rows.len() == 0 {
        0
    } else if rows.last().is_active() && rows.last().holds(salt, api_key) {
        count_holding(rows.drop_last(), salt, api_key) + 1
    } else {
        count_holding(rows.drop_last(), salt, api_key)
    }
}

/// The contents of the two tables.
pub struct Tables {
    pub usage: Seq<UsageRecord>,
    pub api_keys: Seq<ApiKeyRecord>,
}

impl Tables {
    /// The tables after a key was stored at `now`.
    pub open spec fn stored(self, salt: Seq<char>, api_key: Seq<char>, now: Timestamp) -> Tables {
        Tables {
            api_keys: self.api_keys.push(
                ApiKeyRecord { salt, api_key, created_at: now, revoked_at: None },
            ),
            ..self
        }
    }

    /// The tables after every active row that stores this envelope was
    /// marked as revoked at `now`.
    pub open spec fn revoked(self, salt: Seq<char>, api_key: Seq<char>, now: Timestamp) -> Tables {
        Tables {
            api_keys: Seq::new(
                self.api_keys.len(),
                |i: int| self.api_keys[i].revoked(salt, api_key, now),
            ),
            ..self
        }
    }

    /// The tables after a call was recorded.
    pub open spec fn recorded(self, call: UsageRecord) -> Tables {
        Tables { usage: self.usage.push(call), ..self }
    }

    /// The envelopes of the keys that are not revoked.
    pub open spec fn active(self) -> Seq<EnvelopeView> {
        active_envelopes(self.api_keys)
    }
}

/// The active envelopes after a key was stored are those before, followed
/// by the new one.
pub proof fn lemma_active_after_store(
    tables: Tables,
    salt: Seq<char>,
    api_key: Seq<char>,
    now: Timestamp,
)
    ensures
        tables.stored(salt, api_key, now).active() == tables.active().push(
            EnvelopeView { salt, api_key },
        ),
{
    let after = tables.stored(salt, api_key, now).api_keys;
    assert(after.drop_last() =~= tables.api_keys);
}

/// An envelope is active exactly when some active row stores it.
pub proof fn lemma_active_envelopes_rows(rows: Seq<ApiKeyRecord>, envelope: EnvelopeView)
    ensures
        active_envelopes(rows).contains(envelope) <==> exists|i: int|
            0 <= i < rows.len() && (#[trigger] rows[i]).is_active() && rows[i].envelope()
                == envelope,
    decreases rows.len(),
{
    if rows.len() > 0 {
        let front = rows.drop_last();
        let last = rows.len() - 1;
        lemma_active_envelopes_rows(front, envelope);
        assert(forall|i: int| 0 <= i < front.len() ==> front[i] == rows[i]);
        let active = active_envelopes(rows);
        if active.contains(envelope) {
            let j = choose|j: int| 0 <= j < active.len() && active[j] == envelope;
            if rows[last].is_active() && j == active.len() - 1 {
                assert(rows[last].is_active() && rows[last].envelope() == envelope);
            } else {
                assert(active_envelopes(front)[j] == envelope);
                assert(active_envelopes(front).contains(envelope));
                let i = choose|i: int|
                    0 <= i < front.len() && (#[trigger] front[i]).is_active() && front[i].envelope()
                        == envelope;
                assert(rows[i].is_active() && rows[i].envelope() == envelope);
            }
        }
        if exists|i: int|
            0 <= i < rows.len() && (#[trigger] rows[i]).is_active() && rows[i].envelope()
                == envelope {
            let i = choose|i: int|
                0 <= i < rows.len() && (#[trigger] rows[i]).is_active() && rows[i].envelope()
                    == envelope;
            if i == last {
                assert(active[active.len() - 1] == envelope);
            } else {
                assert(front[i].is_active() && front[i].envelope() == envelope);
                let j = choose|j: int|
                    0 <= j < active_envelopes(front).len() && active_envelopes(front)[j]
                        == envelope;
                assert(active[j] == envelope);
            }
        }
    }
}

/// What the rows of the table of issued keys hold.
pub open spec fn key_records(rows: Seq<ApiKeyRow>) -> Seq<ApiKeyRecord> {
    Seq::new(rows.len(), |i: int| rows[i]@)
}

/// What the rows of the table of recorded calls hold.
pub open spec fn usage_records(rows: Seq<UsageRow>) -> Seq<UsageRecord> {
    Seq::new(rows.len(), |i: int| rows[i]@)
}

/// The texts of a list of envelopes.
pub open spec fn envelope_views(envelopes: Seq<Envelope>) -> Seq<EnvelopeView> {
    Seq::new(envelopes.len(), |i: int| envelopes[i]@)
}

/// The record store.
pub struct Database {
    usage: Vec<UsageRow>,
    api_keys: Vec<ApiKeyRow>,
}

impl View for Database {
    type V = Tables;

    closed spec fn view(&self) -> Tables {
        Tables { usage: usage_records(self.usage@), api_keys: key_records(self.api_keys@) }
    }
}

impl Database {
    /// A store with two empty tables.
    pub fn new() -> (database: Database)
        ensures
            database@.usage == Seq::<UsageRecord>::empty(),
            database@.api_keys == Seq::<ApiKeyRecord>::empty(),
    {
        Database { usage: Vec::new(), api_keys: Vec::new() }
    }

    /// A store that holds the given rows.
    pub fn from_rows(usage: Vec<UsageRow>, api_keys: Vec<ApiKeyRow>) -> (database: Database)
        ensures
            database@.usage == usage_records(usage@),
            database@.api_keys == key_records(api_keys@),
    {
        Database { usage, api_keys }
    }

    /// The rows of the table of issued keys, oldest first.
    pub fn api_keys(&self) -> (rows: &Vec<ApiKeyRow>)
        ensures
            key_records(rows@) == self@.api_keys,
    {
        &self.api_keys
    }

    /// The rows of the table of recorded calls, oldest first.
    pub fn usage(&self) -> (rows: &Vec<UsageRow>)
        ensures
            usage_records(rows@) == self@.usage,
    {
        &self.usage
    }

    /// Appends a key that is active from `now` on.
    pub fn insert_active(&mut self, api_key: String, salt: String, now: Timestamp)
        ensures
            final(self)@ == old(self)@.stored(salt@, api_key@, now),
    {
        self.api_keys.push(ApiKeyRow { salt, api_key, created_at: now, revoked_at: None });
        assert(final(self)@.api_keys =~= old(self)@.stored(salt@, api_key@, now).api_keys);
    }

    /// Appends a recorded call.
    pub fn record_usage(&mut self, api_key: String, endpoint: ApiEndpoint, called_at: Timestamp)
        ensures
            final(self)@ == old(self)@.recorded(
                UsageRecord { api_key: api_key@, endpoint, called_at },
            ),
    {
        self.usage.push(UsageRow { api_key, endpoint, called_at });
        assert(final(self)@.usage =~= old(self)@.usage.push(
            UsageRecord { api_key: api_key@, endpoint, called_at },
        ));
    }

    /// Marks every active row that stores this envelope as revoked at `now`,
    /// and returns how many rows that were. No match is no error, and a row
    /// that was revoked before keeps its time.
    pub fn revoke(&mut self, api_key: &str, salt: &str, now: Timestamp) -> (rows: usize)
        ensures
            final(self)@ == old(self)@.revoked(salt@, api_key@, now),
            rows == count_holding(old(self)@.api_keys, salt@, api_key@),
    {
        let mut rows: usize = 0;
        let mut i: usize = 0;
        while i < self.api_keys.len()
            invariant
                i <= self.api_keys@.len(),
                self.api_keys@.len() == old(self).api_keys@.len(),
                self.usage == old(self).usage,
                rows == count_holding(old(self)@.api_keys.take(i as int), salt@, api_key@),
                rows <= i,
                forall|j: int|
                    0 <= j < i ==> (#[trigger] self.api_keys@[j])@ == old(self)@.api_keys[j].revoked(
                        salt@,
                        api_key@,
                        now,
                    ),
                forall|j: int|
                    i <= j < self.api_keys@.len() ==> self.api_keys@[j] == old(self).api_keys@[j],
            decreases self.api_keys@.len() - i,
        {
            proof {
                let before = old(self)@.api_keys;
                assert(before.take(i + 1).drop_last() =~= before.take(i as int));
            }
            if self.api_keys[i].revoked_at.is_none() && same_text(
                self.api_keys[i].salt.as_str(),
                salt,
            ) && same_text(
                self.api_keys[i].api_key.as_str(),
                api_key,
            ) {
                self.api_keys[i].revoked_at = Some(now);
                rows = rows + 1;
            }
            i = i + 1;
        }
        proof {
            let before = old(self)@.api_keys;
            assert(before.take(i as int) =~= before);
            assert(self@.api_keys =~= old(self)@.revoked(salt@, api_key@, now).api_keys);
        }
        rows
    }

    /// The envelopes of the keys that are not revoked, oldest first.
    pub fn list_active(&self) -> (active: Vec<Envelope>)
        ensures
            envelope_views(active@) == self@.active(),
    {
        let mut active: Vec<Envelope> = Vec::new();
        let mut i: usize = 0;
        while i < self.api_keys.len()
            invariant
                i <= self.api_keys@.len(),
                envelope_views(active@) =~= active_envelopes(self@.api_keys.take(i as int)),
            decreases self.api_keys@.len() - i,
        {
            proof {
                let rows = self@.api_keys;
                assert(rows.take(i + 1).drop_last() =~= rows.take(i as int));
            }
            if self.api_keys[i].revoked_at.is_none() {
                active.push(
                    Envelope {
                        salt: self.api_keys[i].salt.clone(),
                        api_key: self.api_keys[i].api_key.clone(),
                    },
                );
            }
            i = i + 1;
        }
        proof {
            assert(self@.api_keys.take(i as int) =~= self@.api_keys);
        }
        active
    }
}

/// A change to the record store.
#[derive(Clone, Debug, PartialEq, Eq)]
pub enum Query {
    /// Record that `api_key` called `endpoint` at `called_at`.
    RecordApiUsage { api_key: String, endpoint: ApiEndpoint, called_at: Timestamp },
    /// Revoke every active key stored as this envelope.
    RevokeApiKey { salt: String, api_key: String },
    /// Store this envelope as a new active key.
    StoreApiKey { salt: String, api_key: String },
}

impl Query {
    /// Whether this query stores exactly this envelope.
    pub open spec fn stores(self, envelope: EnvelopeView) -> bool {
        match self {
            Query::StoreApiKey { salt, api_key } => salt@ == envelope.salt && api_key@
                == envelope.api_key,
            _ => false,
        }
    }

    /// The tables after this query ran on `tables` at the time `now`.
    pub open spec fn applied(self, tables: Tables, now: Timestamp) -> Tables {
        match self {
            Query::RecordApiUsage { api_key, endpoint, called_at } => tables.recorded(
                UsageRecord { api_key: api_key@, endpoint, called_at },
            ),
            Query::RevokeApiKey { salt, api_key } => tables.revoked(salt@, api_key@, now),
            Query::StoreApiKey { salt, api_key } => tables.stored(salt@, api_key@, now),
        }
    }

    /// Runs the query on the store, at the time `now`. No query has an
    /// answer, and a revocation that matches no row is no error.
    pub fn execute(self, database: &mut Database, now: Timestamp) -> (answer: Option<bool>)
        ensures
            answer is None,
            final(database)@ == self.applied(old(database)@, now),
    {
        match self {
            Query::RecordApiUsage { api_key, endpoint, called_at } => {
                database.record_usage(api_key, endpoint, called_at);
            },
            Query::RevokeApiKey { salt, api_key } => {
                let _n_rows = database.revoke(api_key.as_str(), salt.as_str(), now);
            },
            Query::StoreApiKey { salt, api_key } => {
                database.insert_active(api_key, salt, now);
            },
        }
        None
    }
}

} // verus!
