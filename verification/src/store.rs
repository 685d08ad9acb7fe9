//! The fingerprint store: a sharded concurrent map from the hexadecimal
//! digest of a window to the rule that the digest stands for.
//!
//! Readers share the store by `&` and never wait on a store-wide lock: each
//! lookup takes the read lock of one shard only. Writing takes `&mut`, so a
//! lookup never observes a store that changes under it.

use crate::severity::Severity;
use dashmap::DashMap;
use vstd::prelude::*;

verus! {

/// Trusted: makes `dashmap::DashMap` known to the verifier as an opaque type.
#[verifier::external_type_specification]
#[verifier::external_body]
#[verifier::reject_recursive_types(K)]
#[verifier::reject_recursive_types(V)]
#[verifier::reject_recursive_types(S)]
pub struct ExDashMap<K, V, S>(DashMap<K, V, S>);

/// The records of a store as a mathematical map: for each digest, the rule
/// identifier and the severity stored under it. Strings stand by their
/// characters.
pub type Records = Map<Seq<char>, (Seq<char>, Severity)>;

/// What a map holds.
pub uninterp spec fn entries(table: DashMap<String, (String, Severity)>) -> Records;

/// Trusted: calls `DashMap::new`, which builds a map without entries.
#[verifier::external_body]
fn map_new() -> (table: DashMap<String, (String, Severity)>)
    ensures
        entries(table) == Records::empty(),
{
    DashMap::new()
}

/// Trusted: calls `DashMap::insert`, which takes the write lock of the
/// key's shard, stores the value under the key and replaces the value that
/// was there, leaving every other entry alone. The value it hands back is
/// dropped. The call is taken not to unwind: the caller holds no reference
/// into the map, so the lock is free, and storing does not panic.
#[verifier::external_body]
fn map_insert(
    table: &mut DashMap<String, (String, Severity)>,
    digest: String,
    rule_id: String,
    severity: Severity,
)
    ensures
        entries(*final(table)) == entries(*old(table)).insert(digest@, (rule_id@, severity)),
    no_unwind
{
    table.insert(digest, (rule_id, severity));
}

/// Trusted: calls `DashMap::get` and clones the value of the entry it finds.
/// The call finds an entry exactly when the key is in the map, and the guard
/// it returns is released before this function returns.
#[verifier::external_body]
fn map_get(
    table: &DashMap<String, (String, Severity)>,
    digest: &str,
) -> (found: Option<(String, Severity)>)
    ensures
        found is Some <==> entries(*table).contains_key(digest@),
        found matches Some(entry) ==> (entry.0@, entry.1) == entries(*table)[digest@],
{
    match table.get(digest) {
        Some(entry) => Some(entry.value().clone()),
        None => None,
    }
}

/// Trusted: calls `DashMap::len`, which adds up the entries of all shards.
#[verifier::external_body]
fn map_len(table: &DashMap<String, (String, Severity)>) -> (n: usize)
    ensures
        n == entries(*table).len(),
{
    table.len()
}

/// A mapping from digest to `(rule identifier, severity)`.
///
/// Digests are unique keys: inserting under a digest that is present
/// replaces its record. Records are never removed.
pub struct FingerprintStore {
    map: DashMap<String, (String, Severity)>,
}

impl View for FingerprintStore {
    type V = Records;

    closed spec fn view(&self) -> Records {
        entries(self.map)
    }
}

impl FingerprintStore {
    /// A store holds finitely many records.
    #[verifier::type_invariant]
    spec fn finitely_many(&self) -> bool {
        entries(self.map).dom().finite()
    }

    /// A store without records.
    pub fn new() -> (store: FingerprintStore)
        ensures
            store@ == Records::empty(),
    {
        FingerprintStore { map: map_new() }
    }

    /// Adds the record `digest -> (rule_id, severity)`, replacing the record
    /// that `digest` had. The digest is taken as it is: no format is checked.
    pub fn insert(&mut self, digest: &str, rule_id: String, severity: Severity)
        ensures
            final(self)@ == old(self)@.insert(digest@, (rule_id@, severity)),
    {
        proof {
            use_type_invariant(&*self);
        }
        map_insert(&mut self.map, digest.to_owned(), rule_id, severity);
    }

    /// The record stored under `digest`, if there is one.
    pub fn lookup(&self, digest: &str) -> (found: Option<(String, Severity)>)
        ensures
            found is Some <==> self@.contains_key(digest@),
            found matches Some(record) ==> (record.0@, record.1) == self@[digest@],
    {
        map_get(&self.map, digest)
    }

    /// The number of distinct digests in the store.
    pub fn count(&self) -> (n: usize)
        ensures
            self@.dom().finite(),
            n == self@.len(),
    {
        proof {
            use_type_invariant(self);
        }
        map_len(&self.map)
    }
}

/// Last writer wins: after two inserts under one digest the store is what
/// the second insert alone would have made it, so a lookup of that digest
/// gives the second record and the number of digests is the same.
pub proof fn lemma_insert_last_writer_wins(
    store: Records,
    digest: Seq<char>,
    first: (Seq<char>, Severity),
    second: (Seq<char>, Severity),
)
    ensures
        store.insert(digest, first).insert(digest, second) == store.insert(digest, second),
        store.insert(digest, first).insert(digest, second)[digest] == second,
        store.insert(digest, first).insert(digest, second).contains_key(digest),
{
    assert(store.insert(digest, first).insert(digest, second) =~= store.insert(digest, second));
}

/// An insert changes the record of its own digest only.
pub proof fn lemma_insert_keeps_others(
    store: Records,
    digest: Seq<char>,
    record: (Seq<char>, Severity),
    other: Seq<char>,
)
    requires
        other != digest,
    ensures
        store.insert(digest, record).contains_key(other) == store.contains_key(other),
        store.contains_key(other) ==> store.insert(digest, record)[other] == store[other],
{
}

/// An insert under a new digest makes the store one record larger; under a
/// digest that is present it leaves the number of records as it was.
pub proof fn lemma_insert_count(
    store: Records,
    digest: Seq<char>,
    record: (Seq<char>, Severity),
)
    requires
        store.dom().finite(),
    ensures
        store.insert(digest, record).dom().finite(),
        store.insert(digest, record).len() == if store.contains_key(digest) {
            store.len()
        } else {
            store.len() + 1
        },
{
    assert(store.insert(digest, record).dom() =~= store.dom().insert(digest));
}

} // verus!
