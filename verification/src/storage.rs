//! The ledger state the contract reads and writes.
//!
//! | Data                  | Tier         | Lifetime                              |
//! |-----------------------|--------------|---------------------------------------|
//! | Admin, relay signer   | persistent   | until overwritten                     |
//! | Transactions          | persistent   | until overwritten                     |
//! | Idempotency keys      | temporary    | `IDEMPOTENCY_TTL_LEDGERS` after write, or until an upgrade |
//! | Initialised, paused   | instance     | until overwritten                     |

use vstd::prelude::*;

use crate::types::{bytes_eq, bytes_of, copy_bytes, Address, ContractError, Transaction, TransactionView};

verus! {

/// Ledgers an idempotency key stays live after it is written (~24 hours at
/// ~5 s per ledger: 24 * 3600 / 5 = 17_280, rounded up).
pub const IDEMPOTENCY_TTL_LEDGERS: u32 = 18_000;

/// Minimum TTL kept on transaction records (~1 week).
pub const TRANSACTION_MIN_TTL_LEDGERS: u32 = 100_000;

// ─── A byte-keyed table ──────────────────────────────────────────────────────

/// The map that a list of keyed entries denotes; a later entry for a key
/// shadows an earlier one.
pub open spec fn entries_map<V: View>(e: Seq<(Vec<u8>, V)>) -> Map<Seq<u8>, V::V>
    decreases e.len(),
{
    if e.len() == 0 {
        Map::empty()
    } else {
        entries_map(e.drop_last()).insert(e.last().0@, e.last().1@)
    }
}

/// No key occurs twice among the entries.
pub open spec fn keys_unique<V>(e: Seq<(Vec<u8>, V)>) -> bool {
    forall|i: int, j: int|
        0 <= i < e.len() && 0 <= j < e.len() && i != j ==> (#[trigger] e[i]).0@ != (#[trigger] e[j]).0@
}

proof fn lemma_entries_absent<V: View>(e: Seq<(Vec<u8>, V)>, k: Seq<u8>)
    requires
        forall|i: int| 0 <= i < e.len() ==> (#[trigger] e[i]).0@ != k,
    ensures
        !entries_map(e).contains_key(k),
    decreases e.len(),
{
    if e.len() > 0 {
        assert(e.last() == e[e.len() - 1]);
        assert forall|i: int| 0 <= i < e.drop_last().len() implies (#[trigger] e.drop_last()[i]).0@
            != k by {
            assert(e.drop_last()[i] == e[i]);
        }
        lemma_entries_absent(e.drop_last(), k);
    }
}

proof fn lemma_entries_present<V: View>(e: Seq<(Vec<u8>, V)>, i: int)
    requires
        keys_unique(e),
        0 <= i < e.len(),
    ensures
        entries_map(e).contains_key(e[i].0@),
        entries_map(e)[e[i].0@] == e[i].1@,
    decreases e.len(),
{
    let last = e.len() - 1;
    if i != last {
        let d = e.drop_last();
        assert(d[i] == e[i]);
        assert(keys_unique(d)) by {
            assert forall|a: int, b: int|
                0 <= a < d.len() && 0 <= b < d.len() && a != b implies (#[trigger] d[a]).0@ != (
            #[trigger] d[b]).0@ by {
                assert(d[a] == e[a] && d[b] == e[b]);
            }
        }
        lemma_entries_present(d, i);
        assert(e[i].0@ != e[last].0@);
    }
}

proof fn lemma_entries_replace<V: View>(e: Seq<(Vec<u8>, V)>, i: int, entry: (Vec<u8>, V))
    requires
        keys_unique(e),
        0 <= i < e.len(),
        entry.0@ == e[i].0@,
    ensures
        entries_map(e.update(i, entry)) == entries_map(e).insert(entry.0@, entry.1@),
        keys_unique(e.update(i, entry)),
    decreases e.len(),
{
    let u = e.update(i, entry);
    assert(keys_unique(u)) by {
        assert forall|a: int, b: int|
            0 <= a < u.len() && 0 <= b < u.len() && a != b implies (#[trigger] u[a]).0@ != (
        #[trigger] u[b]).0@ by {
            assert(u[a].0@ == e[a].0@ && u[b].0@ == e[b].0@);
        }
    }
    let last = e.len() - 1;
    let d = e.drop_last();
    if i == last {
        assert(u.drop_last() =~= d);
        assert(entries_map(u) == entries_map(d).insert(entry.0@, entry.1@));
        assert(entries_map(e) == entries_map(d).insert(e[last].0@, e[last].1@));
        assert(entries_map(u) =~= entries_map(e).insert(entry.0@, entry.1@));
    } else {
        assert(keys_unique(d)) by {
            assert forall|a: int, b: int|
                0 <= a < d.len() && 0 <= b < d.len() && a != b implies (#[trigger] d[a]).0@ != (
            #[trigger] d[b]).0@ by {
                assert(d[a] == e[a] && d[b] == e[b]);
            }
        }
        assert(d[i] == e[i]);
        lemma_entries_replace(d, i, entry);
        assert(u.drop_last() =~= d.update(i, entry));
        assert(u.last() == e.last());
        assert(e[i].0@ != e[last].0@);
        assert(entries_map(u) =~= entries_map(e).insert(entry.0@, entry.1@));
    }
}

/// A table keyed by byte strings, holding at most one value per key.
pub struct KeyedStore<V> {
    entries: Vec<(Vec<u8>, V)>,
}

impl<V: View> KeyedStore<V> {
    /// The key-to-value map that the table holds.
    pub closed spec fn view(&self) -> Map<Seq<u8>, V::V> {
        entries_map(self.entries@)
    }

    /// The table's internal invariant: no key is stored twice.
    pub closed spec fn wf(&self) -> bool {
        keys_unique(self.entries@)
    }

    /// An empty table.
    pub fn new() -> (s: Self)
        ensures
            s.wf(),
            s.view() == Map::<Seq<u8>, V::V>::empty(),
    {
        KeyedStore { entries: Vec::new() }
    }

    fn find(&self, key: &[u8]) -> (r: Option<usize>)
        requires
            self.wf(),
        ensures
            match r {
                Some(i) => i < self.entries@.len() && self.entries@[i as int].0@ == key@,
                None => forall|i: int|
                    0 <= i < self.entries@.len() ==> (#[trigger] self.entries@[i]).0@ != key@,
            },
    {
        let mut i: usize = 0;
        while i < self.entries.len()
            invariant
                0 <= i <= self.entries@.len(),
                forall|j: int| 0 <= j < i ==> (#[trigger] self.entries@[j]).0@ != key@,
            decreases self.entries@.len() - i,
        {
            if bytes_eq(self.entries[i].0.as_slice(), key) {
                return Some(i);
            }
            i = i + 1;
        }
        None
    }

    /// The value stored under `key`, if any.
    pub fn get(&self, key: &[u8]) -> (r: Option<&V>)
        requires
            self.wf(),
        ensures
            match r {
                Some(v) => self.view().contains_key(key@) && v@ == self.view()[key@],
                None => !self.view().contains_key(key@),
            },
    {
        match self.find(key) {
            Some(i) => {
                proof {
                    lemma_entries_present(self.entries@, i as int);
                }
                Some(&self.entries[i].1)
            },
            None => {
                proof {
                    lemma_entries_absent(self.entries@, key@);
                }
                None
            },
        }
    }

    /// Store `value` under `key`, replacing any earlier value.
    pub fn insert(&mut self, key: Vec<u8>, value: V)
        requires
            old(self).wf(),
        ensures
            final(self).wf(),
            final(self).view() == old(self).view().insert(key@, value@),
    {
        match self.find(key.as_slice()) {
            Some(i) => {
                proof {
                    lemma_entries_replace(self.entries@, i as int, (key, value));
                }
                self.entries.set(i, (key, value));
            },
            None => {
                let ghost e = self.entries@;
                let ghost k = key@;
                let ghost entry = (key, value);
                self.entries.push((key, value));
                proof {
                    assert(self.entries@.drop_last() =~= e);
                    assert(self.entries@.last() == entry);
                    assert(keys_unique(self.entries@)) by {
                        assert forall|a: int, b: int|
                            0 <= a < self.entries@.len() && 0 <= b < self.entries@.len() && a
                                != b implies (#[trigger] self.entries@[a]).0@ != (
                        #[trigger] self.entries@[b]).0@ by {
                            if a < e.len() && b < e.len() {
                                assert(self.entries@[a] == e[a] && self.entries@[b] == e[b]);
                            } else if a < e.len() {
                                assert(self.entries@[a] == e[a]);
                            } else {
                                assert(self.entries@[b] == e[b]);
                            }
                        }
                    }
                }
            },
        }
    }
}

// ─── Ledger state ─────────────────────────────────────────────────────────────

/// What is kept under an idempotency key: the id of the transaction first
/// registered with it, the ledger at which it was stored, and the last ledger
/// at which it is still live.
pub struct IdempotencyRecord {
    pub transaction_id: Vec<u8>,
    pub stored_at_ledger: u32,
    pub live_until_ledger: u64,
}

/// The value of an [`IdempotencyRecord`].
pub struct IdempotencyRecordView {
    pub transaction_id: Seq<u8>,
    pub stored_at_ledger: u32,
    pub live_until_ledger: u64,
}

impl View for IdempotencyRecord {
    type V = IdempotencyRecordView;

    open spec fn view(&self) -> IdempotencyRecordView {
        IdempotencyRecordView {
            transaction_id: self.transaction_id@,
            stored_at_ledger: self.stored_at_ledger,
            live_until_ledger: self.live_until_ledger,
        }
    }
}

/// The mathematical value of the contract's ledger state.
#[verifier::ext_equal]
pub struct LedgerState {
    pub initialised: bool,
    pub admin: Option<Seq<u8>>,
    pub relay_signer: Option<Seq<u8>>,
    pub paused: bool,
    pub transactions: Map<Seq<u8>, TransactionView>,
    pub idempotency_keys: Map<Seq<u8>, IdempotencyRecordView>,
}

/// The stored value of an optional address.
pub open spec fn address_view(a: Option<Address>) -> Option<Seq<u8>> {
    match a {
        Some(x) => Some(x@),
        None => None,
    }
}

/// The ledger sequence at which idempotency key `key` was first stored, when it
/// is still live at ledger `ledger`.
pub open spec fn live_idempotency_key(s: LedgerState, key: Seq<u8>, ledger: u32) -> Option<u32> {
    if s.idempotency_keys.contains_key(key) && ledger <= s.idempotency_keys[key].live_until_ledger {
        Some(s.idempotency_keys[key].stored_at_ledger)
    } else {
        None
    }
}

/// The id of the transaction registered under idempotency key `key`, when the
/// key is still live at ledger `ledger`.
pub open spec fn live_idempotency_transaction(s: LedgerState, key: Seq<u8>, ledger: u32) -> Option<
    Seq<u8>,
> {
    if s.idempotency_keys.contains_key(key) && ledger <= s.idempotency_keys[key].live_until_ledger {
        Some(s.idempotency_keys[key].transaction_id)
    } else {
        None
    }
}

/// The record for an idempotency key that registers transaction `tx_id` at
/// ledger `ledger`.
pub open spec fn fresh_idempotency_record(tx_id: Seq<u8>, ledger: u32) -> IdempotencyRecordView {
    IdempotencyRecordView {
        transaction_id: tx_id,
        stored_at_ledger: ledger,
        live_until_ledger: (ledger + IDEMPOTENCY_TTL_LEDGERS) as u64,
    }
}

/// A contract's ledger state before `initialize`.
pub open spec fn empty_ledger() -> LedgerState {
    LedgerState {
        initialised: false,
        admin: None,
        relay_signer: None,
        paused: false,
        transactions: Map::empty(),
        idempotency_keys: Map::empty(),
    }
}

/// Every stored transaction is stored under its own id.
pub open spec fn ids_consistent(s: LedgerState) -> bool {
    forall|k: Seq<u8>| #[trigger]
        s.transactions.contains_key(k) ==> s.transactions[k].id == k
}

/// All ledger reads and writes of the contract.
pub struct StorageClient {
    initialised: bool,
    admin: Option<Address>,
    relay_signer: Option<Address>,
    paused: bool,
    transactions: KeyedStore<Transaction>,
    idempotency_keys: KeyedStore<IdempotencyRecord>,
}

impl View for StorageClient {
    type V = LedgerState;

    closed spec fn view(&self) -> LedgerState {
        LedgerState {
            initialised: self.initialised,
            admin: address_view(self.admin),
            relay_signer: address_view(self.relay_signer),
            paused: self.paused,
            transactions: self.transactions.view(),
            idempotency_keys: self.idempotency_keys.view(),
        }
    }
}

impl StorageClient {
    /// The storage's internal invariant.
    pub closed spec fn wf(&self) -> bool {
        self.transactions.wf() && self.idempotency_keys.wf() && ids_consistent(self@)
    }

    /// Well-formed storage keeps every transaction under its own id.
    pub proof fn lemma_ids_consistent(&self)
        requires
            self.wf(),
        ensures
            ids_consistent(self@),
    {
    }

    /// Fresh storage of a contract that has not been initialised.
    pub fn new() -> (s: Self)
        ensures
            s.wf(),
            s@ == empty_ledger(),
    {
        StorageClient {
            initialised: false,
            admin: None,
            relay_signer: None,
            paused: false,
            transactions: KeyedStore::new(),
            idempotency_keys: KeyedStore::new(),
        }
    }

    // ── Initialisation flag ──────────────────────────────────────────────────

    /// Returns `true` once `initialize` has been called.
    pub fn is_initialised(&self) -> (r: bool)
        ensures
            r == self@.initialised,
    {
        self.initialised
    }

    /// Persist the initialised flag.
    pub fn set_initialised(&mut self)
        requires
            old(self).wf(),
        ensures
            final(self).wf(),
            final(self)@ == (LedgerState { initialised: true, ..old(self)@ }),
    {
        self.initialised = true;
    }

    // ── Admin ────────────────────────────────────────────────────────────────

    /// Read the current admin address.
    pub fn get_admin(&self) -> (r: Result<Address, ContractError>)
        ensures
            match self@.admin {
                Some(a) => r matches Ok(x) && x@ == a,
                None => r == Err::<Address, ContractError>(ContractError::NotInitialised),
            },
    {
        match &self.admin {
            Some(a) => Ok(a.duplicate()),
            None => Err(ContractError::NotInitialised),
        }
    }

    /// Persist an admin address.
    pub fn set_admin(&mut self, admin: &Address)
        requires
            old(self).wf(),
        ensures
            final(self).wf(),
            final(self)@ == (LedgerState { admin: Some(admin@), ..old(self)@ }),
    {
        self.admin = Some(admin.duplicate());
    }

    // ── Relay signer ─────────────────────────────────────────────────────────

    /// Read the trusted relay signer address.
    pub fn get_relay_signer(&self) -> (r: Result<Address, ContractError>)
        ensures
            match self@.relay_signer {
                Some(a) => r matches Ok(x) && x@ == a,
                None => r == Err::<Address, ContractError>(ContractError::NotInitialised),
            },
    {
        match &self.relay_signer {
            Some(a) => Ok(a.duplicate()),
            None => Err(ContractError::NotInitialised),
        }
    }

    /// Persist the relay signer address.
    pub fn set_relay_signer(&mut self, signer: &Address)
        requires
            old(self).wf(),
        ensures
            final(self).wf(),
            final(self)@ == (LedgerState { relay_signer: Some(signer@), ..old(self)@ }),
    {
        self.relay_signer = Some(signer.duplicate());
    }

    // ── Pause flag ───────────────────────────────────────────────────────────

    /// Whether the emergency pause is engaged.
    pub fn is_paused(&self) -> (r: bool)
        ensures
            r == self@.paused,
    {
        self.paused
    }

    /// Persist the pause flag.
    pub fn set_paused(&mut self, paused: bool)
        requires
            old(self).wf(),
        ensures
            final(self).wf(),
            final(self)@ == (LedgerState { paused, ..old(self)@ }),
    {
        self.paused = paused;
    }

    // ── Transactions ─────────────────────────────────────────────────────────

    /// Read a [`Transaction`] by its id.
    pub fn get_transaction(&self, tx_id: &[u8]) -> (r: Result<Transaction, ContractError>)
        requires
            self.wf(),
        ensures
            self@.transactions.contains_key(tx_id@) ==> (r matches Ok(t) && t@
                == self@.transactions[tx_id@]),
            !self@.transactions.contains_key(tx_id@) ==> r == Err::<Transaction, ContractError>(
                ContractError::TransactionNotFound,
            ),
    {
        match self.transactions.get(tx_id) {
            Some(t) => Ok(t.duplicate()),
            None => Err(ContractError::TransactionNotFound),
        }
    }

    /// Persist (insert or update) a [`Transaction`] under its id.
    pub fn save_transaction(&mut self, tx: &Transaction)
        requires
            old(self).wf(),
        ensures
            final(self).wf(),
            final(self)@ == (LedgerState {
                transactions: old(self)@.transactions.insert(tx.id@, tx@),
                ..old(self)@
            }),
    {
        self.transactions.insert(copy_bytes(&tx.id), tx.duplicate());
    }

    // ── Idempotency keys ─────────────────────────────────────────────────────

    /// The ledger sequence at which an idempotency key was first stored, or
    /// `None` when the key is unknown or has expired by ledger `ledger`.
    pub fn get_idempotency_key(&self, key: &[u8], ledger: u32) -> (r: Option<u32>)
        requires
            self.wf(),
        ensures
            r == live_idempotency_key(self@, key@, ledger),
    {
        match self.idempotency_keys.get(key) {
            Some(rec) => {
                if ledger as u64 <= rec.live_until_ledger {
                    Some(rec.stored_at_ledger)
                } else {
                    None
                }
            },
            None => None,
        }
    }

    /// The id of the transaction registered under an idempotency key, or
    /// `None` when the key is unknown or has expired by ledger `ledger`.
    pub fn get_idempotency_transaction(&self, key: &[u8], ledger: u32) -> (r: Option<Vec<u8>>)
        requires
            self.wf(),
        ensures
            match r {
                Some(id) => live_idempotency_transaction(self@, key@, ledger) == Some(id@),
                None => live_idempotency_transaction(self@, key@, ledger) is None,
            },
    {
        match self.idempotency_keys.get(key) {
            Some(rec) => {
                if ledger as u64 <= rec.live_until_ledger {
                    Some(copy_bytes(&rec.transaction_id))
                } else {
                    None
                }
            },
            None => None,
        }
    }

    /// Drop every idempotency key, as temporary storage is evicted when the
    /// contract code is replaced.
    pub fn clear_idempotency_keys(&mut self)
        requires
            old(self).wf(),
        ensures
            final(self).wf(),
            final(self)@ == (LedgerState {
                idempotency_keys: Map::<Seq<u8>, IdempotencyRecordView>::empty(),
                ..old(self)@
            }),
    {
        self.idempotency_keys = KeyedStore::new();
    }

    /// Record idempotency key `key` for transaction `tx_id` at ledger
    /// `ledger`, live for `IDEMPOTENCY_TTL_LEDGERS` ledgers after it.
    pub fn set_idempotency_key(&mut self, key: &[u8], tx_id: &[u8], ledger: u32)
        requires
            old(self).wf(),
        ensures
            final(self).wf(),
            final(self)@ == (LedgerState {
                idempotency_keys: old(self)@.idempotency_keys.insert(
                    key@,
                    fresh_idempotency_record(tx_id@, ledger),
                ),
                ..old(self)@
            }),
    {
        let k = bytes_of(key);
        let rec = IdempotencyRecord {
            transaction_id: bytes_of(tx_id),
            stored_at_ledger: ledger,
            live_until_ledger: ledger as u64 + IDEMPOTENCY_TTL_LEDGERS as u64,
        };
        self.idempotency_keys.insert(k, rec);
    }
}

} // verus!
