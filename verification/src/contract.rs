//! The contract entry points.
//!
//! Every entry point that changes state is a step of the contract's state
//! machine: it takes the ledger state and the invocation context and yields
//! a new state, a result, and the events published by the invocation.  A
//! failing invocation leaves the ledger untouched and publishes nothing.

use vstd::prelude::*;

use crate::admin::{admin_check, relay_or_admin_check, AdminClient};
use crate::events::{events_view, ContractEvent, EventEmitter, EventView};
use crate::storage::{
    empty_ledger, fresh_idempotency_record, live_idempotency_key, live_idempotency_transaction,
    LedgerState, StorageClient,
};
use crate::types::{
    authorises, bytes_eq, bytes_of, copy_bytes, Address, CallbackPayload, CallbackPayloadView, ContractError,
    Invocation, InvocationView, Transaction, TransactionStatus, TransactionView,
};
use crate::validation::{
    payload_error, within_cap, Validator, MAX_FAILURE_REASON_LEN, MAX_STELLAR_TX_HASH_LEN,
};

verus! {

// ─── The model ────────────────────────────────────────────────────────────────

/// The mathematical value of the contract: its ledger state, the hash of the
/// code it last upgraded to, and the events published by the latest
/// state-changing invocation.
#[verifier::ext_equal]
pub struct ContractView {
    pub storage: LedgerState,
    pub wasm_hash: Option<Seq<u8>>,
    pub events: Seq<EventView>,
}

/// The lifecycle edges: `Pending -> Processing -> Completed`, and
/// `Pending | Processing -> Failed`.
pub open spec fn valid_transition(from: TransactionStatus, to: TransactionStatus) -> bool {
    ||| from == TransactionStatus::Pending && to == TransactionStatus::Processing
    ||| from == TransactionStatus::Processing && to == TransactionStatus::Completed
    ||| from == TransactionStatus::Pending && to == TransactionStatus::Failed
    ||| from == TransactionStatus::Processing && to == TransactionStatus::Failed
}

/// A status with no way out.
pub open spec fn is_terminal(s: TransactionStatus) -> bool {
    s == TransactionStatus::Completed || s == TransactionStatus::Failed
}

/// A failed invocation: state untouched, no events.
pub open spec fn rejected<T>(s: ContractView, e: ContractError) -> (ContractView, Result<T, ContractError>) {
    (ContractView { events: Seq::empty(), ..s }, Err(e))
}

/// The transaction `register_callback` stores for payload `p` at ledger `ledger`.
pub open spec fn registered_transaction(p: CallbackPayloadView, ledger: u32) -> TransactionView {
    TransactionView {
        id: p.transaction_id,
        stellar_account: p.stellar_account,
        amount: p.amount,
        asset_code: p.asset_code,
        asset_issuer: p.asset_issuer,
        status: TransactionStatus::Pending,
        created_at_ledger: ledger,
        updated_at_ledger: ledger,
        anchor_transaction_id: p.anchor_transaction_id,
        callback_type: p.callback_type,
        callback_status: p.callback_status,
        stellar_tx_hash: Seq::empty(),
        failure_reason: Seq::empty(),
    }
}

/// `t` is the record that payload `p` registers, whatever its ledger stamps:
/// it is still `Pending` and holds exactly the callback's fields.
pub open spec fn same_registration(t: TransactionView, p: CallbackPayloadView) -> bool {
    t == TransactionView {
        created_at_ledger: t.created_at_ledger,
        updated_at_ledger: t.updated_at_ledger,
        ..registered_transaction(p, 0)
    }
}

/// The event announcing the registration of payload `p` at ledger `ledger`.
pub open spec fn registered_event(p: CallbackPayloadView, ledger: u32) -> EventView {
    EventView::TransactionRegistered {
        tx_id: p.transaction_id,
        stellar_account: p.stellar_account,
        amount: p.amount,
        asset_code: p.asset_code,
        anchor_transaction_id: p.anchor_transaction_id,
        ledger,
    }
}

/// `initialize(admin, relay_signer)`.
pub open spec fn initialize_step(
    s: ContractView,
    inv: InvocationView,
    admin: Seq<u8>,
    relay_signer: Seq<u8>,
) -> (ContractView, Result<(), ContractError>) {
    if s.storage.initialised {
        rejected(s, ContractError::AlreadyInitialised)
    } else {
        (
            ContractView {
                storage: LedgerState {
                    initialised: true,
                    admin: Some(admin),
                    relay_signer: Some(relay_signer),
                    paused: false,
                    ..s.storage
                },
                wasm_hash: s.wasm_hash,
                events: seq![EventView::Initialised { admin, relay_signer, ledger: inv.ledger }],
            },
            Ok(()),
        )
    }
}

/// `register_callback(payload)`: checks in order the pause flag, the relay
/// signer's presence and authorisation, the payload, and the idempotency key
/// (a live key answers with the transaction first registered under it).  A
/// transaction id that already has a record is never written again: a
/// redelivery of the very callback that created a record still `Pending`
/// records the new key and is announced again; any other reuse fails with
/// `DuplicateRequest`.
pub open spec fn register_callback_step(
    s: ContractView,
    inv: InvocationView,
    p: CallbackPayloadView,
) -> (ContractView, Result<Seq<u8>, ContractError>) {
    if s.storage.paused {
        rejected(s, ContractError::ContractPaused)
    } else if s.storage.relay_signer is None {
        rejected(s, ContractError::NotInitialised)
    } else if !authorises(inv, s.storage.relay_signer->0) {
        rejected(s, ContractError::Unauthorised)
    } else if payload_error(p) is Some {
        rejected(s, payload_error(p)->0)
    } else if live_idempotency_transaction(s.storage, p.idempotency_key, inv.ledger) is Some {
        (
            ContractView { events: Seq::empty(), ..s },
            Ok(live_idempotency_transaction(s.storage, p.idempotency_key, inv.ledger)->0),
        )
    } else if s.storage.transactions.contains_key(p.transaction_id) {
        if same_registration(s.storage.transactions[p.transaction_id], p) {
            (
                ContractView {
                    storage: LedgerState {
                        idempotency_keys: s.storage.idempotency_keys.insert(
                            p.idempotency_key,
                            fresh_idempotency_record(p.transaction_id, inv.ledger),
                        ),
                        ..s.storage
                    },
                    wasm_hash: s.wasm_hash,
                    events: seq![registered_event(p, inv.ledger)],
                },
                Ok(p.transaction_id),
            )
        } else {
            rejected(s, ContractError::DuplicateRequest)
        }
    } else {
        (
            ContractView {
                storage: LedgerState {
                    transactions: s.storage.transactions.insert(
                        p.transaction_id,
                        registered_transaction(p, inv.ledger),
                    ),
                    idempotency_keys: s.storage.idempotency_keys.insert(
                        p.idempotency_key,
                        fresh_idempotency_record(p.transaction_id, inv.ledger),
                    ),
                    ..s.storage
                },
                wasm_hash: s.wasm_hash,
                events: seq![registered_event(p, inv.ledger)],
            },
            Ok(p.transaction_id),
        )
    }
}

/// The common prefix of the status transitions: `caller` must have authorised
/// the invocation and hold the admin or relay role.
pub open spec fn transition_auth(s: LedgerState, inv: InvocationView, caller: Seq<u8>) -> Result<
    (),
    ContractError,
> {
    if !authorises(inv, caller) {
        Err(ContractError::Unauthorised)
    } else {
        relay_or_admin_check(s, inv, caller)
    }
}

/// Store `tx` under `tx_id` and publish `events`.
pub open spec fn with_transaction(
    s: ContractView,
    tx_id: Seq<u8>,
    tx: TransactionView,
    events: Seq<EventView>,
) -> ContractView {
    ContractView {
        storage: LedgerState { transactions: s.storage.transactions.insert(tx_id, tx), ..s.storage },
        wasm_hash: s.wasm_hash,
        events,
    }
}

/// `start_processing(tx_id, caller)`: `Pending -> Processing`.
pub open spec fn start_processing_step(
    s: ContractView,
    inv: InvocationView,
    tx_id: Seq<u8>,
    caller: Seq<u8>,
) -> (ContractView, Result<(), ContractError>) {
    if transition_auth(s.storage, inv, caller) is Err {
        rejected(s, transition_auth(s.storage, inv, caller)->Err_0)
    } else if !s.storage.transactions.contains_key(tx_id) {
        rejected(s, ContractError::TransactionNotFound)
    } else if s.storage.transactions[tx_id].status != TransactionStatus::Pending {
        rejected(s, ContractError::InvalidStatusTransition)
    } else {
        let old_tx = s.storage.transactions[tx_id];
        let tx = TransactionView {
            status: TransactionStatus::Processing,
            updated_at_ledger: inv.ledger,
            ..old_tx
        };
        (
            with_transaction(
                s,
                tx_id,
                tx,
                seq![
                    EventView::StatusChanged {
                        tx_id,
                        old_status: TransactionStatus::Pending,
                        new_status: TransactionStatus::Processing,
                        ledger: inv.ledger,
                    },
                ],
            ),
            Ok(()),
        )
    }
}

/// `complete_transaction(tx_id, stellar_tx_hash, caller)`:
/// `Processing -> Completed`, recording the settlement hash.
pub open spec fn complete_transaction_step(
    s: ContractView,
    inv: InvocationView,
    tx_id: Seq<u8>,
    stellar_tx_hash: Seq<u8>,
    caller: Seq<u8>,
) -> (ContractView, Result<(), ContractError>) {
    if transition_auth(s.storage, inv, caller) is Err {
        rejected(s, transition_auth(s.storage, inv, caller)->Err_0)
    } else if !within_cap(stellar_tx_hash, MAX_STELLAR_TX_HASH_LEN) {
        rejected(s, ContractError::StringTooLong)
    } else if !s.storage.transactions.contains_key(tx_id) {
        rejected(s, ContractError::TransactionNotFound)
    } else if s.storage.transactions[tx_id].status != TransactionStatus::Processing {
        rejected(s, ContractError::InvalidStatusTransition)
    } else {
        let old_tx = s.storage.transactions[tx_id];
        let tx = TransactionView {
            status: TransactionStatus::Completed,
            updated_at_ledger: inv.ledger,
            stellar_tx_hash,
            ..old_tx
        };
        (
            with_transaction(
                s,
                tx_id,
                tx,
                seq![
                    EventView::StatusChanged {
                        tx_id,
                        old_status: TransactionStatus::Processing,
                        new_status: TransactionStatus::Completed,
                        ledger: inv.ledger,
                    },
                    EventView::TransactionCompleted { tx_id, stellar_tx_hash, ledger: inv.ledger },
                ],
            ),
            Ok(()),
        )
    }
}

/// `fail_transaction(tx_id, reason, caller)`:
/// `Pending | Processing -> Failed`, recording the reason.
pub open spec fn fail_transaction_step(
    s: ContractView,
    inv: InvocationView,
    tx_id: Seq<u8>,
    reason: Seq<u8>,
    caller: Seq<u8>,
) -> (ContractView, Result<(), ContractError>) {
    if transition_auth(s.storage, inv, caller) is Err {
        rejected(s, transition_auth(s.storage, inv, caller)->Err_0)
    } else if !within_cap(reason, MAX_FAILURE_REASON_LEN) {
        rejected(s, ContractError::StringTooLong)
    } else if !s.storage.transactions.contains_key(tx_id) {
        rejected(s, ContractError::TransactionNotFound)
    } else if is_terminal(s.storage.transactions[tx_id].status) {
        rejected(s, ContractError::InvalidStatusTransition)
    } else {
        let old_tx = s.storage.transactions[tx_id];
        let tx = TransactionView {
            status: TransactionStatus::Failed,
            updated_at_ledger: inv.ledger,
            failure_reason: reason,
            ..old_tx
        };
        (
            with_transaction(
                s,
                tx_id,
                tx,
                seq![
                    EventView::StatusChanged {
                        tx_id,
                        old_status: old_tx.status,
                        new_status: TransactionStatus::Failed,
                        ledger: inv.ledger,
                    },
                    EventView::TransactionFailed { tx_id, reason, ledger: inv.ledger },
                ],
            ),
            Ok(()),
        )
    }
}

/// `transfer_admin(new_admin)`.
pub open spec fn transfer_admin_step(s: ContractView, inv: InvocationView, new_admin: Seq<u8>) -> (
    ContractView,
    Result<(), ContractError>,
) {
    match admin_check(s.storage, inv) {
        Err(e) => rejected(s, e),
        Ok(old_admin) => (
            ContractView {
                storage: LedgerState { admin: Some(new_admin), ..s.storage },
                wasm_hash: s.wasm_hash,
                events: seq![EventView::AdminTransferred { old_admin, new_admin, ledger: inv.ledger }],
            },
            Ok(()),
        ),
    }
}

/// `set_relay_signer(new_signer)`: admin-gated; the signer being replaced is
/// named in the rotation event.
pub open spec fn set_relay_signer_step(s: ContractView, inv: InvocationView, new_signer: Seq<u8>) -> (
    ContractView,
    Result<(), ContractError>,
) {
    match admin_check(s.storage, inv) {
        Err(e) => rejected(s, e),
        Ok(_) => match s.storage.relay_signer {
            None => rejected(s, ContractError::NotInitialised),
            Some(old_signer) => (
                ContractView {
                    storage: LedgerState { relay_signer: Some(new_signer), ..s.storage },
                    wasm_hash: s.wasm_hash,
                    events: seq![
                        EventView::RelaySignerRotated { old_signer, new_signer, ledger: inv.ledger },
                    ],
                },
                Ok(()),
            ),
        },
    }
}

/// `upgrade(new_wasm_hash)`: persistent and instance state survive; the
/// temporary idempotency keys are evicted.
pub open spec fn upgrade_step(s: ContractView, inv: InvocationView, new_wasm_hash: Seq<u8>) -> (
    ContractView,
    Result<(), ContractError>,
) {
    match admin_check(s.storage, inv) {
        Err(e) => rejected(s, e),
        Ok(admin) => (
            ContractView {
                storage: LedgerState { idempotency_keys: Map::empty(), ..s.storage },
                wasm_hash: Some(new_wasm_hash),
                events: seq![EventView::ContractUpgraded { admin, new_wasm_hash, ledger: inv.ledger }],
            },
            Ok(()),
        ),
    }
}

/// `pause()` when `paused`, `unpause()` otherwise.
pub open spec fn set_pause_step(s: ContractView, inv: InvocationView, paused: bool) -> (
    ContractView,
    Result<(), ContractError>,
) {
    match admin_check(s.storage, inv) {
        Err(e) => rejected(s, e),
        Ok(admin) => (
            ContractView {
                storage: LedgerState { paused, ..s.storage },
                wasm_hash: s.wasm_hash,
                events: seq![EventView::PauseToggled { paused, admin, ledger: inv.ledger }],
            },
            Ok(()),
        ),
    }
}

/// `get_transaction(tx_id)`.
pub open spec fn transaction_query(s: LedgerState, tx_id: Seq<u8>) -> Result<TransactionView, ContractError> {
    if s.transactions.contains_key(tx_id) {
        Ok(s.transactions[tx_id])
    } else {
        Err(ContractError::TransactionNotFound)
    }
}

/// `get_status(tx_id)`.
pub open spec fn status_query(s: LedgerState, tx_id: Seq<u8>) -> Result<TransactionStatus, ContractError> {
    match transaction_query(s, tx_id) {
        Ok(t) => Ok(t.status),
        Err(e) => Err(e),
    }
}

/// `is_duplicate(key)` at ledger `ledger`.
pub open spec fn duplicate_query(s: LedgerState, key: Seq<u8>, ledger: u32) -> bool {
    live_idempotency_key(s, key, ledger) is Some
}

/// The value of a byte-string result.
pub open spec fn bytes_result(r: Result<Vec<u8>, ContractError>) -> Result<Seq<u8>, ContractError> {
    match r {
        Ok(v) => Ok(v@),
        Err(e) => Err(e),
    }
}

/// The value of a transaction result.
pub open spec fn transaction_result(r: Result<Transaction, ContractError>) -> Result<
    TransactionView,
    ContractError,
> {
    match r {
        Ok(t) => Ok(t@),
        Err(e) => Err(e),
    }
}

/// A freshly deployed contract, before `initialize`.
pub open spec fn deployed() -> ContractView {
    ContractView { storage: empty_ledger(), wasm_hash: None, events: Seq::empty() }
}

/// Whether `t` is the record that payload `p` registers, whatever its ledger
/// stamps.
fn is_redelivery(t: &Transaction, p: &CallbackPayload) -> (r: bool)
    ensures
        r == same_registration(t@, p@),
{
    let r = bytes_eq(t.id.as_slice(), p.transaction_id.as_slice())
        && bytes_eq(t.stellar_account.as_slice(), p.stellar_account.as_slice())
        && t.amount == p.amount
        && bytes_eq(t.asset_code.as_slice(), p.asset_code.as_slice())
        && bytes_eq(t.asset_issuer.as_slice(), p.asset_issuer.as_slice())
        && t.status == TransactionStatus::Pending
        && bytes_eq(t.anchor_transaction_id.as_slice(), p.anchor_transaction_id.as_slice())
        && t.callback_type == p.callback_type
        && bytes_eq(t.callback_status.as_slice(), p.callback_status.as_slice())
        && t.stellar_tx_hash.len() == 0
        && t.failure_reason.len() == 0;
    proof {
        if t.stellar_tx_hash@.len() == 0 {
            assert(t.stellar_tx_hash@ =~= Seq::<u8>::empty());
        }
        if t.failure_reason@.len() == 0 {
            assert(t.failure_reason@ =~= Seq::<u8>::empty());
        }
    }
    r
}

// ─── The contract ─────────────────────────────────────────────────────────────

/// The Synapse core registry: ledger state, installed code hash and the
/// events of the latest state-changing invocation.
pub struct SynapseCoreContract {
    storage: StorageClient,
    wasm_hash: Option<[u8; 32]>,
    events: Vec<ContractEvent>,
}

/// The value of an optional code hash.
pub open spec fn hash_view(h: Option<[u8; 32]>) -> Option<Seq<u8>> {
    match h {
        Some(x) => Some(x@),
        None => None,
    }
}

impl View for SynapseCoreContract {
    type V = ContractView;

    closed spec fn view(&self) -> ContractView {
        ContractView {
            storage: self.storage@,
            wasm_hash: hash_view(self.wasm_hash),
            events: events_view(self.events@),
        }
    }
}

impl SynapseCoreContract {
    /// The contract's internal invariant.
    pub closed spec fn wf(&self) -> bool {
        self.storage.wf()
    }

    /// Deploy a fresh contract (not yet initialised).
    pub fn new() -> (c: Self)
        ensures
            c.wf(),
            c@ == deployed(),
    {
        let c = SynapseCoreContract { storage: StorageClient::new(), wasm_hash: None, events: Vec::new() };
        assert(c@.events =~= Seq::<EventView>::empty());
        c
    }

    /// A contract over existing ledger state, with no code hash recorded and
    /// no events yet.
    pub fn from_storage(storage: StorageClient) -> (c: Self)
        requires
            storage.wf(),
        ensures
            c.wf(),
            c@ == (ContractView { storage: storage@, wasm_hash: None, events: Seq::empty() }),
    {
        let c = SynapseCoreContract { storage, wasm_hash: None, events: Vec::new() };
        assert(c@.events =~= Seq::<EventView>::empty());
        c
    }

    /// The contract's ledger state.
    pub fn storage(&self) -> (r: &StorageClient)
        requires
            self.wf(),
        ensures
            r.wf(),
            r@ == self@.storage,
    {
        &self.storage
    }

    /// The code hash installed by the latest successful upgrade, if any.
    pub fn wasm_hash(&self) -> (r: Option<[u8; 32]>)
        ensures
            hash_view(r) == self@.wasm_hash,
    {
        self.wasm_hash
    }

    proof fn lemma_clear_events(log: Vec<ContractEvent>)
        requires
            log@.len() == 0,
        ensures
            events_view(log@) == Seq::<EventView>::empty(),
    {
        assert(events_view(log@) =~= Seq::<EventView>::empty());
    }

    /// The events published by the latest state-changing invocation.
    pub fn events(&self) -> (r: &Vec<ContractEvent>)
        ensures
            events_view(r@) == self@.events,
    {
        &self.events
    }

    // ── Initialisation ───────────────────────────────────────────────────────

    /// Initialise the contract; can only be called once.
    ///
    /// * `admin`        — address that may call privileged methods.
    /// * `relay_signer` — address of the trusted relay that forwards anchor
    ///                    callbacks.
    pub fn initialize(&mut self, inv: &Invocation, admin: Address, relay_signer: Address) -> (r:
        Result<(), ContractError>)
        requires
            old(self).wf(),
        ensures
            final(self).wf(),
            (final(self)@, r) == initialize_step(old(self)@, inv@, admin@, relay_signer@),
    {
        self.events = Vec::new();
        proof {
            Self::lemma_clear_events(self.events);
        }
        if self.storage.is_initialised() {
            return Err(ContractError::AlreadyInitialised);
        }
        self.storage.set_admin(&admin);
        self.storage.set_relay_signer(&relay_signer);
        // Start unpaused so a freshly deployed contract accepts callbacks.
        self.storage.set_paused(false);
        self.storage.set_initialised();
        EventEmitter::initialised(&mut self.events, inv.ledger, &admin, &relay_signer);
        Ok(())
    }

    // ── Callback ingestion ───────────────────────────────────────────────────

    /// Register a new anchor callback, storing a [`Transaction`] with status
    /// `Pending`.  Only the trusted relay signer may call it.
    ///
    /// While the emergency pause is engaged every call is rejected with
    /// `ContractPaused`.  If the payload's idempotency key is still live, the
    /// call returns the id of the transaction first registered under that
    /// key, without writing anything and without publishing an event.  A
    /// stored record is never overwritten: a redelivery of the callback that
    /// created a record still `Pending` only records the new key and
    /// announces the registration again; any other reuse of a transaction id
    /// fails with `DuplicateRequest`.
    pub fn register_callback(&mut self, inv: &Invocation, payload: &CallbackPayload) -> (r: Result<
        Vec<u8>,
        ContractError,
    >)
        requires
            old(self).wf(),
        ensures
            final(self).wf(),
            final(self)@ == register_callback_step(old(self)@, inv@, payload@).0,
            bytes_result(r) == register_callback_step(old(self)@, inv@, payload@).1,
    {
        self.events = Vec::new();
        proof {
            Self::lemma_clear_events(self.events);
        }
        // Circuit breaker: while paused, ingestion fails closed before anything else.
        if self.storage.is_paused() {
            return Err(ContractError::ContractPaused);
        }
        // Only the trusted relay signer may forward anchor callbacks.
        let relay = self.storage.get_relay_signer()?;
        if !inv.authorises(&relay) {
            return Err(ContractError::Unauthorised);
        }
        Validator::validate_payload(payload)?;
        // A replayed idempotency key answers with the original transaction id
        // and writes nothing.
        if let Some(existing) = self.storage.get_idempotency_transaction(
            payload.idempotency_key.as_slice(),
            inv.ledger,
        ) {
            return Ok(existing);
        }
        // A stored record is never written again.  Only a redelivery of the
        // callback that created a still-`Pending` record is accepted: it
        // records the new key and is announced again.
        if let Ok(existing) = self.storage.get_transaction(payload.transaction_id.as_slice()) {
            if !is_redelivery(&existing, payload) {
                return Err(ContractError::DuplicateRequest);
            }
            self.storage.set_idempotency_key(
                payload.idempotency_key.as_slice(),
                existing.id.as_slice(),
                inv.ledger,
            );
            EventEmitter::transaction_registered(&mut self.events, inv.ledger, &existing);
            return Ok(existing.id);
        }
        let ledger = inv.ledger;
        let tx = Transaction {
            id: copy_bytes(&payload.transaction_id),
            stellar_account: copy_bytes(&payload.stellar_account),
            amount: payload.amount,
            asset_code: copy_bytes(&payload.asset_code),
            asset_issuer: copy_bytes(&payload.asset_issuer),
            status: TransactionStatus::Pending,
            created_at_ledger: ledger,
            updated_at_ledger: ledger,
            anchor_transaction_id: copy_bytes(&payload.anchor_transaction_id),
            callback_type: payload.callback_type,
            callback_status: copy_bytes(&payload.callback_status),
            stellar_tx_hash: Vec::new(),
            failure_reason: Vec::new(),
        };
        proof {
            assert(tx@ == registered_transaction(payload@, ledger));
        }
        self.storage.save_transaction(&tx);
        self.storage.set_idempotency_key(payload.idempotency_key.as_slice(), tx.id.as_slice(), ledger);
        EventEmitter::transaction_registered(&mut self.events, ledger, &tx);
        Ok(tx.id)
    }

    // ── Status transitions ───────────────────────────────────────────────────

    /// Mark a `Pending` transaction as `Processing`.  Callable by the relay
    /// signer or the admin, with its own authorisation.
    pub fn start_processing(&mut self, inv: &Invocation, tx_id: &[u8], caller: &Address) -> (r:
        Result<(), ContractError>)
        requires
            old(self).wf(),
        ensures
            final(self).wf(),
            (final(self)@, r) == start_processing_step(old(self)@, inv@, tx_id@, caller@),
    {
        self.events = Vec::new();
        proof {
            Self::lemma_clear_events(self.events);
        }
        if !inv.authorises(caller) {
            return Err(ContractError::Unauthorised);
        }
        AdminClient::assert_is_relay_or_admin(&self.storage, inv, caller)?;
        proof {
            self.storage.lemma_ids_consistent();
        }
        let mut tx = self.storage.get_transaction(tx_id)?;
        if tx.status != TransactionStatus::Pending {
            return Err(ContractError::InvalidStatusTransition);
        }
        tx.status = TransactionStatus::Processing;
        tx.updated_at_ledger = inv.ledger;
        self.storage.save_transaction(&tx);
        EventEmitter::status_changed(
            &mut self.events,
            inv.ledger,
            &tx.id,
            TransactionStatus::Pending,
            TransactionStatus::Processing,
        );
        Ok(())
    }

    /// Mark a `Processing` transaction as `Completed`, recording the Stellar
    /// transaction hash that confirms settlement.  Callable by the relay
    /// signer or the admin, with its own authorisation.
    pub fn complete_transaction(
        &mut self,
        inv: &Invocation,
        tx_id: &[u8],
        stellar_tx_hash: &[u8],
        caller: &Address,
    ) -> (r: Result<(), ContractError>)
        requires
            old(self).wf(),
        ensures
            final(self).wf(),
            (final(self)@, r) == complete_transaction_step(
                old(self)@,
                inv@,
                tx_id@,
                stellar_tx_hash@,
                caller@,
            ),
    {
        self.events = Vec::new();
        proof {
            Self::lemma_clear_events(self.events);
        }
        if !inv.authorises(caller) {
            return Err(ContractError::Unauthorised);
        }
        AdminClient::assert_is_relay_or_admin(&self.storage, inv, caller)?;
        Validator::validate_stellar_tx_hash(stellar_tx_hash)?;
        proof {
            self.storage.lemma_ids_consistent();
        }
        let mut tx = self.storage.get_transaction(tx_id)?;
        if tx.status != TransactionStatus::Processing {
            return Err(ContractError::InvalidStatusTransition);
        }
        tx.status = TransactionStatus::Completed;
        tx.updated_at_ledger = inv.ledger;
        tx.stellar_tx_hash = bytes_of(stellar_tx_hash);
        self.storage.save_transaction(&tx);
        EventEmitter::status_changed(
            &mut self.events,
            inv.ledger,
            &tx.id,
            TransactionStatus::Processing,
            TransactionStatus::Completed,
        );
        EventEmitter::transaction_completed(&mut self.events, inv.ledger, &tx.id, &tx.stellar_tx_hash);
        Ok(())
    }

    /// Mark a `Pending` or `Processing` transaction as `Failed`, recording a
    /// short failure code.  Callable by the relay signer or the admin, with
    /// its own authorisation.
    pub fn fail_transaction(
        &mut self,
        inv: &Invocation,
        tx_id: &[u8],
        reason: &[u8],
        caller: &Address,
    ) -> (r: Result<(), ContractError>)
        requires
            old(self).wf(),
        ensures
            final(self).wf(),
            (final(self)@, r) == fail_transaction_step(old(self)@, inv@, tx_id@, reason@, caller@),
    {
        self.events = Vec::new();
        proof {
            Self::lemma_clear_events(self.events);
        }
        if !inv.authorises(caller) {
            return Err(ContractError::Unauthorised);
        }
        AdminClient::assert_is_relay_or_admin(&self.storage, inv, caller)?;
        Validator::validate_failure_reason(reason)?;
        proof {
            self.storage.lemma_ids_consistent();
        }
        let mut tx = self.storage.get_transaction(tx_id)?;
        let old_status = tx.status;
        if old_status != TransactionStatus::Pending && old_status != TransactionStatus::Processing {
            return Err(ContractError::InvalidStatusTransition);
        }
        tx.status = TransactionStatus::Failed;
        tx.updated_at_ledger = inv.ledger;
        tx.failure_reason = bytes_of(reason);
        self.storage.save_transaction(&tx);
        EventEmitter::status_changed(
            &mut self.events,
            inv.ledger,
            &tx.id,
            old_status,
            TransactionStatus::Failed,
        );
        EventEmitter::transaction_failed(&mut self.events, inv.ledger, &tx.id, &tx.failure_reason);
        Ok(())
    }

    // ── Read-only queries ────────────────────────────────────────────────────

    /// The [`Transaction`] stored under `tx_id`, or `TransactionNotFound`.
    /// Never gated by the pause flag.
    pub fn get_transaction(&self, tx_id: &[u8]) -> (r: Result<Transaction, ContractError>)
        requires
            self.wf(),
        ensures
            transaction_result(r) == transaction_query(self@.storage, tx_id@),
    {
        self.storage.get_transaction(tx_id)
    }

    /// The current status of the transaction stored under `tx_id`.
    pub fn get_status(&self, tx_id: &[u8]) -> (r: Result<TransactionStatus, ContractError>)
        requires
            self.wf(),
        ensures
            r == status_query(self@.storage, tx_id@),
    {
        let tx = self.storage.get_transaction(tx_id)?;
        Ok(tx.status)
    }

    /// Whether an idempotency key is still live at the invocation's ledger.
    pub fn is_duplicate(&self, inv: &Invocation, idempotency_key: &[u8]) -> (r: bool)
        requires
            self.wf(),
        ensures
            r == duplicate_query(self@.storage, idempotency_key@, inv.ledger),
    {
        self.storage.get_idempotency_key(idempotency_key, inv.ledger).is_some()
    }

    // ── Admin ────────────────────────────────────────────────────────────────

    /// Transfer the admin role to `new_admin`.  Requires the current admin's
    /// authorisation.
    pub fn transfer_admin(&mut self, inv: &Invocation, new_admin: Address) -> (r: Result<
        (),
        ContractError,
    >)
        requires
            old(self).wf(),
        ensures
            final(self).wf(),
            (final(self)@, r) == transfer_admin_step(old(self)@, inv@, new_admin@),
    {
        self.events = Vec::new();
        proof {
            Self::lemma_clear_events(self.events);
        }
        let old_admin = AdminClient::require_admin(&self.storage, inv)?;
        self.storage.set_admin(&new_admin);
        EventEmitter::admin_transferred(&mut self.events, inv.ledger, &old_admin, &new_admin);
        Ok(())
    }

    /// Rotate the trusted relay signer.  Requires the admin's authorisation;
    /// publishes the old and the new signer.
    pub fn set_relay_signer(&mut self, inv: &Invocation, new_signer: Address) -> (r: Result<
        (),
        ContractError,
    >)
        requires
            old(self).wf(),
        ensures
            final(self).wf(),
            (final(self)@, r) == set_relay_signer_step(old(self)@, inv@, new_signer@),
    {
        self.events = Vec::new();
        proof {
            Self::lemma_clear_events(self.events);
        }
        AdminClient::require_admin(&self.storage, inv)?;
        let old_signer = self.storage.get_relay_signer()?;
        self.storage.set_relay_signer(&new_signer);
        EventEmitter::relay_signer_rotated(&mut self.events, inv.ledger, &old_signer, &new_signer);
        Ok(())
    }

    // ── Contract upgrade ─────────────────────────────────────────────────────

    /// Replace the contract code in place.  Only the current admin may call
    /// this.  Persistent and instance state (roles, flags, transactions)
    /// survive unchanged; temporary storage, the idempotency keys, is evicted.
    pub fn upgrade(&mut self, inv: &Invocation, new_wasm_hash: [u8; 32]) -> (r: Result<
        (),
        ContractError,
    >)
        requires
            old(self).wf(),
        ensures
            final(self).wf(),
            (final(self)@, r) == upgrade_step(old(self)@, inv@, new_wasm_hash@),
    {
        self.events = Vec::new();
        proof {
            Self::lemma_clear_events(self.events);
        }
        let admin = AdminClient::require_admin(&self.storage, inv)?;
        self.storage.clear_idempotency_keys();
        self.wasm_hash = Some(new_wasm_hash);
        EventEmitter::contract_upgraded(&mut self.events, inv.ledger, &admin, &new_wasm_hash);
        Ok(())
    }

    // ── Emergency pause ──────────────────────────────────────────────────────

    /// Engage the emergency circuit breaker.  Admin-gated and idempotent.
    ///
    /// While paused, `register_callback` rejects all new ingestion; status
    /// transitions and read-only queries keep working.
    pub fn pause(&mut self, inv: &Invocation) -> (r: Result<(), ContractError>)
        requires
            old(self).wf(),
        ensures
            final(self).wf(),
            (final(self)@, r) == set_pause_step(old(self)@, inv@, true),
    {
        self.set_pause(inv, true)
    }

    /// Release the emergency circuit breaker.  Admin-gated and idempotent.
    pub fn unpause(&mut self, inv: &Invocation) -> (r: Result<(), ContractError>)
        requires
            old(self).wf(),
        ensures
            final(self).wf(),
            (final(self)@, r) == set_pause_step(old(self)@, inv@, false),
    {
        self.set_pause(inv, false)
    }

    fn set_pause(&mut self, inv: &Invocation, paused: bool) -> (r: Result<(), ContractError>)
        requires
            old(self).wf(),
        ensures
            final(self).wf(),
            (final(self)@, r) == set_pause_step(old(self)@, inv@, paused),
    {
        self.events = Vec::new();
        proof {
            Self::lemma_clear_events(self.events);
        }
        let admin = AdminClient::require_admin(&self.storage, inv)?;
        self.storage.set_paused(paused);
        EventEmitter::pause_toggled(&mut self.events, inv.ledger, paused, &admin);
        Ok(())
    }

    /// Whether the emergency pause is engaged.
    pub fn is_paused(&self) -> (r: bool)
        ensures
            r == self@.storage.paused,
    {
        self.storage.is_paused()
    }

    /// Liveness probe: `true` once the contract is initialised.
    pub fn health(&self) -> (r: bool)
        ensures
            r == self@.storage.initialised,
    {
        self.storage.is_initialised()
    }

    /// The contract version string (semver).
    pub fn version(&self) -> (r: &'static str)
        ensures
            r@ == "0.1.0"@,
    {
        "0.1.0"
    }
}

} // verus!
