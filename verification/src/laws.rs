//! Properties of the registry that span several entry points or hold of every
//! state, proved over the step functions that the entry points implement.

use vstd::prelude::*;

use crate::contract::{
    complete_transaction_step, deployed, duplicate_query, same_registration, fail_transaction_step, initialize_step,
    is_terminal, register_callback_step, registered_transaction, rejected, set_pause_step,
    set_relay_signer_step, start_processing_step, transaction_query, transfer_admin_step,
    upgrade_step, valid_transition, ContractView,
};
use crate::storage::{
    live_idempotency_key, live_idempotency_transaction, LedgerState, IDEMPOTENCY_TTL_LEDGERS,
};
use crate::validation::{
    payload_error, within_cap, MAX_FAILURE_REASON_LEN, MAX_STELLAR_TX_HASH_LEN,
};
use crate::input_laws::law_length_caps;
use crate::types::{
    authorises, CallbackPayloadView, ContractError, InvocationView, TransactionStatus,
    TransactionView,
};
use crate::events::{event_name, EventView};

verus! {

// ─── Initialisation ──────────────────────────────────────────────────────────

/// `initialize` succeeds on a freshly deployed contract, which then reports
/// itself healthy, unpaused, and holds the given admin and relay signer.
pub proof fn law_initialize_fresh(inv: InvocationView, admin: Seq<u8>, relay: Seq<u8>)
    ensures
        ({
            let (s, r) = initialize_step(deployed(), inv, admin, relay);
            &&& r == Ok::<(), ContractError>(())
            &&& s.storage.initialised
            &&& !s.storage.paused
            &&& s.storage.admin == Some(admin)
            &&& s.storage.relay_signer == Some(relay)
        }),
{
}

/// A second `initialize` is rejected with `AlreadyInitialised` and changes
/// nothing.
pub proof fn law_initialize_only_once(
    s: ContractView,
    inv: InvocationView,
    admin: Seq<u8>,
    relay: Seq<u8>,
)
    requires
        s.storage.initialised,
    ensures
        initialize_step(s, inv, admin, relay) == rejected::<()>(s, ContractError::AlreadyInitialised),
{
}

/// Before `initialize` no admin or relay signer is stored, and every
/// state-changing entry point other than `initialize` fails.
pub proof fn law_uninitialised_rejects_changes(
    s: ContractView,
    inv: InvocationView,
    p: CallbackPayloadView,
    tx_id: Seq<u8>,
    text: Seq<u8>,
    who: Seq<u8>,
    paused: bool,
)
    requires
        s.storage.admin is None,
        s.storage.relay_signer is None,
    ensures
        register_callback_step(s, inv, p).1 is Err,
        start_processing_step(s, inv, tx_id, who).1 is Err,
        complete_transaction_step(s, inv, tx_id, text, who).1 is Err,
        fail_transaction_step(s, inv, tx_id, text, who).1 is Err,
        transfer_admin_step(s, inv, who).1 is Err,
        set_relay_signer_step(s, inv, who).1 is Err,
        upgrade_step(s, inv, text).1 is Err,
        set_pause_step(s, inv, paused).1 is Err,
{
}

// ─── Failed invocations ──────────────────────────────────────────────────────

/// A rejected invocation leaves the ledger and the installed code untouched
/// and publishes no event.
pub proof fn law_rejection_changes_nothing(
    s: ContractView,
    inv: InvocationView,
    p: CallbackPayloadView,
    tx_id: Seq<u8>,
    text: Seq<u8>,
    who: Seq<u8>,
    paused: bool,
)
    ensures
        initialize_step(s, inv, who, text).1 is Err ==> unchanged(s, initialize_step(s, inv, who, text).0),
        register_callback_step(s, inv, p).1 is Err ==> unchanged(s, register_callback_step(s, inv, p).0),
        start_processing_step(s, inv, tx_id, who).1 is Err ==> unchanged(
            s,
            start_processing_step(s, inv, tx_id, who).0,
        ),
        complete_transaction_step(s, inv, tx_id, text, who).1 is Err ==> unchanged(
            s,
            complete_transaction_step(s, inv, tx_id, text, who).0,
        ),
        fail_transaction_step(s, inv, tx_id, text, who).1 is Err ==> unchanged(
            s,
            fail_transaction_step(s, inv, tx_id, text, who).0,
        ),
        transfer_admin_step(s, inv, who).1 is Err ==> unchanged(s, transfer_admin_step(s, inv, who).0),
        set_relay_signer_step(s, inv, who).1 is Err ==> unchanged(
            s,
            set_relay_signer_step(s, inv, who).0,
        ),
        upgrade_step(s, inv, text).1 is Err ==> unchanged(s, upgrade_step(s, inv, text).0),
        set_pause_step(s, inv, paused).1 is Err ==> unchanged(s, set_pause_step(s, inv, paused).0),
{
}

/// `after` holds the same ledger state and code as `before`, and no events.
pub open spec fn unchanged(before: ContractView, after: ContractView) -> bool {
    &&& after.storage == before.storage
    &&& after.wasm_hash == before.wasm_hash
    &&& after.events.len() == 0
}

// ─── Access control ──────────────────────────────────────────────────────────

/// Every admin-gated entry point (`transfer_admin`, `set_relay_signer`,
/// `upgrade`, `pause`, `unpause`) fails with `Unauthorised` when the
/// invocation lacks the stored admin's authorisation.
pub proof fn law_admin_gated(
    s: ContractView,
    inv: InvocationView,
    who: Seq<u8>,
    hash: Seq<u8>,
    paused: bool,
)
    requires
        s.storage.admin is Some,
        !authorises(inv, s.storage.admin->0),
    ensures
        transfer_admin_step(s, inv, who).1 == Err::<(), ContractError>(ContractError::Unauthorised),
        set_relay_signer_step(s, inv, who).1 == Err::<(), ContractError>(
            ContractError::Unauthorised,
        ),
        upgrade_step(s, inv, hash).1 == Err::<(), ContractError>(ContractError::Unauthorised),
        set_pause_step(s, inv, paused).1 == Err::<(), ContractError>(ContractError::Unauthorised),
{
}

/// Only the stored relay signer's authorisation lets a callback in.
pub proof fn law_ingestion_needs_relay(s: ContractView, inv: InvocationView, p: CallbackPayloadView)
    requires
        !s.storage.paused,
        s.storage.relay_signer is Some,
        !authorises(inv, s.storage.relay_signer->0),
    ensures
        register_callback_step(s, inv, p) == rejected::<Seq<u8>>(s, ContractError::Unauthorised),
{
}

/// A status transition succeeds only for a caller that is the admin or the
/// relay signer and that authorised the invocation.
pub proof fn law_transitions_need_role(
    s: ContractView,
    inv: InvocationView,
    tx_id: Seq<u8>,
    text: Seq<u8>,
    caller: Seq<u8>,
)
    ensures
        start_processing_step(s, inv, tx_id, caller).1 is Ok ==> role_holder(s.storage, inv, caller),
        complete_transaction_step(s, inv, tx_id, text, caller).1 is Ok ==> role_holder(
            s.storage,
            inv,
            caller,
        ),
        fail_transaction_step(s, inv, tx_id, text, caller).1 is Ok ==> role_holder(
            s.storage,
            inv,
            caller,
        ),
{
}

/// `caller` holds the admin or the relay role and authorised the invocation.
pub open spec fn role_holder(s: LedgerState, inv: InvocationView, caller: Seq<u8>) -> bool {
    &&& authorises(inv, caller)
    &&& (s.admin == Some(caller) || s.relay_signer == Some(caller))
}

/// After the relay signer is rotated, the previous relay signer (when it is
/// neither the admin nor the new signer) can no longer drive transitions, and
/// ingestion needs the new signer's authorisation.
pub proof fn law_relay_rotation(
    s: ContractView,
    inv: InvocationView,
    new_signer: Seq<u8>,
    inv2: InvocationView,
    tx_id: Seq<u8>,
    text: Seq<u8>,
    p: CallbackPayloadView,
)
    requires
        set_relay_signer_step(s, inv, new_signer).1 is Ok,
        s.storage.relay_signer is Some,
        s.storage.relay_signer->0 != new_signer,
        s.storage.admin != s.storage.relay_signer,
    ensures
        ({
            let s1 = set_relay_signer_step(s, inv, new_signer).0;
            let old_relay = s.storage.relay_signer->0;
            &&& s1.storage.relay_signer == Some(new_signer)
            &&& start_processing_step(s1, inv2, tx_id, old_relay).1 == Err::<(), ContractError>(
                ContractError::Unauthorised,
            )
            &&& complete_transaction_step(s1, inv2, tx_id, text, old_relay).1 == Err::<
                (),
                ContractError,
            >(ContractError::Unauthorised)
            &&& fail_transaction_step(s1, inv2, tx_id, text, old_relay).1 == Err::<
                (),
                ContractError,
            >(ContractError::Unauthorised)
            &&& (!s1.storage.paused && !authorises(inv2, new_signer)) ==> register_callback_step(
                s1,
                inv2,
                p,
            ).1 == Err::<Seq<u8>, ContractError>(ContractError::Unauthorised)
        }),
{
    let s1 = set_relay_signer_step(s, inv, new_signer).0;
    assert(s1.storage.admin == s.storage.admin);
}

/// After the admin role is transferred, the new admin holds it, and an
/// invocation without the new admin's authorisation cannot use it.
pub proof fn law_admin_transfer(
    s: ContractView,
    inv: InvocationView,
    new_admin: Seq<u8>,
    inv2: InvocationView,
    who: Seq<u8>,
    hash: Seq<u8>,
    paused: bool,
)
    requires
        transfer_admin_step(s, inv, new_admin).1 is Ok,
        !authorises(inv2, new_admin),
    ensures
        ({
            let s1 = transfer_admin_step(s, inv, new_admin).0;
            &&& s1.storage.admin == Some(new_admin)
            &&& transfer_admin_step(s1, inv2, who).1 == Err::<(), ContractError>(
                ContractError::Unauthorised,
            )
            &&& set_relay_signer_step(s1, inv2, who).1 == Err::<(), ContractError>(
                ContractError::Unauthorised,
            )
            &&& upgrade_step(s1, inv2, hash).1 == Err::<(), ContractError>(
                ContractError::Unauthorised,
            )
            &&& set_pause_step(s1, inv2, paused).1 == Err::<(), ContractError>(
                ContractError::Unauthorised,
            )
        }),
{
}

// ─── Emergency pause ─────────────────────────────────────────────────────────

/// While paused, every callback is rejected with `ContractPaused` and the
/// state stays as it was.
pub proof fn law_pause_blocks_ingestion(s: ContractView, inv: InvocationView, p: CallbackPayloadView)
    requires
        s.storage.paused,
    ensures
        register_callback_step(s, inv, p) == rejected::<Seq<u8>>(s, ContractError::ContractPaused),
{
}

/// The same ledger state with the pause flag set to `paused`.
pub open spec fn with_pause(s: ContractView, paused: bool) -> ContractView {
    ContractView { storage: LedgerState { paused, ..s.storage }, ..s }
}

/// The pause flag gates ingestion only: reads, duplicate checks and status
/// transitions give the same answers, and transitions the same records,
/// whether or not the contract is paused.
pub proof fn law_pause_spares_reads_and_transitions(
    s: ContractView,
    paused: bool,
    inv: InvocationView,
    tx_id: Seq<u8>,
    text: Seq<u8>,
    key: Seq<u8>,
    caller: Seq<u8>,
)
    ensures
        transaction_query(with_pause(s, paused).storage, tx_id) == transaction_query(s.storage, tx_id),
        duplicate_query(with_pause(s, paused).storage, key, inv.ledger) == duplicate_query(
            s.storage,
            key,
            inv.ledger,
        ),
        start_processing_step(with_pause(s, paused), inv, tx_id, caller).1 == start_processing_step(
            s,
            inv,
            tx_id,
            caller,
        ).1,
        start_processing_step(with_pause(s, paused), inv, tx_id, caller).0.storage.transactions
            == start_processing_step(s, inv, tx_id, caller).0.storage.transactions,
        complete_transaction_step(with_pause(s, paused), inv, tx_id, text, caller).1
            == complete_transaction_step(s, inv, tx_id, text, caller).1,
        complete_transaction_step(with_pause(s, paused), inv, tx_id, text, caller).0.storage.transactions
            == complete_transaction_step(s, inv, tx_id, text, caller).0.storage.transactions,
        fail_transaction_step(with_pause(s, paused), inv, tx_id, text, caller).1
            == fail_transaction_step(s, inv, tx_id, text, caller).1,
        fail_transaction_step(with_pause(s, paused), inv, tx_id, text, caller).0.storage.transactions
            == fail_transaction_step(s, inv, tx_id, text, caller).0.storage.transactions,
{
}

/// Only `initialize`, `pause` and `unpause` change the pause flag: a
/// successful `initialize` leaves the contract unpaused, a successful `pause`
/// or `unpause` sets the flag it names, and every other call, or a failed one,
/// leaves the flag as it was.
pub proof fn law_only_pause_calls_change_the_flag(
    s: ContractView,
    inv: InvocationView,
    p: CallbackPayloadView,
    tx_id: Seq<u8>,
    text: Seq<u8>,
    who: Seq<u8>,
    paused: bool,
)
    ensures
        initialize_step(s, inv, who, text).0.storage.paused == (if initialize_step(
            s,
            inv,
            who,
            text,
        ).1 is Ok {
            false
        } else {
            s.storage.paused
        }),
        set_pause_step(s, inv, paused).0.storage.paused == (if set_pause_step(s, inv, paused).1 is Ok {
            paused
        } else {
            s.storage.paused
        }),
        register_callback_step(s, inv, p).0.storage.paused == s.storage.paused,
        start_processing_step(s, inv, tx_id, who).0.storage.paused == s.storage.paused,
        complete_transaction_step(s, inv, tx_id, text, who).0.storage.paused == s.storage.paused,
        fail_transaction_step(s, inv, tx_id, text, who).0.storage.paused == s.storage.paused,
        transfer_admin_step(s, inv, who).0.storage.paused == s.storage.paused,
        set_relay_signer_step(s, inv, who).0.storage.paused == s.storage.paused,
        upgrade_step(s, inv, text).0.storage.paused == s.storage.paused,
{
}

/// Pausing (or unpausing) twice leaves the same ledger state as doing it once.
pub proof fn law_pause_idempotent(s: ContractView, inv: InvocationView, paused: bool)
    requires
        set_pause_step(s, inv, paused).1 is Ok,
    ensures
        set_pause_step(set_pause_step(s, inv, paused).0, inv, paused).1 is Ok,
        set_pause_step(set_pause_step(s, inv, paused).0, inv, paused).0.storage == set_pause_step(
            s,
            inv,
            paused,
        ).0.storage,
{
}

/// Pausing then unpausing an unpaused contract restores its ledger state
/// exactly, so ingestion resumes as if the pause had never happened.
pub proof fn law_unpause_restores(s: ContractView, inv: InvocationView)
    requires
        !s.storage.paused,
        set_pause_step(s, inv, true).1 is Ok,
    ensures
        set_pause_step(set_pause_step(s, inv, true).0, inv, false).1 is Ok,
        set_pause_step(set_pause_step(s, inv, true).0, inv, false).0.storage == s.storage,
{
    let s2 = set_pause_step(set_pause_step(s, inv, true).0, inv, false).0;
    assert(s2.storage =~= s.storage);
}

/// An upgrade keeps the roles, the flags and every transaction record, and
/// evicts the idempotency keys: after it no key counts as a duplicate.
pub proof fn law_upgrade_keeps_persistent_state(
    s: ContractView,
    inv: InvocationView,
    hash: Seq<u8>,
    key: Seq<u8>,
    ledger: u32,
)
    ensures
        upgrade_step(s, inv, hash).1 is Ok ==> upgrade_step(s, inv, hash).0.storage == (LedgerState {
            idempotency_keys: Map::empty(),
            ..s.storage
        }),
        upgrade_step(s, inv, hash).1 is Ok ==> !duplicate_query(
            upgrade_step(s, inv, hash).0.storage,
            key,
            ledger,
        ),
        upgrade_step(s, inv, hash).0.storage.transactions == s.storage.transactions,
{
}

// ─── Idempotency ─────────────────────────────────────────────────────────────

/// Replaying an accepted idempotency key, with any valid payload, returns the
/// id of the transaction first registered under that key, writes nothing and
/// publishes nothing.  This holds in the same ledger, and, after a first
/// registration, at every ledger of the key's window.
pub proof fn law_replay_is_idempotent(
    s: ContractView,
    inv: InvocationView,
    p: CallbackPayloadView,
    inv2: InvocationView,
    p2: CallbackPayloadView,
)
    requires
        register_callback_step(s, inv, p).1 is Ok,
        p2.idempotency_key == p.idempotency_key,
        payload_error(p2) is None,
        authorises(inv2, s.storage.relay_signer->0),
        inv2.ledger == inv.ledger || (live_idempotency_key(s.storage, p.idempotency_key, inv.ledger) is None
            && inv.ledger <= inv2.ledger <= inv.ledger + IDEMPOTENCY_TTL_LEDGERS),
    ensures
        ({
            let (s1, r1) = register_callback_step(s, inv, p);
            let (s2, r2) = register_callback_step(s1, inv2, p2);
            &&& r2 == r1
            &&& s2.storage == s1.storage
            &&& s2.wasm_hash == s1.wasm_hash
            &&& s2.events.len() == 0
        }),
{
    let (s1, r1) = register_callback_step(s, inv, p);
    assert(s1.storage.relay_signer == s.storage.relay_signer);
    assert(s1.storage.paused == s.storage.paused);
    assert(live_idempotency_transaction(s1.storage, p.idempotency_key, inv2.ledger) is Some);
}

/// After a callback is stored at ledger `l`, its idempotency key counts as a
/// duplicate exactly up to ledger `l + IDEMPOTENCY_TTL_LEDGERS`.
pub proof fn law_idempotency_window(
    s: ContractView,
    inv: InvocationView,
    p: CallbackPayloadView,
    later: u32,
)
    requires
        register_callback_step(s, inv, p).1 is Ok,
        live_idempotency_key(s.storage, p.idempotency_key, inv.ledger) is None,
    ensures
        duplicate_query(register_callback_step(s, inv, p).0.storage, p.idempotency_key, later) == (
        later <= inv.ledger + IDEMPOTENCY_TTL_LEDGERS),
{
}

// ─── Transaction lifecycle ───────────────────────────────────────────────────

/// A first registration (of a transaction id with no record yet) stores a
/// `Pending` record built from the payload,
/// created and updated at the invocation's ledger, with no settlement hash
/// and no failure reason.
pub proof fn law_registration_stores_pending(s: ContractView, inv: InvocationView, p: CallbackPayloadView)
    requires
        register_callback_step(s, inv, p).1 is Ok,
        live_idempotency_key(s.storage, p.idempotency_key, inv.ledger) is None,
        !s.storage.transactions.contains_key(p.transaction_id),
    ensures
        ({
            let s1 = register_callback_step(s, inv, p).0;
            &&& register_callback_step(s, inv, p).1 == Ok::<Seq<u8>, ContractError>(p.transaction_id)
            &&& transaction_query(s1.storage, p.transaction_id) == Ok::<
                crate::types::TransactionView,
                ContractError,
            >(registered_transaction(p, inv.ledger))
            &&& registered_transaction(p, inv.ledger).status == TransactionStatus::Pending
        }),
{
}

/// Records only move along the lifecycle edges: no stored transaction
/// disappears, and each one keeps its status or takes one valid step.
pub open spec fn lifecycle_respected(before: LedgerState, after: LedgerState) -> bool {
    forall|id: Seq<u8>| #[trigger]
        before.transactions.contains_key(id) ==> after.transactions.contains_key(id) && (
        after.transactions[id].status == before.transactions[id].status || valid_transition(
            before.transactions[id].status,
            after.transactions[id].status,
        ))
}

/// Every entry point respects the lifecycle.
pub proof fn law_lifecycle_respected(
    s: ContractView,
    inv: InvocationView,
    p: CallbackPayloadView,
    tx_id: Seq<u8>,
    text: Seq<u8>,
    who: Seq<u8>,
    paused: bool,
)
    ensures
        lifecycle_respected(s.storage, initialize_step(s, inv, who, text).0.storage),
        lifecycle_respected(s.storage, register_callback_step(s, inv, p).0.storage),
        lifecycle_respected(s.storage, start_processing_step(s, inv, tx_id, who).0.storage),
        lifecycle_respected(s.storage, complete_transaction_step(s, inv, tx_id, text, who).0.storage),
        lifecycle_respected(s.storage, fail_transaction_step(s, inv, tx_id, text, who).0.storage),
        lifecycle_respected(s.storage, transfer_admin_step(s, inv, who).0.storage),
        lifecycle_respected(s.storage, set_relay_signer_step(s, inv, who).0.storage),
        lifecycle_respected(s.storage, upgrade_step(s, inv, text).0.storage),
        lifecycle_respected(s.storage, set_pause_step(s, inv, paused).0.storage),
{
}

/// Every `Completed` or `Failed` record of `before` is still in `after`,
/// unchanged in every field.
pub open spec fn terminal_records_kept(before: LedgerState, after: LedgerState) -> bool {
    forall|id: Seq<u8>| #[trigger]
        before.transactions.contains_key(id) && is_terminal(before.transactions[id].status)
            ==> after.transactions.contains_key(id) && after.transactions[id]
            == before.transactions[id]
}

/// No entry point changes a `Completed` or `Failed` record: not a status
/// transition, and not a registration that reuses its transaction id.
pub proof fn law_terminal_records_unchanged(
    s: ContractView,
    inv: InvocationView,
    p: CallbackPayloadView,
    tx_id: Seq<u8>,
    text: Seq<u8>,
    who: Seq<u8>,
    paused: bool,
)
    ensures
        terminal_records_kept(s.storage, initialize_step(s, inv, who, text).0.storage),
        terminal_records_kept(s.storage, register_callback_step(s, inv, p).0.storage),
        terminal_records_kept(s.storage, start_processing_step(s, inv, tx_id, who).0.storage),
        terminal_records_kept(s.storage, complete_transaction_step(s, inv, tx_id, text, who).0.storage),
        terminal_records_kept(s.storage, fail_transaction_step(s, inv, tx_id, text, who).0.storage),
        terminal_records_kept(s.storage, transfer_admin_step(s, inv, who).0.storage),
        terminal_records_kept(s.storage, set_relay_signer_step(s, inv, who).0.storage),
        terminal_records_kept(s.storage, upgrade_step(s, inv, text).0.storage),
        terminal_records_kept(s.storage, set_pause_step(s, inv, paused).0.storage),
{
}

/// Registration never changes a stored record: every record of the state
/// before is in the state after, unchanged in every field.
pub proof fn law_registration_never_overwrites(s: ContractView, inv: InvocationView, p: CallbackPayloadView)
    ensures
        forall|id: Seq<u8>| #[trigger]
            s.storage.transactions.contains_key(id) ==> register_callback_step(
                s,
                inv,
                p,
            ).0.storage.transactions.contains_key(id) && register_callback_step(
                s,
                inv,
                p,
            ).0.storage.transactions[id] == s.storage.transactions[id],
{
}

/// Once the earlier checks pass and the idempotency key is not live, reusing
/// a transaction id that already has a record fails with `DuplicateRequest`,
/// whatever the key, unless the callback is a redelivery of the one that
/// created a record still `Pending`.
pub proof fn law_registration_refuses_reused_ids(s: ContractView, inv: InvocationView, p: CallbackPayloadView)
    requires
        !s.storage.paused,
        s.storage.relay_signer is Some,
        authorises(inv, s.storage.relay_signer->0),
        payload_error(p) is None,
        live_idempotency_key(s.storage, p.idempotency_key, inv.ledger) is None,
        s.storage.transactions.contains_key(p.transaction_id),
        !same_registration(s.storage.transactions[p.transaction_id], p),
    ensures
        register_callback_step(s, inv, p) == rejected::<Seq<u8>>(s, ContractError::DuplicateRequest),
{
}

/// A redelivery of the callback that created a record still `Pending`, under
/// a key that is not live, returns the transaction id, leaves the record as
/// it was, records the new key and announces the registration again.
pub proof fn law_redelivery_keeps_the_record(s: ContractView, inv: InvocationView, p: CallbackPayloadView)
    requires
        register_callback_step(s, inv, p).1 is Ok,
        live_idempotency_key(s.storage, p.idempotency_key, inv.ledger) is None,
        s.storage.transactions.contains_key(p.transaction_id),
    ensures
        ({
            let s1 = register_callback_step(s, inv, p).0;
            &&& register_callback_step(s, inv, p).1 == Ok::<Seq<u8>, ContractError>(p.transaction_id)
            &&& s1.storage.transactions == s.storage.transactions
            &&& duplicate_query(s1.storage, p.idempotency_key, inv.ledger)
            &&& event_names(s1.events) == seq!["reg"]
        }),
{
    let s1 = register_callback_step(s, inv, p).0;
    assert(event_names(s1.events) =~= seq!["reg"]);
}

/// `Completed` and `Failed` are terminal: every transition out of them is
/// rejected with `InvalidStatusTransition` once the caller passes the role
/// and input checks.
pub proof fn law_terminal_states_are_final(
    s: ContractView,
    inv: InvocationView,
    tx_id: Seq<u8>,
    text: Seq<u8>,
    caller: Seq<u8>,
)
    requires
        s.storage.transactions.contains_key(tx_id),
        is_terminal(s.storage.transactions[tx_id].status),
    ensures
        start_processing_step(s, inv, tx_id, caller).1 is Err,
        complete_transaction_step(s, inv, tx_id, text, caller).1 is Err,
        fail_transaction_step(s, inv, tx_id, text, caller).1 is Err,
        s.storage.admin is Some && s.storage.relay_signer is Some && role_holder(s.storage, inv, caller)
            ==> start_processing_step(s, inv, tx_id, caller).1
            == Err::<(), ContractError>(ContractError::InvalidStatusTransition),
        s.storage.admin is Some && s.storage.relay_signer is Some && role_holder(s.storage, inv, caller)
            && within_cap(text, MAX_STELLAR_TX_HASH_LEN) ==> complete_transaction_step(
            s,
            inv,
            tx_id,
            text,
            caller,
        ).1 == Err::<(), ContractError>(ContractError::InvalidStatusTransition),
        s.storage.admin is Some && s.storage.relay_signer is Some && role_holder(s.storage, inv, caller)
            && within_cap(text, MAX_FAILURE_REASON_LEN) ==> fail_transaction_step(
            s,
            inv,
            tx_id,
            text,
            caller,
        ).1 == Err::<(), ContractError>(ContractError::InvalidStatusTransition),
{
}

/// A settlement hash is recorded only on `Completed` records and a failure
/// reason only on `Failed` ones.
pub open spec fn outcome_fields_consistent(s: LedgerState) -> bool {
    forall|id: Seq<u8>| #[trigger]
        s.transactions.contains_key(id) ==> (s.transactions[id].status
            != TransactionStatus::Completed ==> s.transactions[id].stellar_tx_hash.len() == 0) && (
        s.transactions[id].status != TransactionStatus::Failed
            ==> s.transactions[id].failure_reason.len() == 0)
}

/// Every entry point keeps `outcome_fields_consistent`.
pub proof fn law_outcome_fields_consistent(
    s: ContractView,
    inv: InvocationView,
    p: CallbackPayloadView,
    tx_id: Seq<u8>,
    text: Seq<u8>,
    who: Seq<u8>,
    paused: bool,
)
    requires
        outcome_fields_consistent(s.storage),
    ensures
        outcome_fields_consistent(initialize_step(s, inv, who, text).0.storage),
        outcome_fields_consistent(register_callback_step(s, inv, p).0.storage),
        outcome_fields_consistent(start_processing_step(s, inv, tx_id, who).0.storage),
        outcome_fields_consistent(complete_transaction_step(s, inv, tx_id, text, who).0.storage),
        outcome_fields_consistent(fail_transaction_step(s, inv, tx_id, text, who).0.storage),
        outcome_fields_consistent(transfer_admin_step(s, inv, who).0.storage),
        outcome_fields_consistent(set_relay_signer_step(s, inv, who).0.storage),
        outcome_fields_consistent(upgrade_step(s, inv, text).0.storage),
        outcome_fields_consistent(set_pause_step(s, inv, paused).0.storage),
{
}

/// A successful transition stamps the record with the invocation's ledger and
/// keeps its creation ledger, so `updated_at_ledger >= created_at_ledger`
/// whenever the ledger has not gone backwards.
pub proof fn law_transition_stamps_ledger(
    s: ContractView,
    inv: InvocationView,
    tx_id: Seq<u8>,
    text: Seq<u8>,
    caller: Seq<u8>,
)
    requires
        s.storage.transactions.contains_key(tx_id),
        inv.ledger >= s.storage.transactions[tx_id].created_at_ledger,
    ensures
        start_processing_step(s, inv, tx_id, caller).1 is Ok ==> stamped(
            s,
            start_processing_step(s, inv, tx_id, caller).0,
            tx_id,
            inv.ledger,
        ),
        complete_transaction_step(s, inv, tx_id, text, caller).1 is Ok ==> stamped(
            s,
            complete_transaction_step(s, inv, tx_id, text, caller).0,
            tx_id,
            inv.ledger,
        ),
        fail_transaction_step(s, inv, tx_id, text, caller).1 is Ok ==> stamped(
            s,
            fail_transaction_step(s, inv, tx_id, text, caller).0,
            tx_id,
            inv.ledger,
        ),
{
}

/// The record under `tx_id` in `after` was updated at `ledger`, keeps its
/// creation ledger from `before`, and was updated no earlier than created.
pub open spec fn stamped(before: ContractView, after: ContractView, tx_id: Seq<u8>, ledger: u32) -> bool {
    &&& after.storage.transactions.contains_key(tx_id)
    &&& after.storage.transactions[tx_id].updated_at_ledger == ledger
    &&& after.storage.transactions[tx_id].created_at_ledger
        == before.storage.transactions[tx_id].created_at_ledger
    &&& after.storage.transactions[tx_id].updated_at_ledger
        >= after.storage.transactions[tx_id].created_at_ledger
}

// ─── Events ───────────────────────────────────────────────────────────────────

/// The event names a list of events carries, in order.
pub open spec fn event_names(events: Seq<EventView>) -> Seq<&'static str> {
    events.map_values(|e: EventView| event_name(e))
}

/// The events each successful entry point publishes, in order: `init`; `reg`
/// on a first registration and nothing on a replay; `status` for
/// `start_processing`; `status` then `done` for `complete_transaction`;
/// `status` then `fail` for `fail_transaction`; `admin`; `relay`; `upgrade`;
/// `pause` for both `pause` and `unpause`.
pub proof fn law_event_order(
    s: ContractView,
    inv: InvocationView,
    p: CallbackPayloadView,
    tx_id: Seq<u8>,
    text: Seq<u8>,
    who: Seq<u8>,
    paused: bool,
)
    ensures
        initialize_step(s, inv, who, text).1 is Ok ==> event_names(
            initialize_step(s, inv, who, text).0.events,
        ) == seq!["init"],
        register_callback_step(s, inv, p).1 is Ok ==> event_names(
            register_callback_step(s, inv, p).0.events,
        ) == (if live_idempotency_key(s.storage, p.idempotency_key, inv.ledger) is Some {
            Seq::<&'static str>::empty()
        } else {
            seq!["reg"]
        }),
        start_processing_step(s, inv, tx_id, who).1 is Ok ==> event_names(
            start_processing_step(s, inv, tx_id, who).0.events,
        ) == seq!["status"],
        complete_transaction_step(s, inv, tx_id, text, who).1 is Ok ==> event_names(
            complete_transaction_step(s, inv, tx_id, text, who).0.events,
        ) == seq!["status", "done"],
        fail_transaction_step(s, inv, tx_id, text, who).1 is Ok ==> event_names(
            fail_transaction_step(s, inv, tx_id, text, who).0.events,
        ) == seq!["status", "fail"],
        transfer_admin_step(s, inv, who).1 is Ok ==> event_names(
            transfer_admin_step(s, inv, who).0.events,
        ) == seq!["admin"],
        set_relay_signer_step(s, inv, who).1 is Ok ==> event_names(
            set_relay_signer_step(s, inv, who).0.events,
        ) == seq!["relay"],
        upgrade_step(s, inv, text).1 is Ok ==> event_names(upgrade_step(s, inv, text).0.events)
            == seq!["upgrade"],
        set_pause_step(s, inv, paused).1 is Ok ==> event_names(
            set_pause_step(s, inv, paused).0.events,
        ) == seq!["pause"],
{
    let (s1, r1) = register_callback_step(s, inv, p);
    assert(event_names(initialize_step(s, inv, who, text).0.events) =~= seq!["init"] || initialize_step(s, inv, who, text).1 is Err);
    assert(event_names(s1.events) =~= seq!["reg"] || event_names(s1.events)
        =~= Seq::<&'static str>::empty() || r1 is Err);
    assert(event_names(start_processing_step(s, inv, tx_id, who).0.events) =~= seq!["status"]
        || start_processing_step(s, inv, tx_id, who).1 is Err);
    assert(event_names(complete_transaction_step(s, inv, tx_id, text, who).0.events) =~= seq![
        "status",
        "done",
    ] || complete_transaction_step(s, inv, tx_id, text, who).1 is Err);
    assert(event_names(fail_transaction_step(s, inv, tx_id, text, who).0.events) =~= seq![
        "status",
        "fail",
    ] || fail_transaction_step(s, inv, tx_id, text, who).1 is Err);
    assert(event_names(transfer_admin_step(s, inv, who).0.events) =~= seq!["admin"]
        || transfer_admin_step(s, inv, who).1 is Err);
    assert(event_names(set_relay_signer_step(s, inv, who).0.events) =~= seq!["relay"]
        || set_relay_signer_step(s, inv, who).1 is Err);
    assert(event_names(upgrade_step(s, inv, text).0.events) =~= seq!["upgrade"] || upgrade_step(
        s,
        inv,
        text,
    ).1 is Err);
    assert(event_names(set_pause_step(s, inv, paused).0.events) =~= seq!["pause"] || set_pause_step(
        s,
        inv,
        paused,
    ).1 is Err);
}

// ─── What each entry point records ───────────────────────────────────────────

/// `after` is the record `before` with its identity and callback fields kept:
/// id, account, amount, asset code and issuer, creation ledger, anchor
/// transaction id, callback type and callback status.
pub open spec fn keeps_callback_fields(before: TransactionView, after: TransactionView) -> bool {
    &&& after.id == before.id
    &&& after.stellar_account == before.stellar_account
    &&& after.amount == before.amount
    &&& after.asset_code == before.asset_code
    &&& after.asset_issuer == before.asset_issuer
    &&& after.created_at_ledger == before.created_at_ledger
    &&& after.anchor_transaction_id == before.anchor_transaction_id
    &&& after.callback_type == before.callback_type
    &&& after.callback_status == before.callback_status
}

/// Every record of `before` other than the one under `tx_id` is in `after`,
/// unchanged, and `after` holds no record `before` lacks but `tx_id`.
pub open spec fn others_untouched(before: LedgerState, after: LedgerState, tx_id: Seq<u8>) -> bool {
    &&& after.transactions.dom() == before.transactions.dom().insert(tx_id)
    &&& forall|id: Seq<u8>| #[trigger]
        before.transactions.contains_key(id) && id != tx_id ==> after.transactions[id]
            == before.transactions[id]
}

/// A first registration of a transaction id (no record under it, key not
/// live) succeeds once the pause, relay and payload checks pass, returns the
/// id, and stores a record whose fields are the payload's, field by field:
/// `Pending`, created and updated at the invocation's ledger, with no
/// settlement hash and no failure reason.  It records the idempotency key
/// for that id, touches no other record, and publishes one `reg` event
/// carrying the payload's fields.
pub proof fn law_first_registration_records_the_payload(
    s: ContractView,
    inv: InvocationView,
    p: CallbackPayloadView,
)
    requires
        live_idempotency_key(s.storage, p.idempotency_key, inv.ledger) is None,
        !s.storage.transactions.contains_key(p.transaction_id),
    ensures
        (!s.storage.paused && s.storage.relay_signer is Some && authorises(
            inv,
            s.storage.relay_signer->0,
        ) && payload_error(p) is None) ==> register_callback_step(s, inv, p).1 == Ok::<
            Seq<u8>,
            ContractError,
        >(p.transaction_id),
        register_callback_step(s, inv, p).1 is Ok ==> ({
            let s1 = register_callback_step(s, inv, p).0.storage;
            let t = s1.transactions[p.transaction_id];
            &&& register_callback_step(s, inv, p).1 == Ok::<Seq<u8>, ContractError>(p.transaction_id)
            &&& s1.transactions.contains_key(p.transaction_id)
            &&& t.id == p.transaction_id
            &&& t.stellar_account == p.stellar_account
            &&& t.amount == p.amount
            &&& t.asset_code == p.asset_code
            &&& t.asset_issuer == p.asset_issuer
            &&& t.anchor_transaction_id == p.anchor_transaction_id
            &&& t.callback_type == p.callback_type
            &&& t.callback_status == p.callback_status
            &&& t.status == TransactionStatus::Pending
            &&& t.created_at_ledger == inv.ledger
            &&& t.updated_at_ledger == inv.ledger
            &&& t.stellar_tx_hash.len() == 0
            &&& t.failure_reason.len() == 0
            &&& others_untouched(s.storage, s1, p.transaction_id)
            &&& live_idempotency_transaction(s1, p.idempotency_key, inv.ledger) == Some(p.transaction_id)
            &&& register_callback_step(s, inv, p).0.events == seq![
                EventView::TransactionRegistered {
                    tx_id: p.transaction_id,
                    stellar_account: p.stellar_account,
                    amount: p.amount,
                    asset_code: p.asset_code,
                    anchor_transaction_id: p.anchor_transaction_id,
                    ledger: inv.ledger,
                },
            ]
        }),
{
    let s1 = register_callback_step(s, inv, p).0.storage;
    if register_callback_step(s, inv, p).1 is Ok {
        assert(s1.transactions.dom() =~= s.storage.transactions.dom().insert(p.transaction_id));
    }
}

/// `start_processing` succeeds for a role holder on a `Pending` record, and a
/// successful one moves a `Pending` record to `Processing`, stamps it with
/// the invocation's ledger, keeps every other field, touches no other record
/// and publishes one `status` event `Pending -> Processing`.
pub proof fn law_start_processing_records_the_move(
    s: ContractView,
    inv: InvocationView,
    tx_id: Seq<u8>,
    caller: Seq<u8>,
)
    ensures
        s.storage.admin is Some && s.storage.relay_signer is Some && role_holder(s.storage, inv, caller)
            && s.storage.transactions.contains_key(tx_id) && s.storage.transactions[tx_id].status
            == TransactionStatus::Pending ==> start_processing_step(s, inv, tx_id, caller).1 is Ok,
        start_processing_step(s, inv, tx_id, caller).1 is Ok ==> ({
            let s1 = start_processing_step(s, inv, tx_id, caller).0.storage;
            let old_tx = s.storage.transactions[tx_id];
            let t = s1.transactions[tx_id];
            &&& role_holder(s.storage, inv, caller)
            &&& s.storage.transactions.contains_key(tx_id)
            &&& old_tx.status == TransactionStatus::Pending
            &&& t.status == TransactionStatus::Processing
            &&& t.updated_at_ledger == inv.ledger
            &&& keeps_callback_fields(old_tx, t)
            &&& t.stellar_tx_hash == old_tx.stellar_tx_hash
            &&& t.failure_reason == old_tx.failure_reason
            &&& others_untouched(s.storage, s1, tx_id)
            &&& start_processing_step(s, inv, tx_id, caller).0.events == seq![
                EventView::StatusChanged {
                    tx_id,
                    old_status: TransactionStatus::Pending,
                    new_status: TransactionStatus::Processing,
                    ledger: inv.ledger,
                },
            ]
        }),
{
    let s1 = start_processing_step(s, inv, tx_id, caller).0.storage;
    if start_processing_step(s, inv, tx_id, caller).1 is Ok {
        assert(s1.transactions.dom() =~= s.storage.transactions.dom().insert(tx_id));
    }
}

/// `complete_transaction` succeeds for a role holder on a `Processing`
/// record with a settlement hash of at most 72 bytes, and a successful one
/// records exactly that hash on the record, now `Completed` and stamped with
/// the invocation's ledger, keeps every other field, touches no other record
/// and publishes `status` (`Processing -> Completed`) then `done` carrying
/// the hash.
pub proof fn law_completion_records_the_hash(
    s: ContractView,
    inv: InvocationView,
    tx_id: Seq<u8>,
    hash: Seq<u8>,
    caller: Seq<u8>,
)
    ensures
        s.storage.admin is Some && s.storage.relay_signer is Some && role_holder(s.storage, inv, caller)
            && hash.len() <= 72 && s.storage.transactions.contains_key(tx_id)
            && s.storage.transactions[tx_id].status == TransactionStatus::Processing
            ==> complete_transaction_step(s, inv, tx_id, hash, caller).1 is Ok,
        complete_transaction_step(s, inv, tx_id, hash, caller).1 is Ok ==> ({
            let s1 = complete_transaction_step(s, inv, tx_id, hash, caller).0.storage;
            let old_tx = s.storage.transactions[tx_id];
            let t = s1.transactions[tx_id];
            &&& role_holder(s.storage, inv, caller)
            &&& hash.len() <= 72
            &&& s.storage.transactions.contains_key(tx_id)
            &&& old_tx.status == TransactionStatus::Processing
            &&& t.status == TransactionStatus::Completed
            &&& t.stellar_tx_hash == hash
            &&& t.updated_at_ledger == inv.ledger
            &&& keeps_callback_fields(old_tx, t)
            &&& t.failure_reason == old_tx.failure_reason
            &&& others_untouched(s.storage, s1, tx_id)
            &&& complete_transaction_step(s, inv, tx_id, hash, caller).0.events == seq![
                EventView::StatusChanged {
                    tx_id,
                    old_status: TransactionStatus::Processing,
                    new_status: TransactionStatus::Completed,
                    ledger: inv.ledger,
                },
                EventView::TransactionCompleted { tx_id, stellar_tx_hash: hash, ledger: inv.ledger },
            ]
        }),
{
    law_length_caps(hash);
    let s1 = complete_transaction_step(s, inv, tx_id, hash, caller).0.storage;
    if complete_transaction_step(s, inv, tx_id, hash, caller).1 is Ok {
        assert(s1.transactions.dom() =~= s.storage.transactions.dom().insert(tx_id));
    }
}

/// `fail_transaction` succeeds for a role holder on a `Pending` or
/// `Processing` record with a reason of at most 64 bytes, and a successful
/// one, from either status, records exactly that reason on the record, now
/// `Failed` and stamped with the invocation's ledger, keeps every other
/// field, touches no other record and publishes `status` (old status ->
/// `Failed`) then `fail` carrying the reason.
pub proof fn law_failure_records_the_reason(
    s: ContractView,
    inv: InvocationView,
    tx_id: Seq<u8>,
    reason: Seq<u8>,
    caller: Seq<u8>,
)
    ensures
        s.storage.admin is Some && s.storage.relay_signer is Some && role_holder(s.storage, inv, caller)
            && reason.len() <= 64 && s.storage.transactions.contains_key(tx_id) && (
        s.storage.transactions[tx_id].status == TransactionStatus::Pending
            || s.storage.transactions[tx_id].status == TransactionStatus::Processing)
            ==> fail_transaction_step(s, inv, tx_id, reason, caller).1 is Ok,
        fail_transaction_step(s, inv, tx_id, reason, caller).1 is Ok ==> ({
            let s1 = fail_transaction_step(s, inv, tx_id, reason, caller).0.storage;
            let old_tx = s.storage.transactions[tx_id];
            let t = s1.transactions[tx_id];
            &&& role_holder(s.storage, inv, caller)
            &&& reason.len() <= 64
            &&& s.storage.transactions.contains_key(tx_id)
            &&& (old_tx.status == TransactionStatus::Pending || old_tx.status
                == TransactionStatus::Processing)
            &&& t.status == TransactionStatus::Failed
            &&& t.failure_reason == reason
            &&& t.updated_at_ledger == inv.ledger
            &&& keeps_callback_fields(old_tx, t)
            &&& t.stellar_tx_hash == old_tx.stellar_tx_hash
            &&& others_untouched(s.storage, s1, tx_id)
            &&& fail_transaction_step(s, inv, tx_id, reason, caller).0.events == seq![
                EventView::StatusChanged {
                    tx_id,
                    old_status: old_tx.status,
                    new_status: TransactionStatus::Failed,
                    ledger: inv.ledger,
                },
                EventView::TransactionFailed { tx_id, reason, ledger: inv.ledger },
            ]
        }),
{
    law_length_caps(reason);
    let s1 = fail_transaction_step(s, inv, tx_id, reason, caller).0.storage;
    if fail_transaction_step(s, inv, tx_id, reason, caller).1 is Ok {
        assert(s1.transactions.dom() =~= s.storage.transactions.dom().insert(tx_id));
    }
}

} // verus!
