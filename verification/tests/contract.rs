use synapse_core_contract::contract::SynapseCoreContract;
use synapse_core_contract::events::ContractEvent;
use synapse_core_contract::storage::IDEMPOTENCY_TTL_LEDGERS;
use synapse_core_contract::types::{
    Address, CallbackPayload, CallbackType, ContractError, Invocation, TransactionStatus,
};

// ─── Helpers ──────────────────────────────────────────────────────────────────

fn addr(name: &str) -> Address {
    Address::new(name.as_bytes().to_vec())
}

/// Every address's authorisation, at ledger `ledger`.
fn all_auth(ledger: u32) -> Invocation {
    Invocation::authorised_by_all(ledger)
}

/// Only `who`'s authorisation, at ledger 0.
fn signed(who: &Address) -> Invocation {
    Invocation::signed_by(0, vec![who.duplicate()])
}

fn nobody() -> Invocation {
    Invocation::signed_by(0, Vec::new())
}

/// A contract initialised with every authorisation granted.
fn setup() -> (SynapseCoreContract, Address, Address) {
    let mut c = SynapseCoreContract::new();
    let admin = addr("admin-address");
    let relay = addr("relay-address");
    c.initialize(&all_auth(0), admin.duplicate(), relay.duplicate()).unwrap();
    (c, admin, relay)
}

/// A contract initialised with no authorisation mocked.
fn setup_strict() -> (SynapseCoreContract, Address, Address) {
    let mut c = SynapseCoreContract::new();
    let admin = addr("admin-address");
    let relay = addr("relay-address");
    c.initialize(&nobody(), admin.duplicate(), relay.duplicate()).unwrap();
    (c, admin, relay)
}

fn g_address() -> Vec<u8> {
    b"GA7QYNF7SOWQ3GLR2BGMZEHXAVIRZA4KVWLTJJFC7MGXUA74P7UJVSGZ".to_vec()
}

fn payload_with(tx_id: &str, idem_key: &str) -> CallbackPayload {
    CallbackPayload {
        transaction_id: tx_id.as_bytes().to_vec(),
        stellar_account: g_address(),
        amount: 1_000,
        asset_code: b"USDC".to_vec(),
        asset_issuer: g_address(),
        idempotency_key: idem_key.as_bytes().to_vec(),
        anchor_transaction_id: b"anchor-1".to_vec(),
        callback_type: CallbackType::Deposit,
        callback_status: b"pending_external".to_vec(),
    }
}

fn default_payload() -> CallbackPayload {
    payload_with("tx-1", "idem-1")
}

fn assert_topic(e: &ContractEvent, name: &str) {
    assert_eq!(e.topics(), ("synapse", name));
}

// ─── initialize() ─────────────────────────────────────────────────────────────

#[test]
fn test_initialize_happy_path() {
    let mut c = SynapseCoreContract::new();
    let admin = addr("admin-address");
    let relay = addr("relay-address");
    assert!(!c.health());
    c.initialize(&nobody(), admin, relay).unwrap();
    assert!(c.health());
}

#[test]
fn test_initialize_rejects_double_init() {
    let (mut c, admin, relay) = setup();
    let result = c.initialize(&all_auth(0), admin, relay);
    assert_eq!(result, Err(ContractError::AlreadyInitialised));
}

// ─── register_callback() ──────────────────────────────────────────────────────

#[test]
fn test_register_callback_creates_pending_transaction() {
    let (mut c, _admin, _relay) = setup();
    let payload = default_payload();
    let tx_id = c.register_callback(&all_auth(0), &payload).unwrap();

    let tx = c.get_transaction(&tx_id).unwrap();
    assert_eq!(tx.status, TransactionStatus::Pending);
    assert_eq!(tx.id, tx_id);
    assert_eq!(tx.amount, 1_000);
    assert_eq!(tx.stellar_tx_hash, b"".to_vec());
}

#[test]
fn test_register_callback_idempotency_returns_same_id() {
    let (mut c, _admin, _relay) = setup();
    let payload = default_payload();
    let first = c.register_callback(&all_auth(0), &payload).unwrap();
    let second = c.register_callback(&all_auth(0), &payload).unwrap();
    assert_eq!(first, second);
}

#[test]
fn test_register_callback_rejects_before_initialise() {
    let mut c = SynapseCoreContract::new();
    let payload = default_payload();
    let result = c.register_callback(&all_auth(0), &payload);
    assert_eq!(result, Err(ContractError::NotInitialised));
}

#[test]
fn test_register_callback_rejects_non_relay_caller() {
    let (mut c, _admin, _relay) = setup_strict();
    let attacker = addr("attacker-address");
    let payload = default_payload();
    let result = c.register_callback(&signed(&attacker), &payload);
    assert!(result.is_err());
}

#[test]
fn test_register_callback_rejects_invalid_account() {
    let (mut c, _admin, _relay) = setup();
    let mut payload = default_payload();
    payload.stellar_account = b"GSHORT".to_vec();
    let result = c.register_callback(&all_auth(0), &payload);
    assert_eq!(result, Err(ContractError::InvalidStellarAccount));
}

#[test]
fn test_register_callback_rejects_zero_amount() {
    let (mut c, _admin, _relay) = setup();
    let mut payload = default_payload();
    payload.amount = 0;
    let result = c.register_callback(&all_auth(0), &payload);
    assert_eq!(result, Err(ContractError::InvalidAmount));
}

#[test]
fn test_register_callback_rejects_invalid_asset_code() {
    let (mut c, _admin, _relay) = setup();
    let mut payload = default_payload();
    payload.asset_code = b"usdc".to_vec(); // lowercase: SEP-11 requires uppercase
    let result = c.register_callback(&all_auth(0), &payload);
    assert_eq!(result, Err(ContractError::InvalidAssetCode));
}

#[test]
fn test_register_callback_rejects_invalid_asset_issuer() {
    let (mut c, _admin, _relay) = setup();
    let mut payload = default_payload();
    payload.asset_issuer = b"GSHORT".to_vec();
    let result = c.register_callback(&all_auth(0), &payload);
    assert_eq!(result, Err(ContractError::InvalidAssetIssuer));
}

#[test]
fn test_register_callback_rejects_missing_idempotency_key() {
    let (mut c, _admin, _relay) = setup();
    let mut payload = default_payload();
    payload.idempotency_key = b"".to_vec();
    let result = c.register_callback(&all_auth(0), &payload);
    assert_eq!(result, Err(ContractError::MissingIdempotencyKey));
}

#[test]
fn test_register_callback_rejects_string_too_long() {
    let (mut c, _admin, _relay) = setup();
    let mut payload = default_payload();
    // The callback status cap is 32 bytes; 40 exceeds it.
    payload.callback_status = b"xxxxxxxxxxxxxxxxxxxxxxxxxxxxxxxxxxxxxxxx".to_vec();
    let result = c.register_callback(&all_auth(0), &payload);
    assert_eq!(result, Err(ContractError::StringTooLong));
}

// ─── start_processing() ───────────────────────────────────────────────────────

#[test]
fn test_start_processing_pending_to_processing() {
    let (mut c, _admin, relay) = setup();
    let tx_id = c.register_callback(&all_auth(0), &default_payload()).unwrap();
    c.start_processing(&all_auth(0), &tx_id, &relay).unwrap();
    assert_eq!(c.get_status(&tx_id), Ok(TransactionStatus::Processing));
}

#[test]
fn test_start_processing_rejects_non_pending() {
    let (mut c, admin, relay) = setup();
    let tx_id = c.register_callback(&all_auth(0), &default_payload()).unwrap();
    c.start_processing(&all_auth(0), &tx_id, &relay).unwrap();
    c.complete_transaction(&all_auth(0), &tx_id, b"hash-1", &relay).unwrap();

    // The transaction is Completed; starting it again violates the state machine.
    let result = c.start_processing(&all_auth(0), &tx_id, &admin);
    assert_eq!(result, Err(ContractError::InvalidStatusTransition));
}

#[test]
fn test_start_processing_rejects_unrelated_caller() {
    let (mut c, _admin, _relay) = setup();
    let tx_id = c.register_callback(&all_auth(0), &default_payload()).unwrap();
    // Everyone's authorisation is granted, so this exercises the role check.
    let bystander = addr("bystander-address");
    let result = c.start_processing(&all_auth(0), &tx_id, &bystander);
    assert_eq!(result, Err(ContractError::Unauthorised));
}

#[test]
fn test_start_processing_accepts_scoped_relay_auth() {
    let (mut c, _admin, relay) = setup_strict();
    let payload = default_payload();
    let tx_id = c.register_callback(&signed(&relay), &payload).unwrap();
    c.start_processing(&signed(&relay), &tx_id, &relay).unwrap();
    assert_eq!(c.get_status(&tx_id), Ok(TransactionStatus::Processing));
}

#[test]
fn test_start_processing_rejects_when_wrong_address_authorised() {
    let (mut c, admin, relay) = setup_strict();
    let payload = default_payload();
    let tx_id = c.register_callback(&signed(&relay), &payload).unwrap();
    // The caller is the relay, but only the admin authorised the invocation.
    let result = c.start_processing(&signed(&admin), &tx_id, &relay);
    assert!(result.is_err());
}

// ─── complete_transaction() ───────────────────────────────────────────────────

#[test]
fn test_complete_transaction_happy_path() {
    let (mut c, _admin, relay) = setup();
    let tx_id = c.register_callback(&all_auth(0), &default_payload()).unwrap();
    c.start_processing(&all_auth(0), &tx_id, &relay).unwrap();

    let hash = b"abc123stellarhash".to_vec();
    c.complete_transaction(&all_auth(0), &tx_id, &hash, &relay).unwrap();

    let tx = c.get_transaction(&tx_id).unwrap();
    assert_eq!(tx.status, TransactionStatus::Completed);
    assert_eq!(tx.stellar_tx_hash, hash);
}

#[test]
fn test_complete_transaction_rejects_pending() {
    let (mut c, _admin, relay) = setup();
    let tx_id = c.register_callback(&all_auth(0), &default_payload()).unwrap();
    // No start_processing: the transaction is still Pending.
    let result = c.complete_transaction(&all_auth(0), &tx_id, b"abc123stellarhash", &relay);
    assert_eq!(result, Err(ContractError::InvalidStatusTransition));
}

// ─── fail_transaction() ───────────────────────────────────────────────────────

#[test]
fn test_fail_transaction_from_pending() {
    let (mut c, _admin, relay) = setup();
    let tx_id = c.register_callback(&all_auth(0), &default_payload()).unwrap();

    let reason = b"horizon_timeout".to_vec();
    c.fail_transaction(&all_auth(0), &tx_id, &reason, &relay).unwrap();

    let tx = c.get_transaction(&tx_id).unwrap();
    assert_eq!(tx.status, TransactionStatus::Failed);
    assert_eq!(tx.failure_reason, reason);
}

#[test]
fn test_fail_transaction_from_processing() {
    let (mut c, _admin, relay) = setup();
    let tx_id = c.register_callback(&all_auth(0), &default_payload()).unwrap();
    c.start_processing(&all_auth(0), &tx_id, &relay).unwrap();

    c.fail_transaction(&all_auth(0), &tx_id, b"invalid_account", &relay).unwrap();
    assert_eq!(c.get_status(&tx_id), Ok(TransactionStatus::Failed));
}

#[test]
fn test_fail_transaction_rejects_completed() {
    let (mut c, _admin, relay) = setup();
    let tx_id = c.register_callback(&all_auth(0), &default_payload()).unwrap();
    c.start_processing(&all_auth(0), &tx_id, &relay).unwrap();
    c.complete_transaction(&all_auth(0), &tx_id, b"hash-1", &relay).unwrap();

    let result = c.fail_transaction(&all_auth(0), &tx_id, b"too_late", &relay);
    assert_eq!(result, Err(ContractError::InvalidStatusTransition));
}

// ─── Read-only queries ─────────────────────────────────────────────────────────

#[test]
fn test_get_transaction_rejects_unknown_id() {
    let (c, _admin, _relay) = setup();
    let result = c.get_transaction(b"does-not-exist");
    assert!(matches!(result, Err(ContractError::TransactionNotFound)));
}

#[test]
fn test_is_duplicate_reflects_idempotency_state() {
    let (mut c, _admin, _relay) = setup();
    let payload = default_payload();
    assert!(!c.is_duplicate(&all_auth(0), &payload.idempotency_key));
    c.register_callback(&all_auth(0), &payload).unwrap();
    assert!(c.is_duplicate(&all_auth(0), &payload.idempotency_key));
}

// ─── Admin ────────────────────────────────────────────────────────────────────

#[test]
fn test_transfer_admin_happy_path() {
    let (mut c, admin, _relay) = setup_strict();
    let new_admin = addr("new-admin-address");
    c.transfer_admin(&signed(&admin), new_admin.duplicate()).unwrap();

    let new_relay = addr("new-relay-address");

    // The old admin can no longer authorise privileged operations.
    let old_admin_attempt = c.set_relay_signer(&signed(&admin), new_relay.duplicate());
    assert!(old_admin_attempt.is_err());

    // The new admin can.
    c.set_relay_signer(&signed(&new_admin), new_relay).unwrap();
}

#[test]
fn test_transfer_admin_rejects_non_admin() {
    let (mut c, _admin, _relay) = setup_strict();
    let attacker = addr("attacker-address");
    let new_admin = addr("new-admin-address");
    let result = c.transfer_admin(&signed(&attacker), new_admin);
    assert!(result.is_err());
}

#[test]
fn test_set_relay_signer_happy_path() {
    let (mut c, _admin, _relay) = setup();
    let new_relay = addr("new-relay-address");
    c.set_relay_signer(&all_auth(0), new_relay).unwrap();

    // The contract stays usable after the rotation.
    let tx_id = c.register_callback(&all_auth(0), &default_payload()).unwrap();
    assert_eq!(c.get_transaction(&tx_id).unwrap().status, TransactionStatus::Pending);
}

#[test]
fn test_relay_rotation_mid_lifecycle_enforces_new_signer() {
    let (mut c, admin, relay) = setup_strict();
    let payload = default_payload();
    let tx_id = c.register_callback(&signed(&relay), &payload).unwrap();
    c.start_processing(&signed(&relay), &tx_id, &relay).unwrap();

    // The admin rotates the relay signer while the transaction is Processing.
    let new_relay = addr("new-relay-address");
    c.set_relay_signer(&signed(&admin), new_relay.duplicate()).unwrap();

    let hash = b"hash-post-rotation".to_vec();

    // The old relay can no longer complete the in-flight transaction.
    let old_relay_attempt = c.complete_transaction(&signed(&relay), &tx_id, &hash, &relay);
    assert!(old_relay_attempt.is_err());

    // The new relay can finish it.
    c.complete_transaction(&signed(&new_relay), &tx_id, &hash, &new_relay).unwrap();

    let tx = c.get_transaction(&tx_id).unwrap();
    assert_eq!(tx.status, TransactionStatus::Completed);
    assert_eq!(tx.stellar_tx_hash, hash);
}

// ─── Events ───────────────────────────────────────────────────────────────────

#[test]
fn test_register_emits_transaction_registered_event() {
    let (mut c, _admin, _relay) = setup();
    c.register_callback(&all_auth(0), &default_payload()).unwrap();
    let events = c.events();
    let last = &events[events.len() - 1];
    assert_topic(last, "reg");
}

#[test]
fn test_complete_emits_status_changed_and_completed_events() {
    let (mut c, _admin, relay) = setup();
    let tx_id = c.register_callback(&all_auth(0), &default_payload()).unwrap();
    c.start_processing(&all_auth(0), &tx_id, &relay).unwrap();

    c.complete_transaction(&all_auth(0), &tx_id, b"hash-events", &relay).unwrap();

    // `complete_transaction` publishes `status` then `done`.
    let events = c.events();
    assert_eq!(events.len(), 2);
    assert_topic(&events[0], "status");
    assert_topic(&events[1], "done");
}

// ─── Idempotency & TTL ─────────────────────────────────────────────────────────

#[test]
fn test_idempotent_replay_emits_no_event() {
    let (mut c, _admin, _relay) = setup();
    let payload = default_payload();
    let first_id = c.register_callback(&all_auth(0), &payload).unwrap();

    let second_id = c.register_callback(&all_auth(0), &payload).unwrap();
    let events = c.events();

    assert_eq!(first_id, second_id);
    assert_eq!(events.len(), 0, "idempotent replay must not emit a `reg` event");
}

#[test]
fn test_idempotency_key_expires_after_ttl() {
    let (mut c, _admin, _relay) = setup();
    // Every event published so far, over all invocations.
    let mut published = c.events().len();
    let payload = default_payload();
    c.register_callback(&all_auth(0), &payload).unwrap();
    published += c.events().len();
    assert!(c.is_duplicate(&all_auth(0), &payload.idempotency_key));

    // Jump past the ~24h / 18_000-ledger idempotency TTL.
    let later = all_auth(18_001);
    assert!(!c.is_duplicate(&later, &payload.idempotency_key));

    // A replay after expiry is treated as fresh: same tx id, and `reg` is
    // published again (proving it is no longer deduplicated).
    let events_before = published;
    let tx_id = c.register_callback(&later, &payload).unwrap();
    assert_eq!(tx_id, payload.transaction_id);
    published += c.events().len();
    let events_after = published;
    assert_eq!(events_after, events_before + 1);
    assert_topic(&c.events()[0], "reg");
}

// ─── Full lifecycle ────────────────────────────────────────────────────────────

#[test]
fn test_full_lifecycle_pending_to_processing_to_completed() {
    let (mut c, _admin, relay) = setup();
    let tx_id = c.register_callback(&all_auth(0), &default_payload()).unwrap();
    assert_eq!(c.get_status(&tx_id), Ok(TransactionStatus::Pending));

    c.start_processing(&all_auth(0), &tx_id, &relay).unwrap();
    assert_eq!(c.get_status(&tx_id), Ok(TransactionStatus::Processing));

    let hash = b"final-hash".to_vec();
    c.complete_transaction(&all_auth(0), &tx_id, &hash, &relay).unwrap();

    let tx = c.get_transaction(&tx_id).unwrap();
    assert_eq!(tx.status, TransactionStatus::Completed);
    assert_eq!(tx.stellar_tx_hash, hash);
    assert_eq!(tx.failure_reason, b"".to_vec());
    assert!(tx.updated_at_ledger >= tx.created_at_ledger);
}

// ─── Further cases ─────────────────────────────────────────────────────────────

#[test]
fn idempotency_window_boundary() {
    let (mut c, _admin, _relay) = setup();
    let payload = default_payload();
    c.register_callback(&all_auth(100), &payload).unwrap();
    assert!(c.is_duplicate(&all_auth(100 + IDEMPOTENCY_TTL_LEDGERS), &payload.idempotency_key));
    assert!(!c.is_duplicate(&all_auth(100 + IDEMPOTENCY_TTL_LEDGERS + 1), &payload.idempotency_key));
}

#[test]
fn registration_records_payload_fields_and_ledger() {
    let (mut c, _admin, _relay) = setup();
    let payload = default_payload();
    c.register_callback(&all_auth(42), &payload).unwrap();
    let tx = c.get_transaction(b"tx-1").unwrap();
    assert_eq!(tx.stellar_account, payload.stellar_account);
    assert_eq!(tx.asset_code, b"USDC".to_vec());
    assert_eq!(tx.asset_issuer, payload.asset_issuer);
    assert_eq!(tx.anchor_transaction_id, b"anchor-1".to_vec());
    assert_eq!(tx.callback_type, CallbackType::Deposit);
    assert_eq!(tx.callback_status, b"pending_external".to_vec());
    assert_eq!(tx.created_at_ledger, 42);
    assert_eq!(tx.updated_at_ledger, 42);
    assert_eq!(tx.failure_reason, Vec::<u8>::new());
    match &c.events()[0] {
        ContractEvent::TransactionRegistered(e) => {
            assert_eq!(e.tx_id, b"tx-1".to_vec());
            assert_eq!(e.amount, 1_000);
            assert_eq!(e.ledger, 42);
        }
        other => panic!("unexpected event {:?}", other),
    }
}

#[test]
fn transitions_stamp_the_invocation_ledger() {
    let (mut c, _admin, relay) = setup();
    let tx_id = c.register_callback(&all_auth(10), &default_payload()).unwrap();
    c.start_processing(&all_auth(20), &tx_id, &relay).unwrap();
    let tx = c.get_transaction(&tx_id).unwrap();
    assert_eq!(tx.created_at_ledger, 10);
    assert_eq!(tx.updated_at_ledger, 20);
    match &c.events()[0] {
        ContractEvent::StatusChanged(e) => {
            assert_eq!(e.old_status, TransactionStatus::Pending);
            assert_eq!(e.new_status, TransactionStatus::Processing);
            assert_eq!(e.ledger, 20);
        }
        other => panic!("unexpected event {:?}", other),
    }
}

#[test]
fn fail_publishes_status_then_fail() {
    let (mut c, _admin, relay) = setup();
    let tx_id = c.register_callback(&all_auth(0), &default_payload()).unwrap();
    c.fail_transaction(&all_auth(0), &tx_id, b"circuit_open", &relay).unwrap();
    let events = c.events();
    assert_eq!(events.len(), 2);
    assert_topic(&events[0], "status");
    assert_topic(&events[1], "fail");
}

#[test]
fn fail_rejects_failed() {
    let (mut c, _admin, relay) = setup();
    let tx_id = c.register_callback(&all_auth(0), &default_payload()).unwrap();
    c.fail_transaction(&all_auth(0), &tx_id, b"first", &relay).unwrap();
    let result = c.fail_transaction(&all_auth(0), &tx_id, b"second", &relay);
    assert_eq!(result, Err(ContractError::InvalidStatusTransition));
    assert_eq!(c.get_transaction(&tx_id).unwrap().failure_reason, b"first".to_vec());
    assert_eq!(c.events().len(), 0);
}

#[test]
fn completed_records_keep_their_outcome() {
    let (mut c, _admin, relay) = setup();
    let tx_id = c.register_callback(&all_auth(0), &default_payload()).unwrap();
    c.start_processing(&all_auth(0), &tx_id, &relay).unwrap();
    assert_eq!(
        c.start_processing(&all_auth(0), &tx_id, &relay),
        Err(ContractError::InvalidStatusTransition)
    );
    c.complete_transaction(&all_auth(0), &tx_id, b"h", &relay).unwrap();
    assert_eq!(
        c.complete_transaction(&all_auth(0), &tx_id, b"h2", &relay),
        Err(ContractError::InvalidStatusTransition)
    );
    assert_eq!(c.get_transaction(&tx_id).unwrap().stellar_tx_hash, b"h".to_vec());
}

#[test]
fn transitions_report_missing_transaction() {
    let (mut c, _admin, relay) = setup();
    assert_eq!(
        c.start_processing(&all_auth(0), b"nope", &relay),
        Err(ContractError::TransactionNotFound)
    );
    assert_eq!(c.get_status(b"nope"), Err(ContractError::TransactionNotFound));
}

#[test]
fn transitions_before_initialise_fail() {
    let mut c = SynapseCoreContract::new();
    let someone = addr("someone");
    assert_eq!(
        c.start_processing(&all_auth(0), b"tx-1", &someone),
        Err(ContractError::NotInitialised)
    );
    assert_eq!(c.transfer_admin(&all_auth(0), someone.duplicate()), Err(ContractError::NotInitialised));
    assert_eq!(c.pause(&all_auth(0)), Err(ContractError::NotInitialised));
}

#[test]
fn oversized_hash_and_reason_are_rejected() {
    let (mut c, _admin, relay) = setup();
    let tx_id = c.register_callback(&all_auth(0), &default_payload()).unwrap();
    assert_eq!(
        c.fail_transaction(&all_auth(0), &tx_id, &[b'r'; 65], &relay),
        Err(ContractError::StringTooLong)
    );
    c.start_processing(&all_auth(0), &tx_id, &relay).unwrap();
    assert_eq!(
        c.complete_transaction(&all_auth(0), &tx_id, &[b'h'; 73], &relay),
        Err(ContractError::StringTooLong)
    );
    c.complete_transaction(&all_auth(0), &tx_id, &[b'h'; 72], &relay).unwrap();
    assert_eq!(c.get_status(&tx_id), Ok(TransactionStatus::Completed));
}

#[test]
fn admin_may_drive_transitions() {
    let (mut c, admin, _relay) = setup_strict();
    let relay = addr("relay-address");
    let tx_id = c.register_callback(&signed(&relay), &default_payload()).unwrap();
    c.start_processing(&signed(&admin), &tx_id, &admin).unwrap();
    assert_eq!(c.get_status(&tx_id), Ok(TransactionStatus::Processing));
}

#[test]
fn transfer_admin_publishes_old_and_new() {
    let (mut c, admin, _relay) = setup();
    let new_admin = addr("new-admin-address");
    c.transfer_admin(&all_auth(7), new_admin).unwrap();
    match &c.events()[0] {
        ContractEvent::AdminTransferred(e) => {
            assert!(e.old_admin.same_as(&admin));
            assert_eq!(e.new_admin.strkey, b"new-admin-address".to_vec());
            assert_eq!(e.ledger, 7);
        }
        other => panic!("unexpected event {:?}", other),
    }
    assert_topic(&c.events()[0], "admin");
}

#[test]
fn initialize_publishes_init_event() {
    let (c, _admin, _relay) = setup();
    assert_eq!(c.events().len(), 1);
    assert_topic(&c.events()[0], "init");
    assert_eq!(c.version(), "0.1.0");
}

#[test]
fn reuse_of_a_processing_id_is_refused() {
    // A second callback with the same transaction id but a fresh idempotency
    // key cannot reset a record that has left Pending.
    let (mut c, _admin, relay) = setup();
    c.register_callback(&all_auth(0), &payload_with("tx-1", "idem-1")).unwrap();
    c.start_processing(&all_auth(3), b"tx-1", &relay).unwrap();
    let r = c.register_callback(&all_auth(4), &payload_with("tx-1", "idem-2"));
    assert_eq!(r, Err(ContractError::DuplicateRequest));
    assert_eq!(c.events().len(), 0);
    let tx = c.get_transaction(b"tx-1").unwrap();
    assert_eq!(tx.status, TransactionStatus::Processing);
    assert_eq!(tx.updated_at_ledger, 3);
    // The refused call recorded nothing under its key.
    assert!(!c.is_duplicate(&all_auth(4), b"idem-2"));
}

#[test]
fn reuse_of_a_completed_id_after_expiry_is_refused() {
    let (mut c, _admin, relay) = setup();
    c.register_callback(&all_auth(0), &payload_with("tx-1", "idem-1")).unwrap();
    c.start_processing(&all_auth(1), b"tx-1", &relay).unwrap();
    c.complete_transaction(&all_auth(2), b"tx-1", b"settled-hash", &relay).unwrap();
    let before = c.get_transaction(b"tx-1").unwrap();

    let late = all_auth(IDEMPOTENCY_TTL_LEDGERS + 10);
    assert!(!c.is_duplicate(&late, b"idem-1"));
    for key in ["idem-1", "idem-2"] {
        let r = c.register_callback(&late, &payload_with("tx-1", key));
        assert_eq!(r, Err(ContractError::DuplicateRequest));
        assert_eq!(c.events().len(), 0);
    }
    let after = c.get_transaction(b"tx-1").unwrap();
    assert_eq!(after.status, TransactionStatus::Completed);
    assert_eq!(after.stellar_tx_hash, b"settled-hash".to_vec());
    assert_eq!(after.updated_at_ledger, before.updated_at_ledger);
    assert_eq!(after.created_at_ledger, before.created_at_ledger);
}

#[test]
fn reuse_of_a_failed_id_is_refused() {
    let (mut c, _admin, relay) = setup();
    c.register_callback(&all_auth(0), &payload_with("tx-1", "idem-1")).unwrap();
    c.fail_transaction(&all_auth(1), b"tx-1", b"horizon_timeout", &relay).unwrap();
    let r = c.register_callback(&all_auth(2), &payload_with("tx-1", "idem-9"));
    assert_eq!(r, Err(ContractError::DuplicateRequest));
    let tx = c.get_transaction(b"tx-1").unwrap();
    assert_eq!(tx.status, TransactionStatus::Failed);
    assert_eq!(tx.failure_reason, b"horizon_timeout".to_vec());
}

#[test]
fn replayed_key_with_another_payload_returns_the_original_id() {
    let (mut c, _admin, _relay) = setup();
    let first = c.register_callback(&all_auth(5), &payload_with("tx-1", "idem-1")).unwrap();
    assert_eq!(first, b"tx-1".to_vec());

    // Same key, different transaction id, later in the window.
    let second = c.register_callback(&all_auth(100), &payload_with("tx-2", "idem-1")).unwrap();
    assert_eq!(second, b"tx-1".to_vec());
    assert_eq!(c.events().len(), 0);
    assert_eq!(c.get_transaction(b"tx-2").err(), Some(ContractError::TransactionNotFound));
    assert_eq!(c.get_transaction(b"tx-1").unwrap().created_at_ledger, 5);
}

#[test]
fn redelivery_under_a_new_key_keeps_the_pending_record() {
    // The same callback delivered again under a fresh key is accepted and
    // announced, but the stored record is not written again.
    let (mut c, _admin, _relay) = setup();
    c.register_callback(&all_auth(0), &payload_with("tx-1", "idem-1")).unwrap();
    let id = c.register_callback(&all_auth(8), &payload_with("tx-1", "idem-2")).unwrap();
    assert_eq!(id, b"tx-1".to_vec());
    assert_eq!(c.events().len(), 1);
    assert_topic(&c.events()[0], "reg");
    let tx = c.get_transaction(b"tx-1").unwrap();
    assert_eq!(tx.status, TransactionStatus::Pending);
    assert_eq!(tx.created_at_ledger, 0);
    assert_eq!(tx.updated_at_ledger, 0);
    assert!(c.is_duplicate(&all_auth(8), b"idem-2"));
}

#[test]
fn another_callback_under_a_pending_id_is_refused() {
    // I-07: a different callback reusing the id of a Pending record must not
    // overwrite it.
    let (mut c, _admin, _relay) = setup();
    c.register_callback(&all_auth(0), &payload_with("tx-1", "idem-1")).unwrap();
    let mut other = payload_with("tx-1", "idem-2");
    other.amount = 5_000;
    assert_eq!(c.register_callback(&all_auth(3), &other), Err(ContractError::DuplicateRequest));
    assert_eq!(c.events().len(), 0);
    let tx = c.get_transaction(b"tx-1").unwrap();
    assert_eq!(tx.amount, 1_000);
    assert_eq!(tx.created_at_ledger, 0);
    assert!(!c.is_duplicate(&all_auth(3), b"idem-2"));
}

#[test]
fn relay_rotation_publishes_old_and_new_signer() {
    let (mut c, _admin, relay) = setup();
    let new_relay = addr("new-relay-address");
    c.set_relay_signer(&all_auth(9), new_relay).unwrap();
    assert_eq!(c.events().len(), 1);
    assert_topic(&c.events()[0], "relay");
    match &c.events()[0] {
        ContractEvent::RelaySignerRotated(e) => {
            assert!(e.old_signer.same_as(&relay));
            assert_eq!(e.new_signer.strkey, b"new-relay-address".to_vec());
            assert_eq!(e.ledger, 9);
        }
        other => panic!("unexpected event {:?}", other),
    }
}

#[test]
fn refused_relay_rotation_publishes_nothing() {
    let (mut c, _admin, relay) = setup_strict();
    let r = c.set_relay_signer(&nobody(), addr("x"));
    assert_eq!(r, Err(ContractError::Unauthorised));
    assert_eq!(c.events().len(), 0);
    assert!(c.storage().get_relay_signer().unwrap().same_as(&relay));
}
