use synapse_core_contract::contract::SynapseCoreContract;
use synapse_core_contract::events::{ContractEvent, EventEmitter};
use synapse_core_contract::types::{
    Address, CallbackPayload, CallbackType, ContractError, Invocation, TransactionStatus,
};

fn addr(name: &str) -> Address {
    Address::new(name.as_bytes().to_vec())
}

fn all_auth() -> Invocation {
    Invocation::authorised_by_all(0)
}

fn signed(who: &Address) -> Invocation {
    Invocation::signed_by(0, vec![who.duplicate()])
}

fn setup() -> (SynapseCoreContract, Address, Address) {
    let mut c = SynapseCoreContract::new();
    let admin = addr("admin-address");
    let relay = addr("relay-address");
    c.initialize(&all_auth(), admin.duplicate(), relay.duplicate()).unwrap();
    (c, admin, relay)
}

fn setup_strict() -> (SynapseCoreContract, Address, Address) {
    let mut c = SynapseCoreContract::new();
    let admin = addr("admin-address");
    let relay = addr("relay-address");
    c.initialize(&Invocation::signed_by(0, Vec::new()), admin.duplicate(), relay.duplicate())
        .unwrap();
    (c, admin, relay)
}

fn valid_payload() -> CallbackPayload {
    let account = b"GA7QYNF7SOWQ3GLR2BGMZEHXAVIRZA4KVWLTJJFC7MGXUA74P7UJVSGZ".to_vec();
    CallbackPayload {
        transaction_id: b"tx-1".to_vec(),
        stellar_account: account.clone(),
        amount: 1_000,
        asset_code: b"USDC".to_vec(),
        asset_issuer: account,
        idempotency_key: b"idem-1".to_vec(),
        anchor_transaction_id: b"anchor-1".to_vec(),
        callback_type: CallbackType::Deposit,
        callback_status: b"pending_external".to_vec(),
    }
}

#[test]
fn test_pause_blocks_ingestion_but_reads_survive() {
    let (mut c, _admin, _relay) = setup();

    let payload = valid_payload();
    let tx_id = c.register_callback(&all_auth(), &payload).unwrap();
    assert_eq!(c.get_transaction(&tx_id).unwrap().status, TransactionStatus::Pending);

    c.pause(&all_auth()).unwrap();
    assert!(c.is_paused());

    let result = c.register_callback(&all_auth(), &payload);
    assert_eq!(result, Err(ContractError::ContractPaused));

    let tx = c.get_transaction(&tx_id).unwrap();
    assert_eq!(tx.id, tx_id);
    assert_eq!(tx.status, TransactionStatus::Pending);
    assert!(c.health());
}

#[test]
fn test_only_admin_can_pause_and_unpause() {
    let (mut c, admin, _relay) = setup_strict();
    let attacker = addr("attacker-address");

    let attacker_attempt = c.pause(&signed(&attacker));
    assert!(attacker_attempt.is_err());
    assert!(!c.is_paused());

    c.pause(&signed(&admin)).unwrap();
    assert!(c.is_paused());

    let attacker_unpause = c.unpause(&signed(&attacker));
    assert!(attacker_unpause.is_err());
    assert!(c.is_paused());
}

#[test]
fn test_unpause_resumes_ingestion() {
    let (mut c, _admin, _relay) = setup();
    let payload = valid_payload();

    c.pause(&all_auth()).unwrap();
    assert_eq!(c.register_callback(&all_auth(), &payload), Err(ContractError::ContractPaused));

    c.unpause(&all_auth()).unwrap();
    assert!(!c.is_paused());

    let tx_id = c.register_callback(&all_auth(), &payload).unwrap();
    assert_eq!(c.get_transaction(&tx_id).unwrap().status, TransactionStatus::Pending);
}

#[test]
fn test_pause_is_idempotent() {
    let (mut c, _admin, _relay) = setup();

    assert!(!c.is_paused());
    c.pause(&all_auth()).unwrap();
    c.pause(&all_auth()).unwrap();
    assert!(c.is_paused());

    c.unpause(&all_auth()).unwrap();
    c.unpause(&all_auth()).unwrap();
    assert!(!c.is_paused());
}

#[test]
fn test_fresh_contract_starts_unpaused() {
    let (c, _admin, _relay) = setup();
    assert!(!c.is_paused());
}

#[test]
fn test_upgrade_rejects_non_admin() {
    let (mut c, _admin, _relay) = setup_strict();
    let attacker = addr("attacker-address");
    let dummy_hash = [0u8; 32];
    let attacker_attempt = c.upgrade(&signed(&attacker), dummy_hash);
    assert!(attacker_attempt.is_err());
}

#[test]
fn test_upgrade_storage_survives_admin_ops() {
    let (mut c, _admin, _relay) = setup();

    let payload = valid_payload();
    let tx_id = c.register_callback(&all_auth(), &payload).unwrap();
    assert_eq!(c.get_transaction(&tx_id).unwrap().status, TransactionStatus::Pending);

    c.pause(&all_auth()).unwrap();
    c.unpause(&all_auth()).unwrap();

    let tx = c.get_transaction(&tx_id).unwrap();
    assert_eq!(tx.id, tx_id);
    assert_eq!(tx.status, TransactionStatus::Pending);
    assert_eq!(tx.amount, 1_000);
}

#[test]
fn test_upgrade_emits_contract_upgraded_event() {
    let admin = addr("admin-address");
    let dummy_hash = [0xabu8; 32];
    let mut log: Vec<ContractEvent> = Vec::new();

    EventEmitter::contract_upgraded(&mut log, 0, &admin, &dummy_hash);

    assert_eq!(log.len(), 1, "Expected exactly one published event");
    let (t0, t1) = log[0].topics();
    assert_eq!(t0, "synapse");
    assert_eq!(t1, "upgrade");
}

// ─── Further cases ─────────────────────────────────────────────────────────────

#[test]
fn admin_upgrade_keeps_records_and_publishes() {
    let (mut c, admin, _relay) = setup_strict();
    let relay = addr("relay-address");
    let tx_id = c.register_callback(&signed(&relay), &valid_payload()).unwrap();
    c.upgrade(&signed(&admin), [7u8; 32]).unwrap();
    assert_eq!(c.get_status(&tx_id), Ok(TransactionStatus::Pending));
    assert_eq!(c.events().len(), 1);
    assert_eq!(c.events()[0].topics(), ("synapse", "upgrade"));
}

#[test]
fn upgrade_evicts_idempotency_keys_only() {
    let (mut c, admin, _relay) = setup_strict();
    let relay = addr("relay-address");
    let payload = valid_payload();
    let tx_id = c.register_callback(&signed(&relay), &payload).unwrap();
    assert!(c.is_duplicate(&signed(&relay), &payload.idempotency_key));

    // A refused upgrade keeps the keys.
    assert!(c.upgrade(&signed(&relay), [1u8; 32]).is_err());
    assert!(c.is_duplicate(&signed(&relay), &payload.idempotency_key));

    c.upgrade(&signed(&admin), [7u8; 32]).unwrap();
    assert!(!c.is_duplicate(&signed(&relay), &payload.idempotency_key));
    assert_eq!(c.get_status(&tx_id), Ok(TransactionStatus::Pending));
    assert!(c.storage().get_admin().unwrap().same_as(&admin));
    assert_eq!(c.wasm_hash(), Some([7u8; 32]));

    // The same callback afterwards is a redelivery: accepted, record kept.
    assert_eq!(c.register_callback(&signed(&relay), &payload), Ok(tx_id.clone()));
    assert_eq!(c.events()[0].topics(), ("synapse", "reg"));
}

#[test]
fn only_pause_calls_change_the_flag() {
    let (mut c, _admin, _relay) = setup();
    assert!(!c.is_paused());
    c.pause(&all_auth()).unwrap();
    let tx_id = c.register_callback(&all_auth(), &valid_payload());
    assert_eq!(tx_id, Err(ContractError::ContractPaused));
    c.set_relay_signer(&all_auth(), addr("relay-2")).unwrap();
    c.transfer_admin(&all_auth(), addr("admin-2")).unwrap();
    c.upgrade(&all_auth(), [3u8; 32]).unwrap();
    assert!(c.is_paused());
    c.unpause(&all_auth()).unwrap();
    assert!(!c.is_paused());
}

#[test]
fn transitions_keep_running_while_paused() {
    let (mut c, _admin, relay) = setup();
    let tx_id = c.register_callback(&all_auth(), &valid_payload()).unwrap();
    c.pause(&all_auth()).unwrap();
    c.start_processing(&all_auth(), &tx_id, &relay).unwrap();
    c.complete_transaction(&all_auth(), &tx_id, b"hash", &relay).unwrap();
    assert_eq!(c.get_status(&tx_id), Ok(TransactionStatus::Completed));
}

#[test]
fn pause_events_carry_state_and_admin() {
    let (mut c, admin, _relay) = setup();
    c.pause(&all_auth()).unwrap();
    match &c.events()[0] {
        ContractEvent::PauseToggled(e) => {
            assert!(e.paused);
            assert!(e.admin.same_as(&admin));
        }
        other => panic!("unexpected event {:?}", other),
    }
    c.unpause(&all_auth()).unwrap();
    match &c.events()[0] {
        ContractEvent::PauseToggled(e) => assert!(!e.paused),
        other => panic!("unexpected event {:?}", other),
    }
}
