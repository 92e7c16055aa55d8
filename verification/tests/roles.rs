use synapse_core_contract::admin::AdminClient;
use synapse_core_contract::storage::StorageClient;
use synapse_core_contract::types::{
    Address, CallbackType, ContractError, Invocation, Transaction, TransactionStatus,
};

fn addr(name: &str) -> Address {
    Address::new(name.as_bytes().to_vec())
}

fn storage_with_roles() -> (StorageClient, Address, Address) {
    let mut s = StorageClient::new();
    let admin = addr("admin");
    let relay = addr("relay");
    s.set_admin(&admin);
    s.set_relay_signer(&relay);
    (s, admin, relay)
}

fn tx(id: &str, status: TransactionStatus) -> Transaction {
    Transaction {
        id: id.as_bytes().to_vec(),
        stellar_account: b"G".to_vec(),
        amount: 5,
        asset_code: b"USDC".to_vec(),
        asset_issuer: b"G".to_vec(),
        status,
        created_at_ledger: 1,
        updated_at_ledger: 1,
        anchor_transaction_id: b"a".to_vec(),
        callback_type: CallbackType::Withdrawal,
        callback_status: b"s".to_vec(),
        stellar_tx_hash: Vec::new(),
        failure_reason: Vec::new(),
    }
}

#[test]
fn require_admin_returns_admin_when_authorised() {
    let (s, admin, relay) = storage_with_roles();
    let got = AdminClient::require_admin(&s, &Invocation::signed_by(0, vec![admin.duplicate()])).unwrap();
    assert!(got.same_as(&admin));
    let denied = AdminClient::require_admin(&s, &Invocation::signed_by(0, vec![relay.duplicate()]));
    assert!(matches!(denied, Err(ContractError::Unauthorised)));
    let missing = AdminClient::require_admin(&StorageClient::new(), &Invocation::authorised_by_all(0));
    assert!(matches!(missing, Err(ContractError::NotInitialised)));
}

#[test]
fn relay_or_admin_membership_then_authorisation() {
    let (s, admin, relay) = storage_with_roles();
    let other = addr("other");
    let all = Invocation::authorised_by_all(0);
    assert_eq!(AdminClient::assert_is_relay_or_admin(&s, &all, &admin), Ok(()));
    assert_eq!(AdminClient::assert_is_relay_or_admin(&s, &all, &relay), Ok(()));
    assert_eq!(AdminClient::assert_is_relay_or_admin(&s, &all, &other), Err(ContractError::Unauthorised));
    let only_admin = Invocation::signed_by(0, vec![admin.duplicate()]);
    assert_eq!(
        AdminClient::assert_is_relay_or_admin(&s, &only_admin, &relay),
        Err(ContractError::Unauthorised)
    );
    assert_eq!(
        AdminClient::assert_is_relay_or_admin(&StorageClient::new(), &all, &admin),
        Err(ContractError::NotInitialised)
    );
}

#[test]
fn require_relay_signer_rejects_admin() {
    let (s, admin, relay) = storage_with_roles();
    let all = Invocation::authorised_by_all(0);
    assert_eq!(AdminClient::require_relay_signer(&s, &all, &relay), Ok(()));
    assert_eq!(AdminClient::require_relay_signer(&s, &all, &admin), Err(ContractError::NotRelaySigner));
    let nobody = Invocation::signed_by(0, Vec::new());
    assert_eq!(AdminClient::require_relay_signer(&s, &nobody, &relay), Err(ContractError::Unauthorised));
}

#[test]
fn storage_reads_give_back_writes() {
    let mut s = StorageClient::new();
    assert!(!s.is_initialised());
    assert!(matches!(s.get_admin(), Err(ContractError::NotInitialised)));
    assert!(matches!(s.get_relay_signer(), Err(ContractError::NotInitialised)));
    s.set_initialised();
    assert!(s.is_initialised());
    s.set_paused(true);
    assert!(s.is_paused());
    s.set_paused(false);
    assert!(!s.is_paused());

    s.save_transaction(&tx("a", TransactionStatus::Pending));
    s.save_transaction(&tx("b", TransactionStatus::Pending));
    s.save_transaction(&tx("a", TransactionStatus::Failed));
    assert_eq!(s.get_transaction(b"a").unwrap().status, TransactionStatus::Failed);
    assert_eq!(s.get_transaction(b"b").unwrap().status, TransactionStatus::Pending);
    assert!(matches!(s.get_transaction(b"c"), Err(ContractError::TransactionNotFound)));
}

#[test]
fn idempotency_keys_expire() {
    let mut s = StorageClient::new();
    assert_eq!(s.get_idempotency_key(b"k", 5), None);
    assert_eq!(s.get_idempotency_transaction(b"k", 5), None);
    s.set_idempotency_key(b"k", b"tx-a", 5);
    assert_eq!(s.get_idempotency_key(b"k", 5), Some(5));
    assert_eq!(s.get_idempotency_transaction(b"k", 5), Some(b"tx-a".to_vec()));
    assert_eq!(s.get_idempotency_key(b"k", 18_005), Some(5));
    assert_eq!(s.get_idempotency_transaction(b"k", 18_005), Some(b"tx-a".to_vec()));
    assert_eq!(s.get_idempotency_key(b"k", 18_006), None);
    assert_eq!(s.get_idempotency_transaction(b"k", 18_006), None);
    // Writing again after expiry starts a new window.
    s.set_idempotency_key(b"k", b"tx-b", 20_000);
    assert_eq!(s.get_idempotency_key(b"k", 20_001), Some(20_000));
    assert_eq!(s.get_idempotency_transaction(b"k", 20_001), Some(b"tx-b".to_vec()));
}

#[test]
fn invocation_authorisation() {
    let a = addr("a");
    let b = addr("b");
    let inv = Invocation::signed_by(3, vec![a.duplicate()]);
    assert!(inv.authorises(&a));
    assert!(!inv.authorises(&b));
    assert!(Invocation::authorised_by_all(3).authorises(&b));
    assert!(a.same_as(&a.duplicate()));
    assert!(!a.same_as(&b));
}
