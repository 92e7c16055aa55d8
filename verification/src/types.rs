//! Plain data types shared by every module of the registry.

use vstd::prelude::*;

verus! {

/// Copy a byte string, keeping its contents.
pub fn copy_bytes(v: &Vec<u8>) -> (r: Vec<u8>)
    ensures
        r@ == v@,
{
    let r = v.clone();
    assert(r@ =~= v@);
    r
}

/// An owned copy of a byte slice.
pub fn bytes_of(s: &[u8]) -> (r: Vec<u8>)
    ensures
        r@ == s@,
{
    let mut r: Vec<u8> = Vec::new();
    let mut i: usize = 0;
    while i < s.len()
        invariant
            0 <= i <= s@.len(),
            r@ == s@.take(i as int),
        decreases s@.len() - i,
    {
        r.push(s[i]);
        proof {
            assert(s@.take(i + 1) =~= s@.take(i as int).push(s@[i as int]));
        }
        i = i + 1;
    }
    proof {
        assert(s@.take(s@.len() as int) =~= s@);
    }
    r
}

/// Compare two byte strings for equality.
pub fn bytes_eq(a: &[u8], b: &[u8]) -> (r: bool)
    ensures
        r == (a@ == b@),
{
    if a.len() != b.len() {
        return false;
    }
    let mut i: usize = 0;
    while i < a.len()
        invariant
            a@.len() == b@.len(),
            0 <= i <= a@.len(),
            forall|j: int| 0 <= j < i ==> a@[j] == b@[j],
        decreases a@.len() - i,
    {
        if a[i] != b[i] {
            return false;
        }
        i = i + 1;
    }
    assert(a@ =~= b@);
    true
}

/// An account or contract address, held as its strkey text (for example a
/// `G...` account id).  Two addresses are the same exactly when their strkeys
/// are equal.
#[derive(Debug)]
pub struct Address {
    pub strkey: Vec<u8>,
}

impl View for Address {
    type V = Seq<u8>;

    open spec fn view(&self) -> Seq<u8> {
        self.strkey@
    }
}

impl Address {
    /// Wrap a strkey.
    pub fn new(strkey: Vec<u8>) -> (a: Address)
        ensures
            a@ == strkey@,
    {
        Address { strkey }
    }

    /// Whether `self` and `other` denote the same address.
    pub fn same_as(&self, other: &Address) -> (r: bool)
        ensures
            r == (self@ == other@),
    {
        bytes_eq(self.strkey.as_slice(), other.strkey.as_slice())
    }

    /// A second handle on the same address.
    pub fn duplicate(&self) -> (a: Address)
        ensures
            a@ == self@,
    {
        Address { strkey: copy_bytes(&self.strkey) }
    }
}

/// Lifecycle state of a registered transaction.
///
/// `Pending -> Processing -> Completed`, and `Pending | Processing -> Failed`.
#[derive(Clone, Copy, PartialEq, Eq, Structural, Debug)]
pub enum TransactionStatus {
    Pending,
    Processing,
    Completed,
    Failed,
}

/// Kind of Anchor Platform callback that produced a transaction.
#[derive(Clone, Copy, PartialEq, Eq, Structural, Debug)]
pub enum CallbackType {
    Deposit,
    Withdrawal,
}

/// Errors returned by the contract entry points.
#[derive(Clone, Copy, PartialEq, Eq, Structural, Debug)]
pub enum ContractError {
    AlreadyInitialised,
    NotInitialised,
    Unauthorised,
    NotRelaySigner,
    TransactionNotFound,
    InvalidStatusTransition,
    DuplicateRequest,
    InvalidStellarAccount,
    InvalidAmount,
    InvalidAssetCode,
    InvalidAssetIssuer,
    MissingIdempotencyKey,
    StringTooLong,
    StorageError,
    ContractPaused,
}

/// A registered deposit and its lifecycle state, as stored on the ledger.
#[derive(Clone, Debug, PartialEq)]
pub struct Transaction {
    pub id: Vec<u8>,
    pub stellar_account: Vec<u8>,
    pub amount: i128,
    pub asset_code: Vec<u8>,
    pub asset_issuer: Vec<u8>,
    pub status: TransactionStatus,
    pub created_at_ledger: u32,
    pub updated_at_ledger: u32,
    pub anchor_transaction_id: Vec<u8>,
    pub callback_type: CallbackType,
    pub callback_status: Vec<u8>,
    pub stellar_tx_hash: Vec<u8>,
    pub failure_reason: Vec<u8>,
}

/// The mathematical value of a [`Transaction`]: its byte strings as sequences.
pub struct TransactionView {
    pub id: Seq<u8>,
    pub stellar_account: Seq<u8>,
    pub amount: i128,
    pub asset_code: Seq<u8>,
    pub asset_issuer: Seq<u8>,
    pub status: TransactionStatus,
    pub created_at_ledger: u32,
    pub updated_at_ledger: u32,
    pub anchor_transaction_id: Seq<u8>,
    pub callback_type: CallbackType,
    pub callback_status: Seq<u8>,
    pub stellar_tx_hash: Seq<u8>,
    pub failure_reason: Seq<u8>,
}

impl View for Transaction {
    type V = TransactionView;

    open spec fn view(&self) -> TransactionView {
        TransactionView {
            id: self.id@,
            stellar_account: self.stellar_account@,
            amount: self.amount,
            asset_code: self.asset_code@,
            asset_issuer: self.asset_issuer@,
            status: self.status,
            created_at_ledger: self.created_at_ledger,
            updated_at_ledger: self.updated_at_ledger,
            anchor_transaction_id: self.anchor_transaction_id@,
            callback_type: self.callback_type,
            callback_status: self.callback_status@,
            stellar_tx_hash: self.stellar_tx_hash@,
            failure_reason: self.failure_reason@,
        }
    }
}

impl Transaction {
    /// A copy of this record.
    pub fn duplicate(&self) -> (t: Transaction)
        ensures
            t@ == self@,
    {
        Transaction {
            id: copy_bytes(&self.id),
            stellar_account: copy_bytes(&self.stellar_account),
            amount: self.amount,
            asset_code: copy_bytes(&self.asset_code),
            asset_issuer: copy_bytes(&self.asset_issuer),
            status: self.status,
            created_at_ledger: self.created_at_ledger,
            updated_at_ledger: self.updated_at_ledger,
            anchor_transaction_id: copy_bytes(&self.anchor_transaction_id),
            callback_type: self.callback_type,
            callback_status: copy_bytes(&self.callback_status),
            stellar_tx_hash: copy_bytes(&self.stellar_tx_hash),
            failure_reason: copy_bytes(&self.failure_reason),
        }
    }
}

/// An Anchor Platform callback as forwarded by the relay.
#[derive(Clone, Debug, PartialEq)]
pub struct CallbackPayload {
    pub transaction_id: Vec<u8>,
    pub stellar_account: Vec<u8>,
    pub amount: i128,
    pub asset_code: Vec<u8>,
    pub asset_issuer: Vec<u8>,
    pub idempotency_key: Vec<u8>,
    pub anchor_transaction_id: Vec<u8>,
    pub callback_type: CallbackType,
    pub callback_status: Vec<u8>,
}

/// The mathematical value of a [`CallbackPayload`].
pub struct CallbackPayloadView {
    pub transaction_id: Seq<u8>,
    pub stellar_account: Seq<u8>,
    pub amount: i128,
    pub asset_code: Seq<u8>,
    pub asset_issuer: Seq<u8>,
    pub idempotency_key: Seq<u8>,
    pub anchor_transaction_id: Seq<u8>,
    pub callback_type: CallbackType,
    pub callback_status: Seq<u8>,
}

impl View for CallbackPayload {
    type V = CallbackPayloadView;

    open spec fn view(&self) -> CallbackPayloadView {
        CallbackPayloadView {
            transaction_id: self.transaction_id@,
            stellar_account: self.stellar_account@,
            amount: self.amount,
            asset_code: self.asset_code@,
            asset_issuer: self.asset_issuer@,
            idempotency_key: self.idempotency_key@,
            anchor_transaction_id: self.anchor_transaction_id@,
            callback_type: self.callback_type,
            callback_status: self.callback_status@,
        }
    }
}

/// The host context of one contract invocation: the ledger sequence it runs
/// in and the addresses whose authorisation it carries (every address, when
/// `all_authorised` is set).
#[derive(Debug)]
pub struct Invocation {
    pub ledger: u32,
    pub all_authorised: bool,
    pub signers: Vec<Address>,
}

/// The mathematical value of an [`Invocation`].
pub struct InvocationView {
    pub ledger: u32,
    pub all_authorised: bool,
    pub signers: Seq<Seq<u8>>,
}

impl View for Invocation {
    type V = InvocationView;

    open spec fn view(&self) -> InvocationView {
        InvocationView {
            ledger: self.ledger,
            all_authorised: self.all_authorised,
            signers: self.signers@.map_values(|a: Address| a@),
        }
    }
}

/// The invocation carries the authorisation of address `a`.
pub open spec fn authorises(inv: InvocationView, a: Seq<u8>) -> bool {
    inv.all_authorised || inv.signers.contains(a)
}

impl Invocation {
    /// An invocation at ledger `ledger` authorised by exactly `signers`.
    pub fn signed_by(ledger: u32, signers: Vec<Address>) -> (inv: Invocation)
        ensures
            inv.ledger == ledger,
            !inv.all_authorised,
            inv.signers@ == signers@,
    {
        Invocation { ledger, all_authorised: false, signers }
    }

    /// An invocation at ledger `ledger` that carries every address's
    /// authorisation.
    pub fn authorised_by_all(ledger: u32) -> (inv: Invocation)
        ensures
            inv.ledger == ledger,
            inv.all_authorised,
            inv.signers@.len() == 0,
    {
        Invocation { ledger, all_authorised: true, signers: Vec::new() }
    }

    /// Whether the invocation carries the authorisation of `a`.
    pub fn authorises(&self, a: &Address) -> (r: bool)
        ensures
            r == authorises(self@, a@),
    {
        if self.all_authorised {
            return true;
        }
        let mut i: usize = 0;
        while i < self.signers.len()
            invariant
                0 <= i <= self.signers@.len(),
                !self.all_authorised,
                forall|j: int| 0 <= j < i ==> (#[trigger] self.signers@[j])@ != a@,
            decreases self.signers@.len() - i,
        {
            if self.signers[i].same_as(a) {
                assert(self@.signers[i as int] == a@);
                return true;
            }
            i = i + 1;
        }
        assert(!self@.signers.contains(a@)) by {
            if self@.signers.contains(a@) {
                let j = choose|j: int| 0 <= j < self@.signers.len() && self@.signers[j] == a@;
                assert(self.signers@[j]@ == a@);
            }
        }
        false
    }
}

} // verus!
