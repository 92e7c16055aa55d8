//! Typed events announced at every state change.
//!
//! Each event goes out under two topics, the namespace `synapse` and a short
//! event name (`init`, `reg`, `status`, `done`, `fail`, `admin`, `relay`,
//! `upgrade`, `pause`), with one of the structs below as its data.

use vstd::prelude::*;

use crate::types::{copy_bytes, Address, Transaction, TransactionStatus};

verus! {

/// Emitted by `initialize`.
#[derive(Debug)]
pub struct EventInitialised {
    pub admin: Address,
    pub relay_signer: Address,
    pub ledger: u32,
}

/// Emitted by `register_callback` when a transaction is stored (not on an
/// idempotent replay).
#[derive(Debug)]
pub struct EventTransactionRegistered {
    pub tx_id: Vec<u8>,
    pub stellar_account: Vec<u8>,
    pub amount: i128,
    pub asset_code: Vec<u8>,
    pub anchor_transaction_id: Vec<u8>,
    pub ledger: u32,
}

/// Emitted on every status change made by `start_processing`,
/// `complete_transaction` or `fail_transaction`.
#[derive(Debug)]
pub struct EventStatusChanged {
    pub tx_id: Vec<u8>,
    pub old_status: TransactionStatus,
    pub new_status: TransactionStatus,
    pub ledger: u32,
}

/// Emitted when a transaction reaches the terminal state `Completed`.
#[derive(Debug)]
pub struct EventTransactionCompleted {
    pub tx_id: Vec<u8>,
    pub stellar_tx_hash: Vec<u8>,
    pub ledger: u32,
}

/// Emitted when a transaction reaches the terminal state `Failed`.
#[derive(Debug)]
pub struct EventTransactionFailed {
    pub tx_id: Vec<u8>,
    pub reason: Vec<u8>,
    pub ledger: u32,
}

/// Emitted when the admin role is transferred.
#[derive(Debug)]
pub struct EventAdminTransferred {
    pub old_admin: Address,
    pub new_admin: Address,
    pub ledger: u32,
}

/// Emitted when the admin rotates the trusted relay signer.
#[derive(Debug)]
pub struct EventRelaySignerRotated {
    pub old_signer: Address,
    pub new_signer: Address,
    pub ledger: u32,
}

/// Emitted by `upgrade` when the contract code is replaced in place.
#[derive(Debug)]
pub struct EventContractUpgraded {
    pub admin: Address,
    pub new_wasm_hash: [u8; 32],
    pub ledger: u32,
}

/// Emitted by `pause` / `unpause` whenever the circuit breaker is toggled.
#[derive(Debug)]
pub struct EventPauseToggled {
    pub paused: bool,
    pub admin: Address,
    pub ledger: u32,
}

/// One published event.
#[derive(Debug)]
pub enum ContractEvent {
    Initialised(EventInitialised),
    TransactionRegistered(EventTransactionRegistered),
    StatusChanged(EventStatusChanged),
    TransactionCompleted(EventTransactionCompleted),
    TransactionFailed(EventTransactionFailed),
    AdminTransferred(EventAdminTransferred),
    RelaySignerRotated(EventRelaySignerRotated),
    ContractUpgraded(EventContractUpgraded),
    PauseToggled(EventPauseToggled),
}

/// The mathematical value of a published event.
pub enum EventView {
    Initialised { admin: Seq<u8>, relay_signer: Seq<u8>, ledger: u32 },
    TransactionRegistered {
        tx_id: Seq<u8>,
        stellar_account: Seq<u8>,
        amount: i128,
        asset_code: Seq<u8>,
        anchor_transaction_id: Seq<u8>,
        ledger: u32,
    },
    StatusChanged {
        tx_id: Seq<u8>,
        old_status: TransactionStatus,
        new_status: TransactionStatus,
        ledger: u32,
    },
    TransactionCompleted { tx_id: Seq<u8>, stellar_tx_hash: Seq<u8>, ledger: u32 },
    TransactionFailed { tx_id: Seq<u8>, reason: Seq<u8>, ledger: u32 },
    AdminTransferred { old_admin: Seq<u8>, new_admin: Seq<u8>, ledger: u32 },
    RelaySignerRotated { old_signer: Seq<u8>, new_signer: Seq<u8>, ledger: u32 },
    ContractUpgraded { admin: Seq<u8>, new_wasm_hash: Seq<u8>, ledger: u32 },
    PauseToggled { paused: bool, admin: Seq<u8>, ledger: u32 },
}

impl View for ContractEvent {
    type V = EventView;

    open spec fn view(&self) -> EventView {
        match self {
            ContractEvent::Initialised(e) => EventView::Initialised {
                admin: e.admin@,
                relay_signer: e.relay_signer@,
                ledger: e.ledger,
            },
            ContractEvent::TransactionRegistered(e) => EventView::TransactionRegistered {
                tx_id: e.tx_id@,
                stellar_account: e.stellar_account@,
                amount: e.amount,
                asset_code: e.asset_code@,
                anchor_transaction_id: e.anchor_transaction_id@,
                ledger: e.ledger,
            },
            ContractEvent::StatusChanged(e) => EventView::StatusChanged {
                tx_id: e.tx_id@,
                old_status: e.old_status,
                new_status: e.new_status,
                ledger: e.ledger,
            },
            ContractEvent::TransactionCompleted(e) => EventView::TransactionCompleted {
                tx_id: e.tx_id@,
                stellar_tx_hash: e.stellar_tx_hash@,
                ledger: e.ledger,
            },
            ContractEvent::TransactionFailed(e) => EventView::TransactionFailed {
                tx_id: e.tx_id@,
                reason: e.reason@,
                ledger: e.ledger,
            },
            ContractEvent::AdminTransferred(e) => EventView::AdminTransferred {
                old_admin: e.old_admin@,
                new_admin: e.new_admin@,
                ledger: e.ledger,
            },
            ContractEvent::RelaySignerRotated(e) => EventView::RelaySignerRotated {
                old_signer: e.old_signer@,
                new_signer: e.new_signer@,
                ledger: e.ledger,
            },
            ContractEvent::ContractUpgraded(e) => EventView::ContractUpgraded {
                admin: e.admin@,
                new_wasm_hash: e.new_wasm_hash@,
                ledger: e.ledger,
            },
            ContractEvent::PauseToggled(e) => EventView::PauseToggled {
                paused: e.paused,
                admin: e.admin@,
                ledger: e.ledger,
            },
        }
    }
}

/// The namespace topic every event carries first.
pub open spec fn event_namespace() -> &'static str {
    "synapse"
}

/// The event-name topic every event carries second.
pub open spec fn event_name(e: EventView) -> &'static str {
    match e {
        EventView::Initialised { .. } => "init",
        EventView::TransactionRegistered { .. } => "reg",
        EventView::StatusChanged { .. } => "status",
        EventView::TransactionCompleted { .. } => "done",
        EventView::TransactionFailed { .. } => "fail",
        EventView::AdminTransferred { .. } => "admin",
        EventView::RelaySignerRotated { .. } => "relay",
        EventView::ContractUpgraded { .. } => "upgrade",
        EventView::PauseToggled { .. } => "pause",
    }
}

impl ContractEvent {
    /// The two topics the event is published under: `synapse` and its name.
    pub fn topics(&self) -> (r: (&'static str, &'static str))
        ensures
            r.0 == event_namespace(),
            r.1 == event_name(self@),
    {
        let name = match self {
            ContractEvent::Initialised(_) => "init",
            ContractEvent::TransactionRegistered(_) => "reg",
            ContractEvent::StatusChanged(_) => "status",
            ContractEvent::TransactionCompleted(_) => "done",
            ContractEvent::TransactionFailed(_) => "fail",
            ContractEvent::AdminTransferred(_) => "admin",
            ContractEvent::RelaySignerRotated(_) => "relay",
            ContractEvent::ContractUpgraded(_) => "upgrade",
            ContractEvent::PauseToggled(_) => "pause",
        };
        ("synapse", name)
    }
}

/// The values of a list of events.
pub open spec fn events_view(v: Seq<ContractEvent>) -> Seq<EventView> {
    v.map_values(|e: ContractEvent| e@)
}

proof fn lemma_events_push(v: Seq<ContractEvent>, e: ContractEvent)
    ensures
        events_view(v.push(e)) == events_view(v).push(e@),
{
    assert(events_view(v.push(e)) =~= events_view(v).push(e@));
}

/// Publishes typed events into the log of the running invocation.
pub struct EventEmitter;

impl EventEmitter {
    fn publish(log: &mut Vec<ContractEvent>, e: ContractEvent)
        ensures
            events_view(final(log)@) == events_view(old(log)@).push(e@),
    {
        proof {
            lemma_events_push(log@, e);
        }
        log.push(e);
    }

    /// Publish [`EventInitialised`].
    pub fn initialised(
        log: &mut Vec<ContractEvent>,
        ledger: u32,
        admin: &Address,
        relay_signer: &Address,
    )
        ensures
            events_view(final(log)@) == events_view(old(log)@).push(
                EventView::Initialised { admin: admin@, relay_signer: relay_signer@, ledger },
            ),
    {
        Self::publish(
            log,
            ContractEvent::Initialised(
                EventInitialised {
                    admin: admin.duplicate(),
                    relay_signer: relay_signer.duplicate(),
                    ledger,
                },
            ),
        );
    }

    /// Publish [`EventTransactionRegistered`] for a newly stored transaction.
    pub fn transaction_registered(log: &mut Vec<ContractEvent>, ledger: u32, tx: &Transaction)
        ensures
            events_view(final(log)@) == events_view(old(log)@).push(
                EventView::TransactionRegistered {
                    tx_id: tx.id@,
                    stellar_account: tx.stellar_account@,
                    amount: tx.amount,
                    asset_code: tx.asset_code@,
                    anchor_transaction_id: tx.anchor_transaction_id@,
                    ledger,
                },
            ),
    {
        Self::publish(
            log,
            ContractEvent::TransactionRegistered(
                EventTransactionRegistered {
                    tx_id: copy_bytes(&tx.id),
                    stellar_account: copy_bytes(&tx.stellar_account),
                    amount: tx.amount,
                    asset_code: copy_bytes(&tx.asset_code),
                    anchor_transaction_id: copy_bytes(&tx.anchor_transaction_id),
                    ledger,
                },
            ),
        );
    }

    /// Publish [`EventContractUpgraded`].
    pub fn contract_upgraded(
        log: &mut Vec<ContractEvent>,
        ledger: u32,
        admin: &Address,
        new_wasm_hash: &[u8; 32],
    )
        ensures
            events_view(final(log)@) == events_view(old(log)@).push(
                EventView::ContractUpgraded {
                    admin: admin@,
                    new_wasm_hash: new_wasm_hash@,
                    ledger,
                },
            ),
    {
        Self::publish(
            log,
            ContractEvent::ContractUpgraded(
                EventContractUpgraded { admin: admin.duplicate(), new_wasm_hash: *new_wasm_hash, ledger },
            ),
        );
    }

    /// Publish [`EventPauseToggled`].
    pub fn pause_toggled(log: &mut Vec<ContractEvent>, ledger: u32, paused: bool, admin: &Address)
        ensures
            events_view(final(log)@) == events_view(old(log)@).push(
                EventView::PauseToggled { paused, admin: admin@, ledger },
            ),
    {
        Self::publish(
            log,
            ContractEvent::PauseToggled(EventPauseToggled { paused, admin: admin.duplicate(), ledger }),
        );
    }

    /// Publish [`EventStatusChanged`].
    pub fn status_changed(
        log: &mut Vec<ContractEvent>,
        ledger: u32,
        tx_id: &Vec<u8>,
        old_status: TransactionStatus,
        new_status: TransactionStatus,
    )
        ensures
            events_view(final(log)@) == events_view(old(log)@).push(
                EventView::StatusChanged { tx_id: tx_id@, old_status, new_status, ledger },
            ),
    {
        Self::publish(
            log,
            ContractEvent::StatusChanged(
                EventStatusChanged { tx_id: copy_bytes(tx_id), old_status, new_status, ledger },
            ),
        );
    }

    /// Publish [`EventTransactionCompleted`].
    pub fn transaction_completed(
        log: &mut Vec<ContractEvent>,
        ledger: u32,
        tx_id: &Vec<u8>,
        stellar_tx_hash: &Vec<u8>,
    )
        ensures
            events_view(final(log)@) == events_view(old(log)@).push(
                EventView::TransactionCompleted {
                    tx_id: tx_id@,
                    stellar_tx_hash: stellar_tx_hash@,
                    ledger,
                },
            ),
    {
        Self::publish(
            log,
            ContractEvent::TransactionCompleted(
                EventTransactionCompleted {
                    tx_id: copy_bytes(tx_id),
                    stellar_tx_hash: copy_bytes(stellar_tx_hash),
                    ledger,
                },
            ),
        );
    }

    /// Publish [`EventTransactionFailed`].
    pub fn transaction_failed(
        log: &mut Vec<ContractEvent>,
        ledger: u32,
        tx_id: &Vec<u8>,
        reason: &Vec<u8>,
    )
        ensures
            events_view(final(log)@) == events_view(old(log)@).push(
                EventView::TransactionFailed { tx_id: tx_id@, reason: reason@, ledger },
            ),
    {
        Self::publish(
            log,
            ContractEvent::TransactionFailed(
                EventTransactionFailed { tx_id: copy_bytes(tx_id), reason: copy_bytes(reason), ledger },
            ),
        );
    }

    /// Publish [`EventAdminTransferred`].
    pub fn admin_transferred(
        log: &mut Vec<ContractEvent>,
        ledger: u32,
        old_admin: &Address,
        new_admin: &Address,
    )
        ensures
            events_view(final(log)@) == events_view(old(log)@).push(
                EventView::AdminTransferred { old_admin: old_admin@, new_admin: new_admin@, ledger },
            ),
    {
        Self::publish(
            log,
            ContractEvent::AdminTransferred(
                EventAdminTransferred {
                    old_admin: old_admin.duplicate(),
                    new_admin: new_admin.duplicate(),
                    ledger,
                },
            ),
        );
    }

    /// Publish [`EventRelaySignerRotated`].
    pub fn relay_signer_rotated(
        log: &mut Vec<ContractEvent>,
        ledger: u32,
        old_signer: &Address,
        new_signer: &Address,
    )
        ensures
            events_view(final(log)@) == events_view(old(log)@).push(
                EventView::RelaySignerRotated {
                    old_signer: old_signer@,
                    new_signer: new_signer@,
                    ledger,
                },
            ),
    {
        Self::publish(
            log,
            ContractEvent::RelaySignerRotated(
                EventRelaySignerRotated {
                    old_signer: old_signer.duplicate(),
                    new_signer: new_signer.duplicate(),
                    ledger,
                },
            ),
        );
    }
}

} // verus!
