//! Properties of every state the registry can reach: a run is a sequence of
//! state-changing calls, each with its invocation, applied to a freshly
//! deployed contract.

use vstd::prelude::*;

use crate::contract::{
    complete_transaction_step, deployed, fail_transaction_step, initialize_step, is_terminal,
    register_callback_step, set_pause_step, set_relay_signer_step, start_processing_step,
    transfer_admin_step, upgrade_step, ContractView,
};
use crate::laws::{
    law_only_pause_calls_change_the_flag, law_outcome_fields_consistent,
    law_terminal_records_unchanged, outcome_fields_consistent, terminal_records_kept,
};
use crate::storage::LedgerState;
use crate::types::{CallbackPayloadView, CallbackType, InvocationView};

verus! {

/// One state-changing entry point with its arguments.
pub enum Call {
    Initialize { admin: Seq<u8>, relay_signer: Seq<u8> },
    RegisterCallback { payload: CallbackPayloadView },
    StartProcessing { tx_id: Seq<u8>, caller: Seq<u8> },
    CompleteTransaction { tx_id: Seq<u8>, stellar_tx_hash: Seq<u8>, caller: Seq<u8> },
    FailTransaction { tx_id: Seq<u8>, reason: Seq<u8>, caller: Seq<u8> },
    TransferAdmin { new_admin: Seq<u8> },
    SetRelaySigner { new_signer: Seq<u8> },
    Upgrade { new_wasm_hash: Seq<u8> },
    SetPause { paused: bool },
}

/// The state after call `c` under invocation `inv`, and whether it succeeded.
pub open spec fn apply(s: ContractView, inv: InvocationView, c: Call) -> (ContractView, bool) {
    match c {
        Call::Initialize { admin, relay_signer } => {
            let (t, r) = initialize_step(s, inv, admin, relay_signer);
            (t, r is Ok)
        },
        Call::RegisterCallback { payload } => {
            let (t, r) = register_callback_step(s, inv, payload);
            (t, r is Ok)
        },
        Call::StartProcessing { tx_id, caller } => {
            let (t, r) = start_processing_step(s, inv, tx_id, caller);
            (t, r is Ok)
        },
        Call::CompleteTransaction { tx_id, stellar_tx_hash, caller } => {
            let (t, r) = complete_transaction_step(s, inv, tx_id, stellar_tx_hash, caller);
            (t, r is Ok)
        },
        Call::FailTransaction { tx_id, reason, caller } => {
            let (t, r) = fail_transaction_step(s, inv, tx_id, reason, caller);
            (t, r is Ok)
        },
        Call::TransferAdmin { new_admin } => {
            let (t, r) = transfer_admin_step(s, inv, new_admin);
            (t, r is Ok)
        },
        Call::SetRelaySigner { new_signer } => {
            let (t, r) = set_relay_signer_step(s, inv, new_signer);
            (t, r is Ok)
        },
        Call::Upgrade { new_wasm_hash } => {
            let (t, r) = upgrade_step(s, inv, new_wasm_hash);
            (t, r is Ok)
        },
        Call::SetPause { paused } => {
            let (t, r) = set_pause_step(s, inv, paused);
            (t, r is Ok)
        },
    }
}

/// The state after applying `calls` in order to `s`.
pub open spec fn run(s: ContractView, calls: Seq<(InvocationView, Call)>) -> ContractView
    decreases calls.len(),
{
    if calls.len() == 0 {
        s
    } else {
        apply(run(s, calls.drop_last()), calls.last().0, calls.last().1).0
    }
}

/// The ledger sequence never goes backwards along `calls`.
pub open spec fn ledgers_non_decreasing(calls: Seq<(InvocationView, Call)>) -> bool {
    forall|i: int, j: int|
        0 <= i <= j < calls.len() ==> (#[trigger] calls[i]).0.ledger <= (#[trigger] calls[j]).0.ledger
}

/// Every record was updated no earlier than it was created, and no later
/// than ledger `ledger`.
pub open spec fn stamps_bounded(s: LedgerState, ledger: u32) -> bool {
    forall|id: Seq<u8>| #[trigger]
        s.transactions.contains_key(id) ==> s.transactions[id].created_at_ledger
            <= s.transactions[id].updated_at_ledger <= ledger
}

/// Call `c` sets or clears the pause flag: a successful `initialize`,
/// `pause` or `unpause`.
pub open spec fn sets_pause_flag(s: ContractView, inv: InvocationView, c: Call) -> bool {
    match c {
        Call::Initialize { .. } => apply(s, inv, c).1,
        Call::SetPause { .. } => apply(s, inv, c).1,
        _ => false,
    }
}

/// A payload with every field empty, for laws whose payload argument a
/// call does not use.
spec fn empty_payload() -> CallbackPayloadView {
    CallbackPayloadView {
        transaction_id: Seq::empty(),
        stellar_account: Seq::empty(),
        amount: 0,
        asset_code: Seq::empty(),
        asset_issuer: Seq::empty(),
        idempotency_key: Seq::empty(),
        anchor_transaction_id: Seq::empty(),
        callback_type: CallbackType::Deposit,
        callback_status: Seq::empty(),
    }
}

proof fn lemma_apply_keeps_stamps(s: ContractView, inv: InvocationView, c: Call, bound: u32)
    requires
        stamps_bounded(s.storage, bound),
        bound <= inv.ledger,
        outcome_fields_consistent(s.storage),
    ensures
        stamps_bounded(apply(s, inv, c).0.storage, inv.ledger),
        outcome_fields_consistent(apply(s, inv, c).0.storage),
{
    let t = apply(s, inv, c).0.storage;
    let any_payload = empty_payload();
    match c {
        Call::RegisterCallback { payload } => {
            law_outcome_fields_consistent(s, inv, payload, Seq::empty(), Seq::empty(), Seq::empty(), false);
        },
        Call::StartProcessing { tx_id, caller } => {
            law_outcome_fields_consistent(s, inv, any_payload, tx_id, Seq::empty(), caller, false);
        },
        Call::CompleteTransaction { tx_id, stellar_tx_hash, caller } => {
            law_outcome_fields_consistent(s, inv, any_payload, tx_id, stellar_tx_hash, caller, false);
        },
        Call::FailTransaction { tx_id, reason, caller } => {
            law_outcome_fields_consistent(s, inv, any_payload, tx_id, reason, caller, false);
        },
        _ => {},
    }
    assert forall|id: Seq<u8>| #[trigger] t.transactions.contains_key(id) implies t.transactions[id].created_at_ledger
        <= t.transactions[id].updated_at_ledger <= inv.ledger by {
        if s.storage.transactions.contains_key(id) {
            assert(s.storage.transactions[id].created_at_ledger <= s.storage.transactions[id].updated_at_ledger);
        }
    }
}

proof fn lemma_run_stamps(calls: Seq<(InvocationView, Call)>)
    requires
        ledgers_non_decreasing(calls),
    ensures
        outcome_fields_consistent(run(deployed(), calls).storage),
        calls.len() == 0 ==> run(deployed(), calls).storage.transactions.is_empty(),
        calls.len() > 0 ==> stamps_bounded(run(deployed(), calls).storage, calls.last().0.ledger),
    decreases calls.len(),
{
    if calls.len() == 0 {
        assert(run(deployed(), calls).storage.transactions =~= Map::empty());
    } else {
        let prev = calls.drop_last();
        let (inv, c) = calls.last();
        assert(ledgers_non_decreasing(prev)) by {
            assert forall|i: int, j: int| 0 <= i <= j < prev.len() implies (#[trigger] prev[i]).0.ledger
                <= (#[trigger] prev[j]).0.ledger by {
                assert(prev[i] == calls[i] && prev[j] == calls[j]);
            }
        }
        lemma_run_stamps(prev);
        let s = run(deployed(), prev);
        if prev.len() > 0 {
            assert(prev.last() == calls[prev.len() - 1]);
            assert(calls[prev.len() - 1].0.ledger <= calls[calls.len() - 1].0.ledger);
            let b = prev.last().0.ledger;
            assert forall|id: Seq<u8>| #[trigger] s.storage.transactions.contains_key(id) implies s.storage.transactions[id].created_at_ledger
                <= s.storage.transactions[id].updated_at_ledger <= inv.ledger by {
                assert(s.storage.transactions[id].updated_at_ledger <= b);
            }
        }
        assert(stamps_bounded(s.storage, inv.ledger));
        lemma_apply_keeps_stamps(s, inv, c, inv.ledger);
    }
}

proof fn lemma_apply_keeps_terminal_records(s: ContractView, inv: InvocationView, c: Call)
    ensures
        terminal_records_kept(s.storage, apply(s, inv, c).0.storage),
{
    let any_payload = empty_payload();
    let e = Seq::<u8>::empty();
    match c {
        Call::Initialize { admin, relay_signer } => {
            law_terminal_records_unchanged(s, inv, any_payload, e, relay_signer, admin, false);
        },
        Call::RegisterCallback { payload } => {
            law_terminal_records_unchanged(s, inv, payload, e, e, e, false);
        },
        Call::StartProcessing { tx_id, caller } => {
            law_terminal_records_unchanged(s, inv, any_payload, tx_id, e, caller, false);
        },
        Call::CompleteTransaction { tx_id, stellar_tx_hash, caller } => {
            law_terminal_records_unchanged(s, inv, any_payload, tx_id, stellar_tx_hash, caller, false);
        },
        Call::FailTransaction { tx_id, reason, caller } => {
            law_terminal_records_unchanged(s, inv, any_payload, tx_id, reason, caller, false);
        },
        Call::TransferAdmin { new_admin } => {
            law_terminal_records_unchanged(s, inv, any_payload, e, e, new_admin, false);
        },
        Call::SetRelaySigner { new_signer } => {
            law_terminal_records_unchanged(s, inv, any_payload, e, e, new_signer, false);
        },
        Call::Upgrade { new_wasm_hash } => {
            law_terminal_records_unchanged(s, inv, any_payload, e, new_wasm_hash, e, false);
        },
        Call::SetPause { paused } => {
            law_terminal_records_unchanged(s, inv, any_payload, e, e, e, paused);
        },
    }
}

proof fn lemma_run_keeps_terminal_records(calls: Seq<(InvocationView, Call)>, k: int)
    requires
        0 <= k <= calls.len(),
    ensures
        terminal_records_kept(run(deployed(), calls.take(k)).storage, run(deployed(), calls).storage),
    decreases calls.len(),
{
    let a = run(deployed(), calls.take(k)).storage;
    if k == calls.len() {
        assert(calls.take(k) =~= calls);
    } else {
        let prev = calls.drop_last();
        assert(prev.take(k) =~= calls.take(k));
        lemma_run_keeps_terminal_records(prev, k);
        let b = run(deployed(), prev);
        lemma_apply_keeps_terminal_records(b, calls.last().0, calls.last().1);
        let c = run(deployed(), calls).storage;
        assert forall|id: Seq<u8>| #[trigger]
            a.transactions.contains_key(id) && is_terminal(a.transactions[id].status) implies c.transactions.contains_key(id)
                && c.transactions[id] == a.transactions[id] by {
            assert(b.storage.transactions.contains_key(id));
            assert(b.storage.transactions[id] == a.transactions[id]);
        }
    }
}

/// In every state reached from a freshly deployed contract by calls whose
/// ledger never goes backwards: every record was updated no earlier than it
/// was created; only a `Completed` record carries a settlement hash and only
/// a `Failed` one a failure reason; and a record that was `Completed` or
/// `Failed` after any earlier call is still there, unchanged.
pub proof fn law_reachable_states_are_consistent(calls: Seq<(InvocationView, Call)>, k: int)
    requires
        ledgers_non_decreasing(calls),
        0 <= k <= calls.len(),
    ensures
        forall|id: Seq<u8>| #[trigger]
            run(deployed(), calls).storage.transactions.contains_key(id) ==> run(
                deployed(),
                calls,
            ).storage.transactions[id].created_at_ledger <= run(
                deployed(),
                calls,
            ).storage.transactions[id].updated_at_ledger,
        outcome_fields_consistent(run(deployed(), calls).storage),
        terminal_records_kept(run(deployed(), calls.take(k)).storage, run(deployed(), calls).storage),
{
    lemma_run_stamps(calls);
    lemma_run_keeps_terminal_records(calls, k);
}

/// Along any run, the pause flag after the calls from `k` on is the flag
/// before them, unless one of them is a successful `initialize`, `pause` or
/// `unpause`.
pub proof fn law_pause_flag_persists(s: ContractView, calls: Seq<(InvocationView, Call)>, k: int)
    requires
        0 <= k <= calls.len(),
        forall|j: int|
            k <= j < calls.len() ==> !sets_pause_flag(
                #[trigger] run(s, calls.take(j)),
                calls[j].0,
                calls[j].1,
            ),
    ensures
        run(s, calls).storage.paused == run(s, calls.take(k)).storage.paused,
    decreases calls.len(),
{
    if k == calls.len() {
        assert(calls.take(k) =~= calls);
    } else {
        let n = calls.len() - 1;
        let prev = calls.drop_last();
        assert(prev.take(k) =~= calls.take(k));
        assert forall|j: int| k <= j < prev.len() implies !sets_pause_flag(
            #[trigger] run(s, prev.take(j)),
            prev[j].0,
            prev[j].1,
        ) by {
            assert(prev.take(j) =~= calls.take(j));
            assert(prev[j] == calls[j]);
            assert(!sets_pause_flag(run(s, calls.take(j)), calls[j].0, calls[j].1));
        }
        law_pause_flag_persists(s, prev, k);
        assert(calls.take(n) =~= prev);
        assert(!sets_pause_flag(run(s, calls.take(n)), calls[n].0, calls[n].1));
        let b = run(s, prev);
        let (inv, c) = calls.last();
        let any_payload = empty_payload();
        let e = Seq::<u8>::empty();
        match c {
            Call::RegisterCallback { payload } => {
                law_only_pause_calls_change_the_flag(b, inv, payload, e, e, e, false);
            },
            Call::StartProcessing { tx_id, caller } => {
                law_only_pause_calls_change_the_flag(b, inv, any_payload, tx_id, e, caller, false);
            },
            Call::CompleteTransaction { tx_id, stellar_tx_hash, caller } => {
                law_only_pause_calls_change_the_flag(b, inv, any_payload, tx_id, stellar_tx_hash, caller, false);
            },
            Call::FailTransaction { tx_id, reason, caller } => {
                law_only_pause_calls_change_the_flag(b, inv, any_payload, tx_id, reason, caller, false);
            },
            _ => {},
        }
    }
}

} // verus!
