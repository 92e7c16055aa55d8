//! What the input guards accept, stated with the literal limits of the
//! registry: the length caps, the asset-code alphabet and the order in which
//! a callback's fields are checked.

use vstd::prelude::*;

use crate::types::{CallbackPayloadView, ContractError};
use crate::validation::{
    is_asset_code, is_ed25519_public_key_strkey, is_upper, payload_error, within_cap,
    MAX_ANCHOR_TX_ID_LEN, MAX_CALLBACK_STATUS_LEN, MAX_FAILURE_REASON_LEN,
    MAX_STELLAR_TX_HASH_LEN, MAX_TX_ID_LEN,
};

verus! {

/// An asset code is accepted exactly when it has 1 to 12 bytes and every
/// byte is an ASCII uppercase letter, `'A'` (65) to `'Z'` (90).
pub proof fn law_asset_code_accepted_iff(code: Seq<u8>)
    ensures
        is_asset_code(code) <==> (1 <= code.len() <= 12 && forall|i: int|
            0 <= i < code.len() ==> 65 <= #[trigger] code[i] <= 90),
{
    if is_asset_code(code) {
        assert forall|i: int| 0 <= i < code.len() implies 65 <= #[trigger] code[i] <= 90 by {
            assert(is_upper(code[i]));
        }
    }
    if 1 <= code.len() <= 12 && forall|i: int| 0 <= i < code.len() ==> 65 <= #[trigger] code[i] <= 90 {
        assert forall|i: int| 0 <= i < code.len() implies #[trigger] is_upper(code[i]) by {
            assert(65 <= code[i] <= 90);
        }
    }
}

/// The length caps: a transaction id or an anchor transaction id of at most
/// 64 bytes, a callback status of at most 32, a settlement hash of at most
/// 72 (a hex SHA-256 is 64) and a failure reason of at most 64.
pub proof fn law_length_caps(field: Seq<u8>)
    ensures
        within_cap(field, MAX_TX_ID_LEN) <==> field.len() <= 64,
        within_cap(field, MAX_ANCHOR_TX_ID_LEN) <==> field.len() <= 64,
        within_cap(field, MAX_CALLBACK_STATUS_LEN) <==> field.len() <= 32,
        within_cap(field, MAX_STELLAR_TX_HASH_LEN) <==> field.len() <= 72,
        within_cap(field, MAX_FAILURE_REASON_LEN) <==> field.len() <= 64,
{
}

/// A callback passes validation exactly when every field passes its own
/// check: account and issuer are valid account ids, the amount is positive,
/// the asset code has 1 to 12 letters `'A'..='Z'`, the idempotency key is
/// present, and the transaction id (at most 64 bytes), anchor transaction id
/// (at most 64) and callback status (at most 32) fit their caps.
pub proof fn law_payload_accepted_iff(p: CallbackPayloadView)
    ensures
        payload_error(p) is None <==> ({
            &&& is_ed25519_public_key_strkey(p.stellar_account)
            &&& p.amount > 0
            &&& 1 <= p.asset_code.len() <= 12
            &&& forall|i: int| 0 <= i < p.asset_code.len() ==> 65 <= #[trigger] p.asset_code[i] <= 90
            &&& is_ed25519_public_key_strkey(p.asset_issuer)
            &&& p.idempotency_key.len() > 0
            &&& p.transaction_id.len() <= 64
            &&& p.anchor_transaction_id.len() <= 64
            &&& p.callback_status.len() <= 32
        }),
{
    law_asset_code_accepted_iff(p.asset_code);
}

/// A rejected callback reports the first failing check, in the order
/// account, amount, asset code, issuer, idempotency key, then the three
/// length caps; each error names the field that failed.
pub proof fn law_payload_first_error(p: CallbackPayloadView)
    ensures
        !is_ed25519_public_key_strkey(p.stellar_account) ==> payload_error(p) == Some(
            ContractError::InvalidStellarAccount,
        ),
        is_ed25519_public_key_strkey(p.stellar_account) && p.amount <= 0 ==> payload_error(p)
            == Some(ContractError::InvalidAmount),
        is_ed25519_public_key_strkey(p.stellar_account) && p.amount > 0 && (p.asset_code.len() == 0
            || p.asset_code.len() > 12 || exists|i: int|
            0 <= i < p.asset_code.len() && !(65 <= #[trigger] p.asset_code[i] <= 90))
            ==> payload_error(p) == Some(ContractError::InvalidAssetCode),
        payload_error(p) == Some(ContractError::InvalidAssetIssuer) <==> (is_ed25519_public_key_strkey(
            p.stellar_account,
        ) && p.amount > 0 && is_asset_code(p.asset_code) && !is_ed25519_public_key_strkey(
            p.asset_issuer,
        )),
        payload_error(p) == Some(ContractError::MissingIdempotencyKey) ==> p.idempotency_key.len()
            == 0,
        payload_error(p) == Some(ContractError::StringTooLong) <==> (is_ed25519_public_key_strkey(
            p.stellar_account,
        ) && p.amount > 0 && is_asset_code(p.asset_code) && is_ed25519_public_key_strkey(
            p.asset_issuer,
        ) && p.idempotency_key.len() > 0 && (p.transaction_id.len() > 64
            || p.anchor_transaction_id.len() > 64 || p.callback_status.len() > 32)),
{
    law_asset_code_accepted_iff(p.asset_code);
}

} // verus!
