//! Stateless guards that reject malformed inputs before they touch storage.
//!
//! Stellar account ids are checked in full (SEP-23 strkey): length, base32
//! alphabet, version byte and the CRC16-XModem checksum, so that well-shaped
//! typos are refused as well as malformed text.

use vstd::prelude::*;

use crate::types::{CallbackPayload, CallbackPayloadView, ContractError};

verus! {

/// Maximum length (in bytes) for a `transaction_id` field (UUIDv4 is 36 chars).
pub const MAX_TX_ID_LEN: u32 = 64;
/// Maximum length for `anchor_transaction_id` (opaque anchor id, typically <= 36).
pub const MAX_ANCHOR_TX_ID_LEN: u32 = 64;
/// Maximum length for `callback_status` (short code, e.g. "pending_external").
pub const MAX_CALLBACK_STATUS_LEN: u32 = 32;
/// Maximum length for `stellar_tx_hash` (SHA-256 hex is 64 chars).
pub const MAX_STELLAR_TX_HASH_LEN: u32 = 72;
/// Maximum length for `failure_reason` (short human-readable code).
pub const MAX_FAILURE_REASON_LEN: u32 = 64;
/// Maximum length of an asset code (SEP-11).
pub const MAX_ASSET_CODE_LEN: u32 = 12;

/// Encoded ed25519 public-key strkey length (SEP-23).
pub const STRKEY_ENCODED_LEN: u32 = 56;
/// Decoded length: 1 version byte + 32 key bytes + 2 checksum bytes.
pub const STRKEY_DECODED_LEN: usize = 35;
/// Version byte for ed25519 public keys (`6 << 3`); base32-encodes to `'G'`.
pub const VERSION_ED25519_PUBLIC_KEY: u8 = 48;
/// CRC16-XModem polynomial x^16 + x^12 + x^5 + 1.
pub const CRC16_XMODEM_POLY: u16 = 0x1021;

// ─── Base32 (RFC 4648 alphabet, unpadded) ────────────────────────────────────

/// The 5-bit value of a base32 alphabet character, if it is one.
pub open spec fn base32_digit(c: u8) -> Option<u8> {
    if 65 <= c && c <= 90 {
        Some((c - 65) as u8)
    } else if 50 <= c && c <= 55 {
        Some((c - 50 + 26) as u8)
    } else {
        None
    }
}

/// Every character of `s` belongs to the base32 alphabet.
pub open spec fn all_base32(s: Seq<u8>) -> bool {
    forall|i: int| 0 <= i < s.len() ==> (#[trigger] base32_digit(s[i])) is Some
}

/// The number that the base32 digits of `s` spell, most significant first.
pub open spec fn base32_number(s: Seq<u8>) -> nat
    decreases s.len(),
{
    if s.len() == 0 {
        0
    } else {
        let d: nat = match base32_digit(s.last()) {
            Some(v) => v as nat,
            None => 0,
        };
        base32_number(s.drop_last()) * 32 + d
    }
}

/// The number that the bytes of `b` spell, most significant first.
pub open spec fn bytes_number(b: Seq<u8>) -> nat
    decreases b.len(),
{
    if b.len() == 0 {
        0
    } else {
        bytes_number(b.drop_last()) * 256 + b.last() as nat
    }
}

/// The `len` low bytes of `n`, most significant first.
pub open spec fn be_bytes(n: nat, len: nat) -> Seq<u8>
    decreases len,
{
    if len == 0 {
        Seq::empty()
    } else {
        be_bytes(n / 256, (len - 1) as nat).push((n % 256) as u8)
    }
}

/// Powers of two.
pub open spec fn p2(n: nat) -> nat
    decreases n,
{
    if n == 0 {
        1
    } else {
        2 * p2((n - 1) as nat)
    }
}

proof fn lemma_p2_add(a: nat, b: nat)
    ensures
        p2(a + b) == p2(a) * p2(b),
    decreases b,
{
    if b == 0 {
        assert(p2(0) == 1);
        assert(a + b == a);
    } else {
        lemma_p2_add(a, (b - 1) as nat);
        assert((a + b - 1) as nat == a + (b - 1) as nat);
        assert(p2(a + b) == 2 * p2((a + b - 1) as nat));
        assert(p2(a) * p2(b) == p2(a) * (2 * p2((b - 1) as nat)));
        assert(p2(a) * (2 * p2((b - 1) as nat)) == 2 * (p2(a) * p2((b - 1) as nat)))
            by (nonlinear_arith);
    }
}

proof fn lemma_p2_small()
    ensures
        p2(0) == 1,
        p2(1) == 2,
        p2(2) == 4,
        p2(3) == 8,
        p2(4) == 16,
        p2(5) == 32,
        p2(8) == 256,
{
    reveal_with_fuel(p2, 9);
}

pub(crate) proof fn lemma_be_bytes_of_number(b: Seq<u8>)
    ensures
        be_bytes(bytes_number(b), b.len()) == b,
    decreases b.len(),
{
    if b.len() > 0 {
        let rest = b.drop_last();
        let x = bytes_number(rest);
        let y = b.last() as nat;
        lemma_be_bytes_of_number(rest);
        assert((x * 256 + y) / 256 == x && (x * 256 + y) % 256 == y) by (nonlinear_arith)
            requires
                y < 256,
        ;
        assert(be_bytes(bytes_number(b), b.len()) =~= rest.push(b.last()));
        assert(rest.push(b.last()) =~= b);
    }
}

/// Map a single base32 alphabet character to its 5-bit value.
pub fn base32_value(c: u8) -> (r: Result<u8, ()>)
    ensures
        match base32_digit(c) {
            Some(v) => r == Ok::<u8, ()>(v),
            None => r is Err,
        },
{
    if 65 <= c && c <= 90 {
        Ok(c - 65)
    } else if 50 <= c && c <= 55 {
        Ok(c - 50 + 26)
    } else {
        Err(())
    }
}

/// `2^n` for the shift amounts the decoder needs.
fn small_pow2(n: u32) -> (r: u32)
    requires
        n <= 4,
    ensures
        r as nat == p2(n as nat),
{
    proof {
        lemma_p2_small();
    }
    if n == 0 {
        1
    } else if n == 1 {
        2
    } else if n == 2 {
        4
    } else if n == 3 {
        8
    } else {
        16
    }
}

/// Decode an unpadded 56-character SEP-23 strkey into 35 raw bytes.
///
/// Succeeds exactly when every character is in the base32 alphabet; the bytes
/// are then the big-endian form of the 280-bit number the digits spell.
pub fn base32_decode_strkey(encoded: &[u8; 56]) -> (r: Result<[u8; 35], ()>)
    ensures
        r is Ok <==> all_base32(encoded@),
        r matches Ok(out) ==> out@ == be_bytes(base32_number(encoded@), 35),
{
    let mut out = [0u8; 35];
    let mut bit_buffer: u32 = 0;
    let mut bits_in_buffer: u32 = 0;
    let mut out_idx: usize = 0;
    let mut i: usize = 0;
    proof {
        lemma_p2_small();
        assert(encoded@.take(0) =~= Seq::<u8>::empty());
        assert(out@.take(0) =~= Seq::<u8>::empty());
    }
    while i < 56
        invariant
            0 <= i <= 56,
            encoded@.len() == 56,
            out@.len() == 35,
            bits_in_buffer < 8,
            5 * i == 8 * out_idx + bits_in_buffer,
            bit_buffer < p2(bits_in_buffer as nat),
            all_base32(encoded@.take(i as int)),
            base32_number(encoded@.take(i as int)) == bytes_number(out@.take(out_idx as int))
                * p2(bits_in_buffer as nat) + bit_buffer,
        decreases 56 - i,
    {
        let c = encoded[i];
        let val = match base32_value(c) {
            Ok(v) => v,
            Err(()) => {
                assert(base32_digit(encoded@[i as int]) is None);
                return Err(());
            },
        };
        let ghost prefix = encoded@.take(i as int);
        let ghost next = encoded@.take(i + 1);
        let ghost bv = bytes_number(out@.take(out_idx as int));
        let ghost pb = p2(bits_in_buffer as nat);
        proof {
            assert(next.drop_last() =~= prefix);
            assert(next.last() == c);
            assert(base32_number(next) == base32_number(prefix) * 32 + val);
            assert forall|j: int| 0 <= j < next.len() implies (#[trigger] base32_digit(
                next[j],
            )) is Some by {
                if j < i {
                    assert(next[j] == prefix[j]);
                }
            }
            lemma_p2_add(bits_in_buffer as nat, 5);
            lemma_p2_small();
            assert(bit_buffer * 32 + val < pb * 32) by (nonlinear_arith)
                requires
                    bit_buffer < pb,
                    val < 32,
            ;
            assert((bv * pb + bit_buffer) * 32 + val == bv * (pb * 32) + (bit_buffer * 32 + val))
                by (nonlinear_arith);
        }
        bit_buffer = bit_buffer * 32 + val as u32;
        bits_in_buffer = bits_in_buffer + 5;
        if bits_in_buffer >= 8 {
            bits_in_buffer = bits_in_buffer - 8;
            let p = small_pow2(bits_in_buffer);
            let byte = bit_buffer / p;
            let rem = bit_buffer % p;
            let ghost buf2 = bit_buffer;
            proof {
                lemma_p2_add(bits_in_buffer as nat, 8);
                assert(buf2 == byte * p + rem) by (nonlinear_arith)
                    requires
                        p > 0,
                        byte == buf2 / p,
                        rem == buf2 % p,
                ;
                assert(byte < 256) by (nonlinear_arith)
                    requires
                        p > 0,
                        byte == buf2 / p,
                        buf2 < p * 256,
                ;
                assert(bv * (p * 256) + buf2 == (bv * 256 + byte) * p + rem) by (nonlinear_arith)
                    requires
                        buf2 == byte * p + rem,
                ;
            }
            let ghost old_out = out@;
            out[out_idx] = byte as u8;
            proof {
                assert(out@.take(out_idx + 1).drop_last() =~= old_out.take(out_idx as int));
                assert(out@.take(out_idx + 1).last() == byte as u8);
            }
            out_idx = out_idx + 1;
            bit_buffer = rem;
        }
        i = i + 1;
    }
    if out_idx != STRKEY_DECODED_LEN || bits_in_buffer != 0 {
        return Err(());
    }
    proof {
        assert(encoded@.take(56) =~= encoded@);
        assert(out@.take(35) =~= out@);
        lemma_p2_small();
        assert(i == 56);
        assert(bit_buffer == 0);
        assert(base32_number(encoded@.take(56)) == bytes_number(out@.take(35)) * p2(0) + 0);
        assert(p2(0) == 1);
        let ghost bn = bytes_number(out@.take(35));
        assert(bn * p2(0) == bn) by (nonlinear_arith)
            requires
                p2(0) == 1,
        ;
        assert(base32_number(encoded@) == bytes_number(out@));
        lemma_be_bytes_of_number(out@);
    }
    Ok(out)
}

// ─── CRC16-XModem ─────────────────────────────────────────────────────────────

/// One bit step of CRC16-XModem.
pub open spec fn crc_shift(c: u16) -> u16 {
    if c & 0x8000 != 0 {
        (c << 1) ^ 0x1021
    } else {
        c << 1
    }
}

/// `n` bit steps of CRC16-XModem.
pub open spec fn crc_shift_n(c: u16, n: nat) -> u16
    decreases n,
{
    if n == 0 {
        c
    } else {
        crc_shift(crc_shift_n(c, (n - 1) as nat))
    }
}

/// Fold one byte into a running CRC16-XModem value.
pub open spec fn crc_byte(c: u16, b: u8) -> u16 {
    crc_shift_n(c ^ ((b as u16) << 8u16), 8)
}

/// CRC16-XModem of `data` (initial value 0, no final XOR).
pub open spec fn crc16_spec(data: Seq<u8>) -> u16
    decreases data.len(),
{
    if data.len() == 0 {
        0
    } else {
        crc_byte(crc16_spec(data.drop_last()), data.last())
    }
}

/// CRC16-XModem (init 0, no final XOR) used by Stellar strkeys.
pub fn crc16_xmodem(data: &[u8]) -> (crc: u16)
    ensures
        crc == crc16_spec(data@),
{
    let mut crc: u16 = 0;
    let mut i: usize = 0;
    proof {
        assert(data@.take(0) =~= Seq::<u8>::empty());
    }
    while i < data.len()
        invariant
            0 <= i <= data@.len(),
            crc == crc16_spec(data@.take(i as int)),
        decreases data@.len() - i,
    {
        let byte = data[i];
        let ghost before = crc;
        crc = crc ^ ((byte as u16) << 8u16);
        let ghost start = crc;
        let mut k: u32 = 0;
        while k < 8
            invariant
                0 <= k <= 8,
                crc == crc_shift_n(start, k as nat),
            decreases 8 - k,
        {
            if crc & 0x8000 != 0 {
                crc = (crc << 1u16) ^ CRC16_XMODEM_POLY;
            } else {
                crc = crc << 1u16;
            }
            k = k + 1;
        }
        proof {
            assert(data@.take(i + 1).drop_last() =~= data@.take(i as int));
            assert(crc == crc_byte(before, byte));
        }
        i = i + 1;
    }
    proof {
        assert(data@.take(data@.len() as int) =~= data@);
    }
    crc
}

// ─── SEP-23 ed25519 public-key strkeys ───────────────────────────────────────

/// The 35 bytes a 56-character strkey decodes to.
pub open spec fn strkey_bytes(s: Seq<u8>) -> Seq<u8> {
    be_bytes(base32_number(s), 35)
}

/// `s` is a valid SEP-23 ed25519 public-key strkey (a Stellar `G...` account
/// id): 56 base32 characters whose decoded form starts with the ed25519
/// version byte and ends with the little-endian CRC16-XModem of the first 33
/// decoded bytes.
pub open spec fn is_ed25519_public_key_strkey(s: Seq<u8>) -> bool {
    &&& s.len() == 56
    &&& all_base32(s)
    &&& strkey_bytes(s)[0] == VERSION_ED25519_PUBLIC_KEY
    &&& crc16_spec(strkey_bytes(s).take(33)) as int == strkey_bytes(s)[33] as int + 256
        * strkey_bytes(s)[34] as int
}

/// Verify a Stellar ed25519 public-key strkey (G-address) per SEP-23.
///
/// Steps: base32 decode, version byte, CRC16-XModem (little-endian).
pub fn verify_ed25519_public_key_strkey(encoded: &[u8; 56]) -> (r: Result<(), ()>)
    ensures
        r is Ok <==> is_ed25519_public_key_strkey(encoded@),
{
    let decoded = match base32_decode_strkey(encoded) {
        Ok(d) => d,
        Err(()) => return Err(()),
    };
    if decoded[0] != VERSION_ED25519_PUBLIC_KEY {
        return Err(());
    }
    let payload = &decoded[0..33];
    let expected: u16 = (decoded[33] as u16) + (decoded[34] as u16) * 256;
    proof {
        assert(payload@ =~= decoded@.take(33));
    }
    if crc16_xmodem(payload) != expected {
        return Err(());
    }
    Ok(())
}

// ─── Field guards ─────────────────────────────────────────────────────────────

/// `max` is respected by a field of `len` bytes.
pub open spec fn within_cap(field: Seq<u8>, max: u32) -> bool {
    field.len() <= max
}

/// Reject a byte string whose length exceeds `max`.
pub fn enforce_max_length(field: &[u8], max: u32) -> (r: Result<(), ContractError>)
    ensures
        r == (if within_cap(field@, max) {
            Ok::<(), ContractError>(())
        } else {
            Err(ContractError::StringTooLong)
        }),
{
    if field.len() > max as usize {
        return Err(ContractError::StringTooLong);
    }
    Ok(())
}

/// `c` is an ASCII uppercase letter.
pub open spec fn is_upper(c: u8) -> bool {
    65 <= c && c <= 90
}

/// `code` is a SEP-11 asset code as this registry accepts it: 1 to 12 ASCII
/// uppercase letters.
pub open spec fn is_asset_code(code: Seq<u8>) -> bool {
    &&& 1 <= code.len() <= MAX_ASSET_CODE_LEN
    &&& forall|i: int| 0 <= i < code.len() ==> #[trigger] is_upper(code[i])
}

/// The error (if any) that checking `account` as a Stellar account gives.
pub open spec fn account_check(account: Seq<u8>) -> Result<(), ContractError> {
    if is_ed25519_public_key_strkey(account) {
        Ok(())
    } else {
        Err(ContractError::InvalidStellarAccount)
    }
}

/// The first error that validating a callback payload meets, in the order
/// account, amount, asset code, asset issuer, idempotency key, transaction
/// id, anchor transaction id, callback status; `None` when it passes.
pub open spec fn payload_error(p: CallbackPayloadView) -> Option<ContractError> {
    if !is_ed25519_public_key_strkey(p.stellar_account) {
        Some(ContractError::InvalidStellarAccount)
    } else if p.amount <= 0 {
        Some(ContractError::InvalidAmount)
    } else if !is_asset_code(p.asset_code) {
        Some(ContractError::InvalidAssetCode)
    } else if !is_ed25519_public_key_strkey(p.asset_issuer) {
        Some(ContractError::InvalidAssetIssuer)
    } else if p.idempotency_key.len() == 0 {
        Some(ContractError::MissingIdempotencyKey)
    } else if !within_cap(p.transaction_id, MAX_TX_ID_LEN) {
        Some(ContractError::StringTooLong)
    } else if !within_cap(p.anchor_transaction_id, MAX_ANCHOR_TX_ID_LEN) {
        Some(ContractError::StringTooLong)
    } else if !within_cap(p.callback_status, MAX_CALLBACK_STATUS_LEN) {
        Some(ContractError::StringTooLong)
    } else {
        None
    }
}

/// Stateless input guards, each mapping to one [`ContractError`] variant.
pub struct Validator;

impl Validator {
    /// Validate an incoming [`CallbackPayload`] before writing to the ledger.
    ///
    /// Runs every sub-check and returns the first error encountered.
    pub fn validate_payload(payload: &CallbackPayload) -> (r: Result<(), ContractError>)
        ensures
            r == (match payload_error(payload@) {
                Some(e) => Err::<(), ContractError>(e),
                None => Ok(()),
            }),
    {
        Self::validate_stellar_account(&payload.stellar_account)?;
        Self::validate_amount(payload.amount)?;
        Self::validate_asset_code(&payload.asset_code)?;
        Self::validate_asset_issuer(&payload.asset_issuer)?;
        Self::validate_idempotency_key(&payload.idempotency_key)?;
        Self::validate_transaction_id(&payload.transaction_id)?;
        Self::validate_anchor_transaction_id(&payload.anchor_transaction_id)?;
        Self::validate_callback_status(&payload.callback_status)?;
        Ok(())
    }

    /// Stellar G-address: SEP-23 ed25519 public-key strkey with CRC16 checksum.
    ///
    /// Rejects wrong length or prefix, invalid base32, wrong version byte and
    /// checksum mismatches.
    pub fn validate_stellar_account(account: &[u8]) -> (r: Result<(), ContractError>)
        ensures
            r == account_check(account@),
    {
        if account.len() != STRKEY_ENCODED_LEN as usize {
            return Err(ContractError::InvalidStellarAccount);
        }
        let mut buf = [0u8; 56];
        let mut i: usize = 0;
        while i < 56
            invariant
                account@.len() == 56,
                buf@.len() == 56,
                0 <= i <= 56,
                forall|j: int| 0 <= j < i ==> buf@[j] == account@[j],
            decreases 56 - i,
        {
            buf[i] = account[i];
            i = i + 1;
        }
        assert(buf@ =~= account@);
        match verify_ed25519_public_key_strkey(&buf) {
            Ok(()) => Ok(()),
            Err(()) => Err(ContractError::InvalidStellarAccount),
        }
    }

    /// Amount must be strictly positive (> 0 stroops).
    pub fn validate_amount(amount: i128) -> (r: Result<(), ContractError>)
        ensures
            r == (if amount <= 0 {
                Err::<(), ContractError>(ContractError::InvalidAmount)
            } else {
                Ok(())
            }),
    {
        if amount <= 0 {
            return Err(ContractError::InvalidAmount);
        }
        Ok(())
    }

    /// Asset code: 1-12 ASCII uppercase characters (SEP-11).
    pub fn validate_asset_code(code: &[u8]) -> (r: Result<(), ContractError>)
        ensures
            r == (if is_asset_code(code@) {
                Ok::<(), ContractError>(())
            } else {
                Err(ContractError::InvalidAssetCode)
            }),
    {
        let len = code.len();
        if len == 0 || len > MAX_ASSET_CODE_LEN as usize {
            return Err(ContractError::InvalidAssetCode);
        }
        let mut i: usize = 0;
        while i < len
            invariant
                len == code@.len(),
                0 <= i <= len,
                forall|j: int| 0 <= j < i ==> #[trigger] is_upper(code@[j]),
            decreases len - i,
        {
            let byte = code[i];
            if !(65 <= byte && byte <= 90) {
                assert(!is_upper(code@[i as int]));
                return Err(ContractError::InvalidAssetCode);
            }
            i = i + 1;
        }
        Ok(())
    }

    /// Issuer: must be a valid G-address (same rule as the stellar account).
    pub fn validate_asset_issuer(issuer: &[u8]) -> (r: Result<(), ContractError>)
        ensures
            r == (if is_ed25519_public_key_strkey(issuer@) {
                Ok::<(), ContractError>(())
            } else {
                Err(ContractError::InvalidAssetIssuer)
            }),
    {
        match Self::validate_stellar_account(issuer) {
            Ok(()) => Ok(()),
            Err(_) => Err(ContractError::InvalidAssetIssuer),
        }
    }

    /// Idempotency key: non-empty (the relay enforces the UUID format).
    pub fn validate_idempotency_key(key: &[u8]) -> (r: Result<(), ContractError>)
        ensures
            r == (if key@.len() == 0 {
                Err::<(), ContractError>(ContractError::MissingIdempotencyKey)
            } else {
                Ok(())
            }),
    {
        if key.len() == 0 {
            return Err(ContractError::MissingIdempotencyKey);
        }
        Ok(())
    }

    /// Transaction id: maximum length enforced for rent cost control.
    pub fn validate_transaction_id(id: &[u8]) -> (r: Result<(), ContractError>)
        ensures
            r == (if within_cap(id@, MAX_TX_ID_LEN) {
                Ok::<(), ContractError>(())
            } else {
                Err(ContractError::StringTooLong)
            }),
    {
        enforce_max_length(id, MAX_TX_ID_LEN)
    }

    /// Anchor transaction id: maximum length enforced for rent cost control.
    pub fn validate_anchor_transaction_id(id: &[u8]) -> (r: Result<(), ContractError>)
        ensures
            r == (if within_cap(id@, MAX_ANCHOR_TX_ID_LEN) {
                Ok::<(), ContractError>(())
            } else {
                Err(ContractError::StringTooLong)
            }),
    {
        enforce_max_length(id, MAX_ANCHOR_TX_ID_LEN)
    }

    /// Callback status: maximum length enforced for rent cost control.
    pub fn validate_callback_status(status: &[u8]) -> (r: Result<(), ContractError>)
        ensures
            r == (if within_cap(status@, MAX_CALLBACK_STATUS_LEN) {
                Ok::<(), ContractError>(())
            } else {
                Err(ContractError::StringTooLong)
            }),
    {
        enforce_max_length(status, MAX_CALLBACK_STATUS_LEN)
    }

    /// Stellar transaction hash: maximum length enforced for rent cost control.
    pub fn validate_stellar_tx_hash(hash: &[u8]) -> (r: Result<(), ContractError>)
        ensures
            r == (if within_cap(hash@, MAX_STELLAR_TX_HASH_LEN) {
                Ok::<(), ContractError>(())
            } else {
                Err(ContractError::StringTooLong)
            }),
    {
        enforce_max_length(hash, MAX_STELLAR_TX_HASH_LEN)
    }

    /// Failure reason: maximum length enforced for rent cost control.
    pub fn validate_failure_reason(reason: &[u8]) -> (r: Result<(), ContractError>)
        ensures
            r == (if within_cap(reason@, MAX_FAILURE_REASON_LEN) {
                Ok::<(), ContractError>(())
            } else {
                Err(ContractError::StringTooLong)
            }),
    {
        enforce_max_length(reason, MAX_FAILURE_REASON_LEN)
    }
}

} // verus!
