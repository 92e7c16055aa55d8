use synapse_core_contract::types::{CallbackPayload, CallbackType, ContractError};
use synapse_core_contract::validation::{
    base32_decode_strkey, base32_value, crc16_xmodem, enforce_max_length,
    verify_ed25519_public_key_strkey, Validator,
};

// Fixtures: real SEP-23 shapes, not synthetic "G" + filler.
const FIXTURE_VALID: &str = "GA7QYNF7SOWQ3GLR2BGMZEHXAVIRZA4KVWLTJJFC7MGXUA74P7UJVSGZ";
// Same length and `G` prefix, one character changed so the CRC16 fails.
const FIXTURE_CHECKSUM_INVALID: &str = "GA7QYNF7SOWQ3GLR2BGMZEHXAVIRZA4KVWLTJJFC7MGXUA74P7UJVSGY";
const FIXTURE_MALFORMED_SHORT: &str = "GSHORT";
// `0` is not in the RFC 4648 base32 alphabet.
const FIXTURE_MALFORMED_ALPHABET: &str = "GAAAAAAAAAAAAAAA0AAAAAAAAAAAAAAAAAAAAAAAAAAAAAAAAAAAAAAA";
// Correct length but the `C` (contract) version prefix.
const FIXTURE_WRONG_PREFIX: &str = "CA7QYNF7SOWQ3GLR2BGMZEHXAVIRZA4KVWLTJJFC7MGXUA74P7UJVSGZ";

const ALPHABET: &[u8] = b"ABCDEFGHIJKLMNOPQRSTUVWXYZ234567";

fn payload() -> CallbackPayload {
    CallbackPayload {
        transaction_id: b"tx-1".to_vec(),
        stellar_account: FIXTURE_VALID.as_bytes().to_vec(),
        amount: 1_000,
        asset_code: b"USDC".to_vec(),
        asset_issuer: FIXTURE_VALID.as_bytes().to_vec(),
        idempotency_key: b"idem-1".to_vec(),
        anchor_transaction_id: b"anchor-1".to_vec(),
        callback_type: CallbackType::Deposit,
        callback_status: b"pending_external".to_vec(),
    }
}

#[test]
fn fixture_valid_address_passes() {
    assert_eq!(Validator::validate_stellar_account(FIXTURE_VALID.as_bytes()), Ok(()));
}

#[test]
fn fixture_checksum_invalid_is_rejected() {
    assert_eq!(FIXTURE_CHECKSUM_INVALID.len(), 56);
    assert!(FIXTURE_CHECKSUM_INVALID.starts_with('G'));
    assert_eq!(
        Validator::validate_stellar_account(FIXTURE_CHECKSUM_INVALID.as_bytes()),
        Err(ContractError::InvalidStellarAccount)
    );
}

#[test]
fn fixture_malformed_short_is_rejected() {
    assert_eq!(
        Validator::validate_stellar_account(FIXTURE_MALFORMED_SHORT.as_bytes()),
        Err(ContractError::InvalidStellarAccount)
    );
}

#[test]
fn fixture_malformed_alphabet_is_rejected() {
    assert_eq!(FIXTURE_MALFORMED_ALPHABET.len(), 56);
    assert_eq!(
        Validator::validate_stellar_account(FIXTURE_MALFORMED_ALPHABET.as_bytes()),
        Err(ContractError::InvalidStellarAccount)
    );
}

#[test]
fn fixture_wrong_prefix_is_rejected() {
    assert_eq!(FIXTURE_WRONG_PREFIX.len(), 56);
    assert_eq!(
        Validator::validate_stellar_account(FIXTURE_WRONG_PREFIX.as_bytes()),
        Err(ContractError::InvalidStellarAccount)
    );
}

#[test]
fn issuer_maps_checksum_failure_to_invalid_asset_issuer() {
    assert_eq!(
        Validator::validate_asset_issuer(FIXTURE_CHECKSUM_INVALID.as_bytes()),
        Err(ContractError::InvalidAssetIssuer)
    );
}

#[test]
fn crc16_matches_known_sep23_vector() {
    let mut buf = [0u8; 56];
    buf.copy_from_slice(FIXTURE_VALID.as_bytes());
    assert!(verify_ed25519_public_key_strkey(&buf).is_ok());
}

// ─── Further cases ────────────────────────────────────────────────────────────

#[test]
fn base32_value_maps_the_alphabet() {
    assert_eq!(base32_value(b'A'), Ok(0));
    assert_eq!(base32_value(b'Z'), Ok(25));
    assert_eq!(base32_value(b'2'), Ok(26));
    assert_eq!(base32_value(b'7'), Ok(31));
    assert_eq!(base32_value(b'0'), Err(()));
    assert_eq!(base32_value(b'1'), Err(()));
    assert_eq!(base32_value(b'8'), Err(()));
    assert_eq!(base32_value(b'a'), Err(()));
    assert_eq!(base32_value(b'='), Err(()));
}

#[test]
fn base32_decode_gives_version_byte_and_checksum() {
    let mut buf = [0u8; 56];
    buf.copy_from_slice(FIXTURE_VALID.as_bytes());
    let decoded = base32_decode_strkey(&buf).unwrap();
    assert_eq!(decoded[0], 48);
    let crc = crc16_xmodem(&decoded[..33]);
    assert_eq!(crc, u16::from_le_bytes([decoded[33], decoded[34]]));
}

#[test]
fn base32_decode_all_a_is_zero() {
    let buf = [b'A'; 56];
    assert_eq!(base32_decode_strkey(&buf), Ok([0u8; 35]));
    let buf = [b'7'; 56];
    assert_eq!(base32_decode_strkey(&buf), Ok([0xffu8; 35]));
}

#[test]
fn base32_decode_rejects_bad_character() {
    let mut buf = [0u8; 56];
    buf.copy_from_slice(FIXTURE_MALFORMED_ALPHABET.as_bytes());
    assert_eq!(base32_decode_strkey(&buf), Err(()));
}

#[test]
fn crc16_xmodem_check_value() {
    // The standard CRC-16/XMODEM check value over "123456789".
    assert_eq!(crc16_xmodem(b"123456789"), 0x31C3);
    assert_eq!(crc16_xmodem(b""), 0);
    assert_eq!(crc16_xmodem(&[0x00]), 0);
    assert_eq!(crc16_xmodem(&[0x01]), 0x1021);
}

#[test]
fn every_single_character_typo_of_a_valid_key_is_rejected() {
    let valid = FIXTURE_VALID.as_bytes();
    for i in 0..56 {
        for &c in ALPHABET {
            if c == valid[i] {
                continue;
            }
            let mut typo = valid.to_vec();
            typo[i] = c;
            assert_eq!(
                Validator::validate_stellar_account(&typo),
                Err(ContractError::InvalidStellarAccount),
                "typo at {} -> {}",
                i,
                c as char
            );
        }
    }
}

#[test]
fn account_length_must_be_exactly_56() {
    let mut long = FIXTURE_VALID.as_bytes().to_vec();
    long.push(b'A');
    assert_eq!(Validator::validate_stellar_account(&long), Err(ContractError::InvalidStellarAccount));
    assert_eq!(Validator::validate_stellar_account(b""), Err(ContractError::InvalidStellarAccount));
}

#[test]
fn amount_must_be_positive() {
    assert_eq!(Validator::validate_amount(1), Ok(()));
    assert_eq!(Validator::validate_amount(0), Err(ContractError::InvalidAmount));
    assert_eq!(Validator::validate_amount(-5), Err(ContractError::InvalidAmount));
    assert_eq!(Validator::validate_amount(i128::MAX), Ok(()));
}

#[test]
fn asset_code_is_one_to_twelve_uppercase_letters() {
    assert_eq!(Validator::validate_asset_code(b"USDC"), Ok(()));
    assert_eq!(Validator::validate_asset_code(b"A"), Ok(()));
    assert_eq!(Validator::validate_asset_code(b"ABCDEFGHIJKL"), Ok(()));
    assert_eq!(Validator::validate_asset_code(b"ABCDEFGHIJKLM"), Err(ContractError::InvalidAssetCode));
    assert_eq!(Validator::validate_asset_code(b""), Err(ContractError::InvalidAssetCode));
    assert_eq!(Validator::validate_asset_code(b"usdc"), Err(ContractError::InvalidAssetCode));
    assert_eq!(Validator::validate_asset_code(b"USD1"), Err(ContractError::InvalidAssetCode));
}

#[test]
fn length_caps_are_inclusive() {
    assert_eq!(enforce_max_length(&[b'x'; 32], 32), Ok(()));
    assert_eq!(enforce_max_length(&[b'x'; 33], 32), Err(ContractError::StringTooLong));
    assert_eq!(Validator::validate_transaction_id(&[b'x'; 64]), Ok(()));
    assert_eq!(Validator::validate_transaction_id(&[b'x'; 65]), Err(ContractError::StringTooLong));
    assert_eq!(Validator::validate_anchor_transaction_id(&[b'x'; 65]), Err(ContractError::StringTooLong));
    assert_eq!(Validator::validate_callback_status(&[b'x'; 33]), Err(ContractError::StringTooLong));
    assert_eq!(Validator::validate_stellar_tx_hash(&[b'x'; 72]), Ok(()));
    assert_eq!(Validator::validate_stellar_tx_hash(&[b'x'; 73]), Err(ContractError::StringTooLong));
    assert_eq!(Validator::validate_failure_reason(&[b'x'; 64]), Ok(()));
    assert_eq!(Validator::validate_failure_reason(&[b'x'; 65]), Err(ContractError::StringTooLong));
}

#[test]
fn idempotency_key_must_be_present() {
    assert_eq!(Validator::validate_idempotency_key(b"k"), Ok(()));
    assert_eq!(Validator::validate_idempotency_key(b""), Err(ContractError::MissingIdempotencyKey));
}

#[test]
fn payload_validation_reports_first_failure() {
    assert_eq!(Validator::validate_payload(&payload()), Ok(()));

    // Every check fails here: the account is checked first.
    let mut p = payload();
    p.stellar_account = b"GSHORT".to_vec();
    p.amount = 0;
    p.asset_code = b"usdc".to_vec();
    assert_eq!(Validator::validate_payload(&p), Err(ContractError::InvalidStellarAccount));

    let mut p = payload();
    p.amount = 0;
    p.asset_code = b"usdc".to_vec();
    assert_eq!(Validator::validate_payload(&p), Err(ContractError::InvalidAmount));

    let mut p = payload();
    p.asset_code = b"usdc".to_vec();
    p.asset_issuer = b"GSHORT".to_vec();
    assert_eq!(Validator::validate_payload(&p), Err(ContractError::InvalidAssetCode));

    let mut p = payload();
    p.asset_issuer = FIXTURE_WRONG_PREFIX.as_bytes().to_vec();
    p.idempotency_key = Vec::new();
    assert_eq!(Validator::validate_payload(&p), Err(ContractError::InvalidAssetIssuer));

    let mut p = payload();
    p.idempotency_key = Vec::new();
    p.transaction_id = vec![b'x'; 65];
    assert_eq!(Validator::validate_payload(&p), Err(ContractError::MissingIdempotencyKey));

    let mut p = payload();
    p.anchor_transaction_id = vec![b'x'; 65];
    assert_eq!(Validator::validate_payload(&p), Err(ContractError::StringTooLong));
}

// ─── Codec laws on concrete values ────────────────────────────────────────────

/// Unpadded base32 of 35 bytes, written independently of the library.
fn encode35(d: &[u8; 35]) -> [u8; 56] {
    let mut out = [0u8; 56];
    let mut acc: u64 = 0;
    let mut bits = 0u32;
    let mut j = 0;
    for &b in d.iter() {
        acc = (acc << 8) | b as u64;
        bits += 8;
        while bits >= 5 {
            bits -= 5;
            out[j] = ALPHABET[((acc >> bits) & 31) as usize];
            j += 1;
        }
    }
    assert_eq!(j, 56);
    out
}

fn strkey_of_key(key: &[u8; 32]) -> [u8; 56] {
    let mut d = [0u8; 35];
    d[0] = 48;
    d[1..33].copy_from_slice(key);
    let crc = crc16_xmodem(&d[..33]);
    d[33..35].copy_from_slice(&crc.to_le_bytes());
    encode35(&d)
}

#[test]
fn decoding_inverts_encoding() {
    let mut d = [0u8; 35];
    for (i, b) in d.iter_mut().enumerate() {
        *b = (i as u8).wrapping_mul(37).wrapping_add(11);
    }
    assert_eq!(base32_decode_strkey(&encode35(&d)), Ok(d));
    let mut buf = [0u8; 56];
    buf.copy_from_slice(FIXTURE_VALID.as_bytes());
    let decoded = base32_decode_strkey(&buf).unwrap();
    assert_eq!(encode35(&decoded), buf);
}

#[test]
fn crc_of_message_and_its_crc_is_zero() {
    for data in [&b"123456789"[..], b"", b"synapse", &[0xff; 40][..]] {
        let c = crc16_xmodem(data);
        let mut m = data.to_vec();
        m.push((c >> 8) as u8);
        m.push(c as u8);
        assert_eq!(crc16_xmodem(&m), 0);
    }
}

#[test]
fn crc_is_linear_and_zero_on_zeros() {
    let a = b"anchor-callback!";
    let b = b"0123456789abcdef";
    let x: Vec<u8> = a.iter().zip(b.iter()).map(|(p, q)| p ^ q).collect();
    assert_eq!(crc16_xmodem(&x), crc16_xmodem(a) ^ crc16_xmodem(b));
    for n in [0usize, 1, 7, 33] {
        assert_eq!(crc16_xmodem(&vec![0u8; n]), 0);
    }
}

#[test]
fn canonical_strkeys_are_accepted_and_distinct() {
    let k1 = [0x5au8; 32];
    let mut k2 = k1;
    k2[31] ^= 1;
    let s1 = strkey_of_key(&k1);
    let s2 = strkey_of_key(&k2);
    assert_eq!(verify_ed25519_public_key_strkey(&s1), Ok(()));
    assert_eq!(verify_ed25519_public_key_strkey(&s2), Ok(()));
    assert_ne!(s1, s2);
    assert_eq!(s1[0], b'G');
    let mut buf = [0u8; 56];
    buf.copy_from_slice(FIXTURE_VALID.as_bytes());
    let decoded = base32_decode_strkey(&buf).unwrap();
    let mut key = [0u8; 32];
    key.copy_from_slice(&decoded[1..33]);
    assert_eq!(strkey_of_key(&key), buf);
}
