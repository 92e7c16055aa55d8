//! On-chain transaction registry for the Synapse bridge, as a verified library.
//!
//! The registry accepts anchor callbacks forwarded by a trusted relay, stores
//! each deposit as a `Pending` transaction, guards against duplicate delivery
//! with expiring idempotency keys, and drives every transaction through the
//! lifecycle `Pending -> Processing -> Completed | Failed`.
//!
//! Module layout:
//! - `types`      : transactions, statuses, callback payloads, errors, addresses
//! - `validation` : input guards (strkey accounts, asset codes, amounts, lengths)
//! - `input_laws` : what the input guards accept, with the literal limits
//! - `storage`    : the ledger state the contract reads and writes
//! - `events`     : typed events announced at each state change
//! - `admin`      : role checks for the admin and the relay signer
//! - `contract`   : the contract entry points
//! - `laws`       : properties that span several entry points
//! - `reachable`  : properties of every state reachable by a run of calls
//! - `strkey_law` : laws of the strkey codec and its CRC16-XModem checksum

pub mod types;
pub mod validation;
pub mod input_laws;
pub mod storage;
pub mod events;
pub mod admin;
pub mod contract;
pub mod laws;
pub mod reachable;
pub mod strkey_law;
