# synapse-core-contract (verified registry)

The on-chain transaction registry of the Synapse bridge, written in Verus.

The registry accepts anchor callbacks forwarded by a trusted relay signer,
stores each deposit as a `Pending` transaction, deduplicates deliveries with
idempotency keys that stay live for 18 000 ledgers (a replayed key answers
with the transaction first registered under it), never writes a stored record again (only a redelivery of the callback that
created a still-`Pending` record is accepted, and it leaves the record as it
is), and drives each
transaction through `Pending -> Processing -> Completed | Failed`.  An admin
can pause ingestion, rotate the relay signer, transfer the admin role and
upgrade the code.

## Layout

- `src/` — the verified library.
  - `types.rs`: addresses, transactions, callback payloads, errors, and the
    invocation context (ledger sequence and authorising addresses).
  - `validation.rs`: input guards, including a full SEP-23 strkey check
    (base32 decoding and CRC16-XModem), each with an exact contract.
  - `storage.rs`: the ledger state and its read/write helpers.
  - `events.rs`: the typed events and their topics.
  - `admin.rs`: admin and relay-signer role checks.
  - `contract.rs`: the entry points, each specified as a step of the
    contract's state machine (`*_step` spec functions).
  - `laws.rs`: properties across entry points (idempotent replay, the pause
    circuit breaker, access control, the transaction lifecycle, final
    `Completed`/`Failed` records, event order, the pause flag, the upgrade
    boundary).
  - `reachable.rs`: properties of every state reachable from a fresh
    deployment by a run of calls (stamps, outcome fields, final records, the
    pause flag).
  - `strkey_law.rs`: laws of the strkey codec: base32 decoding is a round
    trip and injective, the accepted account ids are exactly the canonical
    encodings of 32-byte keys, CRC16-XModem is linear with a zero residue, and
    every single-character typo of a valid account id fails the check.
- `tests/`: executable tests of the library.
- `app/`: the Soroban contract around the library: it loads ledger entries
  from host storage, performs the host authorisation, calls the verified
  entry point, writes back and publishes the events.
