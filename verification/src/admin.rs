//! Role-based access control.  The contract has two privileged roles:
//!
//! | Role           | Capabilities                                          |
//! |----------------|-------------------------------------------------------|
//! | `admin`        | transfer admin, rotate relay signer, pause, upgrade   |
//! | `relay_signer` | register callbacks, drive status transitions         |
//!
//! Both roles are set once by `initialize` and can be rotated by the admin.
//! A missing authorisation is reported as `ContractError::Unauthorised`.

use vstd::prelude::*;

use crate::storage::{LedgerState, StorageClient};
use crate::types::{authorises, Address, ContractError, Invocation, InvocationView};

verus! {

/// Outcome of requiring the admin's authorisation: the admin's address, or
/// why the check fails.
pub open spec fn admin_check(s: LedgerState, inv: InvocationView) -> Result<Seq<u8>, ContractError> {
    match s.admin {
        None => Err(ContractError::NotInitialised),
        Some(a) => if authorises(inv, a) {
            Ok(a)
        } else {
            Err(ContractError::Unauthorised)
        },
    }
}

/// Outcome of requiring that `caller` holds the admin or the relay role and
/// has authorised the invocation.
pub open spec fn relay_or_admin_check(
    s: LedgerState,
    inv: InvocationView,
    caller: Seq<u8>,
) -> Result<(), ContractError> {
    if s.admin is None || s.relay_signer is None {
        Err(ContractError::NotInitialised)
    } else if caller != s.admin->0 && caller != s.relay_signer->0 {
        Err(ContractError::Unauthorised)
    } else if !authorises(inv, caller) {
        Err(ContractError::Unauthorised)
    } else {
        Ok(())
    }
}

/// Outcome of requiring that `caller` is the relay signer and has authorised
/// the invocation.
pub open spec fn relay_signer_check(
    s: LedgerState,
    inv: InvocationView,
    caller: Seq<u8>,
) -> Result<(), ContractError> {
    match s.relay_signer {
        None => Err(ContractError::NotInitialised),
        Some(r) => if caller != r {
            Err(ContractError::NotRelaySigner)
        } else if !authorises(inv, caller) {
            Err(ContractError::Unauthorised)
        } else {
            Ok(())
        },
    }
}

/// Role checks against the stored admin and relay signer.
pub struct AdminClient;

impl AdminClient {
    /// Require the invocation to be authorised by the current admin, and
    /// return the admin.
    pub fn require_admin(storage: &StorageClient, inv: &Invocation) -> (r: Result<
        Address,
        ContractError,
    >)
        ensures
            match admin_check(storage@, inv@) {
                Ok(a) => r matches Ok(x) && x@ == a,
                Err(e) => r == Err::<Address, ContractError>(e),
            },
    {
        let admin = storage.get_admin()?;
        if !inv.authorises(&admin) {
            return Err(ContractError::Unauthorised);
        }
        Ok(admin)
    }

    /// Assert that `caller` is either the admin or the trusted relay signer,
    /// and that it authorised the invocation.
    pub fn assert_is_relay_or_admin(
        storage: &StorageClient,
        inv: &Invocation,
        caller: &Address,
    ) -> (r: Result<(), ContractError>)
        ensures
            r == relay_or_admin_check(storage@, inv@, caller@),
    {
        let admin = storage.get_admin()?;
        let relay = storage.get_relay_signer()?;
        if !caller.same_as(&admin) && !caller.same_as(&relay) {
            return Err(ContractError::Unauthorised);
        }
        if !inv.authorises(caller) {
            return Err(ContractError::Unauthorised);
        }
        Ok(())
    }

    /// Assert that `caller` is specifically the relay signer (not the admin),
    /// and that it authorised the invocation.
    pub fn require_relay_signer(
        storage: &StorageClient,
        inv: &Invocation,
        caller: &Address,
    ) -> (r: Result<(), ContractError>)
        ensures
            r == relay_signer_check(storage@, inv@, caller@),
    {
        let relay = storage.get_relay_signer()?;
        if !caller.same_as(&relay) {
            return Err(ContractError::NotRelaySigner);
        }
        if !inv.authorises(caller) {
            return Err(ContractError::Unauthorised);
        }
        Ok(())
    }
}

} // verus!
