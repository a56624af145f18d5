use crate::errors::ErrorCode;
use crate::principal::Principal;
use vstd::prelude::*;

verus! {

/// One end of a transfer of value.
#[derive(Clone, Copy, Debug, PartialEq, Eq)]
pub enum Account {
    /// The account a principal holds in their own name.
    Holder(Principal),
    /// The vault that keeps the principal invested in a pool.
    PoolVault(u64),
    /// The vault that keeps the revenue received for a pool.
    RevenueVault(u64),
}

/// Who authorizes a transfer. The two derived capabilities are made here, by
/// the ledger, from the identifier of the entity that owns the vault.
#[derive(Clone, Copy, Debug, PartialEq, Eq)]
pub enum Authority {
    /// The sending principal signs for it.
    Signer(Principal),
    /// The capability derived from a pool's identity.
    PoolAuthority(u64),
    /// The capability derived from a pool's revenue record.
    RevenueAuthority(u64),
}

/// A transfer that the ledger has validated and that the caller must now have
/// carried out, exactly once.
#[derive(Clone, Copy, Debug, PartialEq, Eq)]
pub struct TransferOrder {
    pub from: Account,
    pub to: Account,
    pub amount: u64,
    pub authority: Authority,
}

/// Why the transfer service did not move the funds.
#[derive(Clone, Copy, Debug, PartialEq, Eq, Structural)]
pub enum TransferError {
    /// The sending account does not hold the amount.
    InsufficientFunds,
    /// The authority presented may not move funds out of the sending account.
    Unauthorized,
}

/// The ledger error that reports a failed transfer.
pub open spec fn transfer_failure(e: TransferError) -> ErrorCode {
    match e {
        TransferError::InsufficientFunds => ErrorCode::InsufficientFunds,
        TransferError::Unauthorized => ErrorCode::Unauthorized,
    }
}

impl TransferError {
    /// The ledger error under which this failure is reported.
    pub fn to_error_code(&self) -> (code: ErrorCode)
        ensures
            code == transfer_failure(*self),
    {
        match self {
            TransferError::InsufficientFunds => ErrorCode::InsufficientFunds,
            TransferError::Unauthorized => ErrorCode::Unauthorized,
        }
    }
}

} // verus!
