use vstd::prelude::*;

verus! {

/// Why a ledger operation was refused. A refused operation leaves every
/// entity as it was.
#[derive(Clone, Copy, Debug, PartialEq, Eq, Structural)]
pub enum ErrorCode {
    /// The pool, share or revenue record asked for does not exist.
    NotFound,
    /// A pool with this identifier exists already.
    AlreadyExists,
    /// The amount is zero.
    InvalidPayment,
    /// A withdrawal or transfer exceeds the balance behind it.
    InsufficientFunds,
    /// The pool is inactive, would exceed its target, or an invariant is broken.
    InvalidPoolState,
    /// Nothing new to distribute or to claim.
    NoEarningsToClaim,
    /// The authority presented for a transfer was not accepted.
    Unauthorized,
    /// The result would not fit in 64 bits.
    Overflow,
    /// The caller does not own the asset, or names another asset.
    InvalidOwner,
    /// The proposal is another one than named, or was executed already.
    InvalidProposal,
    /// The voter has voted on this proposal already.
    InvalidVote,
    /// The metadata address is longer than the record can hold.
    InvalidMetadata,
}

impl ErrorCode {
    /// A short description for the person reading the failure.
    pub fn message(&self) -> (text: &'static str)
        ensures
            text@ == match *self {
                ErrorCode::NotFound => "Entity not found"@,
                ErrorCode::AlreadyExists => "Entity already exists"@,
                ErrorCode::InvalidPayment => "Payment amount must be positive"@,
                ErrorCode::InsufficientFunds => "Insufficient funds for investment or withdrawal"@,
                ErrorCode::InvalidPoolState => "Pool is not active or has reached target"@,
                ErrorCode::NoEarningsToClaim => "No claimable earnings available"@,
                ErrorCode::Unauthorized => "Authority not accepted for this transfer"@,
                ErrorCode::Overflow => "Arithmetic overflow"@,
                ErrorCode::InvalidOwner => "Invalid owner for this action"@,
                ErrorCode::InvalidProposal => "Proposal not found or invalid"@,
                ErrorCode::InvalidVote => "Vote already cast or ineligible"@,
                ErrorCode::InvalidMetadata => "Metadata URI too long"@,
            },
    {
        match self {
            ErrorCode::NotFound => "Entity not found",
            ErrorCode::AlreadyExists => "Entity already exists",
            ErrorCode::InvalidPayment => "Payment amount must be positive",
            ErrorCode::InsufficientFunds => "Insufficient funds for investment or withdrawal",
            ErrorCode::InvalidPoolState => "Pool is not active or has reached target",
            ErrorCode::NoEarningsToClaim => "No claimable earnings available",
            ErrorCode::Unauthorized => "Authority not accepted for this transfer",
            ErrorCode::Overflow => "Arithmetic overflow",
            ErrorCode::InvalidOwner => "Invalid owner for this action",
            ErrorCode::InvalidProposal => "Proposal not found or invalid",
            ErrorCode::InvalidVote => "Vote already cast or ineligible",
            ErrorCode::InvalidMetadata => "Metadata URI too long",
        }
    }
}

} // verus!
