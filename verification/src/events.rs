use crate::principal::Principal;
use vstd::prelude::*;

verus! {

/// A pool was opened.
#[derive(Clone, Copy, Debug, PartialEq, Eq)]
pub struct PoolCreated {
    pub creator: Principal,
    pub pool_id: u64,
    pub target_amount: u64,
}

/// An investor added to their share of a pool.
#[derive(Clone, Copy, Debug, PartialEq, Eq)]
pub struct Invested {
    pub investor: Principal,
    pub pool_id: u64,
    pub amount: u64,
}

/// An investor took principal back out of a pool.
#[derive(Clone, Copy, Debug, PartialEq, Eq)]
pub struct Withdrawn {
    pub investor: Principal,
    pub pool_id: u64,
    pub amount: u64,
}

/// Revenue was paid in on behalf of a pool's asset.
#[derive(Clone, Copy, Debug, PartialEq, Eq)]
pub struct PaymentRecorded {
    pub payer: Principal,
    pub pool_id: u64,
    pub amount: u64,
}

/// Received revenue was marked as claimable.
#[derive(Clone, Copy, Debug, PartialEq, Eq)]
pub struct RevenueDistributed {
    pub pool_id: u64,
    pub total_distributed: u64,
}

/// An investor was paid their outstanding part of the claimable revenue.
#[derive(Clone, Copy, Debug, PartialEq, Eq)]
pub struct EarningsClaimed {
    pub claimer: Principal,
    pub pool_id: u64,
    pub amount: u64,
}

/// An asset changed hands.
#[derive(Clone, Copy, Debug, PartialEq, Eq)]
pub struct Transfer {
    pub from: Principal,
    pub to: Principal,
    pub vehicle_id: u64,
}

/// An asset was registered.
#[derive(Clone, Debug, PartialEq, Eq)]
pub struct Mint {
    pub minter: Principal,
    pub vehicle_id: u64,
    pub metadata_uri: String,
}

/// An asset's metadata address was replaced.
#[derive(Clone, Debug, PartialEq, Eq)]
pub struct MetadataUpdate {
    pub vehicle_id: u64,
    pub new_uri: String,
}

/// A proposal was put up for a vote.
#[derive(Clone, Debug, PartialEq, Eq)]
pub struct ProposalCreated {
    pub creator: Principal,
    pub proposal_id: u64,
    pub description: String,
}

/// A vote was cast: `vote` is true for yes.
#[derive(Clone, Copy, Debug, PartialEq, Eq)]
pub struct Voted {
    pub voter: Principal,
    pub proposal_id: u64,
    pub vote: bool,
}

/// A proposal was closed: `success` says whether it carried.
#[derive(Clone, Copy, Debug, PartialEq, Eq)]
pub struct ProposalExecuted {
    pub proposal_id: u64,
    pub success: bool,
}

} // verus!
