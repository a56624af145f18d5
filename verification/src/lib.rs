//! Accounting ledger for tokenized investment pools: who put how much into
//! which pool, what revenue a pool has received, and what each investor may
//! still claim of it.
//!
//! The ledger never moves funds itself. Every operation that moves funds is
//! split in two: a `plan_*` function validates the request against the ledger
//! and names the transfer to perform, and the operation proper takes the
//! outcome of that transfer and commits or leaves the ledger untouched.

pub mod accounts;
pub mod errors;
pub mod events;
pub mod governance;
pub mod investment_pool;
pub mod laws;
pub mod model;
pub mod principal;
pub mod revenue_sharing;
pub mod store;
pub mod transfer;
pub mod vehicle_nft;
