use crate::principal::Principal;
use vstd::prelude::*;

verus! {

/// Platform-wide settings, shared by all modules.
#[derive(Clone, Copy, Debug, PartialEq, Eq)]
pub struct GlobalConfig {
    /// The platform administrator.
    pub admin: Principal,
    /// The platform's fee on returns, in percent.
    pub fee_percentage: u8,
}

} // verus!
