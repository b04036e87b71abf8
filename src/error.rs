use vstd::prelude::*;

verus! {

/// Every way an operation of the staking engine can fail.
#[derive(Debug, Clone, Copy, PartialEq, Eq, Structural)]
pub enum StakingError {
    /// A stake-size change was attempted while rewards were still unsettled.
    RewardDebtNotZero,
    /// A withdrawal exceeds the staked balance of the position.
    InsufficientStakedAmount,
    /// The caller is not the admin, or a debit lacks the owner's signature.
    Unauthorized,
    /// Checked arithmetic overflowed, or a fee rate is out of range.
    MathError,
    /// The source account of a transfer holds too few lamports.
    InsufficientFunds,
    /// An amount that must be positive was zero.
    InvalidAmount,
}

} // verus!
