use vstd::prelude::*;

use crate::error::StakingError;
use crate::helper::{authorized_outcome, move_outcome, moved, transfer_sol, transfer_sol_pda, Account};
use crate::identity::Identity;

verus! {

/// Seed of the pool record's address.
pub const GLOBAL_SEED: &'static str = "global-state";

/// Seed of the fee vault's address.
pub const FEE_VAULT_SEED: &'static str = "fee-vault";

/// Seed of a position's address; the owner's identity follows it.
pub const STAKER_SEED: &'static str = "staker";

/// Fee rates are counted in hundred-thousandths: this rate is 100%.
pub const FEE_DENOMINATOR: u32 = 100_000;

/// Fixed-point scale of the reward-per-share accumulator.
pub const REWARD_SCALE: u128 = 1_000_000_000_000;

/// Fee rate of a freshly initialized pool: 1%.
pub const DEFAULT_FEE_BASIS_POINTS: u32 = 1_000;

/// The pool: one per deployment.
#[derive(Debug, Clone, Copy)]
pub struct GlobalState {
    pub admin: Identity,
    pub total_staked: u64,
    /// Cumulative reward per staked lamport since inception, scaled by
    /// `REWARD_SCALE`.
    pub reward_per_share: u128,
    /// Fee rate in hundred-thousandths of the transferred amount.
    pub fee_basis_points: u32,
    pub fee_vault: Identity,
    pub bump: u8,
}

/// One staker's position.
#[derive(Debug, Clone, Copy)]
pub struct Staker {
    pub owner: Identity,
    pub amount: u64,
    /// The accumulator value up to which this position has been paid.
    pub reward_debt: u128,
}

/// The custody record that receives fees and pays rewards.
#[derive(Debug, Clone, Copy)]
pub struct FeeVault {
    pub bump: u8,
}

/// The fee on a transfer of `amount` at `fee_basis_points`, rounded down.
pub open spec fn fee_of(amount: int, fee_basis_points: int) -> int {
    amount * fee_basis_points / FEE_DENOMINATOR as int
}

/// How much a fee raises the accumulator when `total_staked` lamports share
/// it; nothing when no one is staked.
pub open spec fn reward_increment(fee: int, total_staked: int) -> int {
    if total_staked > 0 {
        fee * REWARD_SCALE as int / total_staked
    } else {
        0
    }
}

/// A fee at a rate of at most 100% is neither negative nor above the amount.
pub proof fn lemma_fee_bounds(amount: u64, fee_basis_points: u32)
    requires
        fee_basis_points <= FEE_DENOMINATOR,
    ensures
        0 <= fee_of(amount as int, fee_basis_points as int) <= amount,
{
    let a = amount as int;
    let b = fee_basis_points as int;
    assert(0 <= a * b <= a * 100_000) by (nonlinear_arith)
        requires
            0 <= a,
            0 <= b <= 100_000,
    ;
    assert(0 <= a * b / 100_000 <= a) by (nonlinear_arith)
        requires
            0 <= a * b <= a * 100_000,
    ;
}

impl GlobalState {
    /// The fee rate is within 0..=100%.
    pub open spec fn wf(&self) -> bool {
        self.fee_basis_points <= FEE_DENOMINATOR
    }

    /// The fee this pool charges on a transfer of `amount`.
    pub open spec fn fee_on(&self, amount: u64) -> int {
        fee_of(amount as int, self.fee_basis_points as int)
    }

    /// The accumulator after a fee of `fee` is distributed.
    pub open spec fn accumulator_after(&self, fee: int) -> int {
        self.reward_per_share + reward_increment(fee, self.total_staked as int)
    }

    /// The outcome of `pay_fees(amount, from, fee_vault)`.
    pub open spec fn pay_fees_outcome(&self, amount: u64, from: Account, fee_vault: Account) -> Result<
        (),
        StakingError,
    > {
        let fee = self.fee_on(amount);
        if self.accumulator_after(fee) > u128::MAX {
            Err(StakingError::MathError)
        } else {
            authorized_outcome(from, fee_vault, fee as u64)
        }
    }

    /// A fresh pool: nothing staked, nothing accrued, the default fee rate.
    pub fn init(&mut self, admin: Identity, fee_vault: Identity, bump: u8)
        ensures
            final(self).admin == admin,
            final(self).fee_vault == fee_vault,
            final(self).bump == bump,
            final(self).reward_per_share == 0,
            final(self).total_staked == 0,
            final(self).fee_basis_points == DEFAULT_FEE_BASIS_POINTS,
            final(self).wf(),
    {
        self.admin = admin;
        self.fee_vault = fee_vault;
        self.bump = bump;
        self.reward_per_share = 0;
        self.total_staked = 0;
        self.fee_basis_points = DEFAULT_FEE_BASIS_POINTS;
    }

    /// Adds `amount` to the pool's staked total.
    pub fn increase_total_staked(&mut self, amount: u64)
        requires
            old(self).total_staked + amount <= u64::MAX,
        ensures
            *final(self) == (GlobalState {
                total_staked: (old(self).total_staked + amount) as u64,
                ..*old(self)
            }),
    {
        self.total_staked = self.total_staked + amount;
    }

    /// Takes `amount` off the pool's staked total.
    pub fn decrease_total_staked(&mut self, amount: u64)
        requires
            amount <= old(self).total_staked,
        ensures
            *final(self) == (GlobalState {
                total_staked: (old(self).total_staked - amount) as u64,
                ..*old(self)
            }),
    {
        self.total_staked = self.total_staked - amount;
    }

    /// Charges the fee on a transfer of `transaction_amount`: the payer's
    /// signature moves it into the vault, and the accumulator grows by
    /// `fee * REWARD_SCALE / total_staked` when anyone is staked. On failure
    /// nothing changes.
    pub fn pay_fees(&mut self, transaction_amount: u64, from: &mut Account, fee_vault: &mut Account)
        -> (r: Result<(), StakingError>)
        requires
            old(self).wf(),
        ensures
            r == old(self).pay_fees_outcome(transaction_amount, *old(from), *old(fee_vault)),
            0 <= old(self).fee_on(transaction_amount) <= transaction_amount,
            final(self).reward_per_share >= old(self).reward_per_share,
            moved(
                *old(from),
                *old(fee_vault),
                old(self).fee_on(transaction_amount) as u64,
                r,
                *final(from),
                *final(fee_vault),
            ),
            r is Ok ==> *final(self) == (GlobalState {
                reward_per_share: old(self).accumulator_after(
                    old(self).fee_on(transaction_amount),
                ) as u128,
                ..*old(self)
            }),
            r is Err ==> *final(self) == *old(self),
    {
        let fee_amount = self.calculate_fee_amount(transaction_amount);
        let mut reward_per_share = self.reward_per_share;
        if self.total_staked > 0 {
            let fee = fee_amount as u128;
            assert(fee * REWARD_SCALE <= u64::MAX as int * REWARD_SCALE) by (nonlinear_arith)
                requires
                    fee <= u64::MAX,
            ;
            let increment = fee * REWARD_SCALE / self.total_staked as u128;
            match reward_per_share.checked_add(increment) {
                None => {
                    return Err(StakingError::MathError);
                },
                Some(raised) => {
                    reward_per_share = raised;
                },
            }
        }
        transfer_sol(from, fee_vault, fee_amount)?;
        self.reward_per_share = reward_per_share;
        Ok(())
    }

    /// Sets the fee rate; a rate above 100% is refused with `MathError`.
    pub fn update_fee_basis_points(&mut self, new_fee_basis_points: u32) -> (r: Result<
        (),
        StakingError,
    >)
        ensures
            new_fee_basis_points <= FEE_DENOMINATOR ==> r is Ok && *final(self) == (GlobalState {
                fee_basis_points: new_fee_basis_points,
                ..*old(self)
            }),
            new_fee_basis_points > FEE_DENOMINATOR ==> r == Err::<(), StakingError>(
                StakingError::MathError,
            ) && *final(self) == *old(self),
    {
        if new_fee_basis_points > FEE_DENOMINATOR {
            return Err(StakingError::MathError);
        }
        self.fee_basis_points = new_fee_basis_points;
        Ok(())
    }

    /// `transaction_amount * fee_basis_points / 100000`, rounded down, with a
    /// 128-bit intermediate.
    pub fn calculate_fee_amount(&self, transaction_amount: u64) -> (r: u64)
        requires
            self.wf(),
        ensures
            r == self.fee_on(transaction_amount),
            r <= transaction_amount,
    {
        let a = transaction_amount as u128;
        let bp = self.fee_basis_points as u128;
        proof {
            lemma_fee_bounds(transaction_amount, self.fee_basis_points);
        }
        assert(a * bp <= a * 100_000) by (nonlinear_arith)
            requires
                bp <= 100_000,
        ;
        (a * bp / FEE_DENOMINATOR as u128) as u64
    }
}

impl FeeVault {
    /// Records the vault's address nonce.
    pub fn init(&mut self, bump: u8)
        ensures
            final(self).bump == bump,
    {
        self.bump = bump;
    }
}

impl Staker {
    /// The rewards this position has earned since it was last settled, at the
    /// exact value of `(reward_per_share - reward_debt) * amount / REWARD_SCALE`.
    pub open spec fn pending(&self, global: GlobalState) -> int {
        if self.amount == 0 || global.reward_per_share <= self.reward_debt {
            0
        } else {
            (global.reward_per_share - self.reward_debt) * self.amount / REWARD_SCALE as int
        }
    }

    /// The outcome of `calculate_pending_rewards`: the pending rewards, or
    /// `MathError` where the product leaves 128 bits or the result 64 bits.
    pub open spec fn pending_outcome(&self, global: GlobalState) -> Result<u64, StakingError> {
        if self.amount == 0 || global.reward_per_share <= self.reward_debt {
            Ok(0)
        } else if (global.reward_per_share - self.reward_debt) * self.amount > u128::MAX
            || self.pending(global) > u64::MAX {
            Err(StakingError::MathError)
        } else {
            Ok(self.pending(global) as u64)
        }
    }

    /// The outcome of `claim_rewards`.
    pub open spec fn claim_outcome(&self, global: GlobalState, fee_vault: Account, user: Account)
        -> Result<(), StakingError> {
        match self.pending_outcome(global) {
            Err(e) => Err(e),
            Ok(p) => if p > 0 {
                move_outcome(fee_vault, user, p)
            } else {
                Ok(())
            },
        }
    }

    /// The outcome of `add_stake`.
    pub open spec fn add_stake_outcome(&self, global: GlobalState, user: Account, staker: Account, amount: u64)
        -> Result<(), StakingError> {
        if amount == 0 {
            Err(StakingError::InvalidAmount)
        } else if self.reward_debt != global.reward_per_share {
            Err(StakingError::RewardDebtNotZero)
        } else if self.amount + amount > u64::MAX || global.total_staked + amount > u64::MAX {
            Err(StakingError::MathError)
        } else {
            authorized_outcome(user, staker, amount)
        }
    }

    /// The outcome of `decrease_stake`.
    pub open spec fn decrease_stake_outcome(
        &self,
        global: GlobalState,
        staker: Account,
        user: Account,
        amount: u64,
    ) -> Result<(), StakingError> {
        if self.reward_debt != global.reward_per_share {
            Err(StakingError::RewardDebtNotZero)
        } else if amount > self.amount {
            Err(StakingError::InsufficientStakedAmount)
        } else if amount > global.total_staked {
            Err(StakingError::MathError)
        } else {
            move_outcome(staker, user, amount)
        }
    }

    /// A new position of `owner`: nothing staked, and settled at the current
    /// accumulator, so it earns nothing from fees collected before it.
    pub fn init(&mut self, owner: Identity, global: &GlobalState)
        ensures
            *final(self) == (Staker { owner, amount: 0, reward_debt: global.reward_per_share }),
    {
        self.owner = owner;
        self.amount = 0;
        self.reward_debt = global.reward_per_share;
    }

    /// Adds `amount` to the position; `MathError` where it would overflow.
    pub fn increase_stake_amount(&mut self, amount: u64) -> (r: Result<(), StakingError>)
        ensures
            old(self).amount + amount <= u64::MAX ==> r is Ok && *final(self) == (Staker {
                amount: (old(self).amount + amount) as u64,
                ..*old(self)
            }),
            old(self).amount + amount > u64::MAX ==> r == Err::<(), StakingError>(
                StakingError::MathError,
            ) && *final(self) == *old(self),
    {
        match self.amount.checked_add(amount) {
            None => Err(StakingError::MathError),
            Some(raised) => {
                self.amount = raised;
                Ok(())
            },
        }
    }

    /// Takes `amount` off the position; `InsufficientStakedAmount` beyond
    /// what it holds.
    pub fn decrease_stake_amount(&mut self, amount: u64) -> (r: Result<(), StakingError>)
        ensures
            amount <= old(self).amount ==> r is Ok && *final(self) == (Staker {
                amount: (old(self).amount - amount) as u64,
                ..*old(self)
            }),
            amount > old(self).amount ==> r == Err::<(), StakingError>(
                StakingError::InsufficientStakedAmount,
            ) && *final(self) == *old(self),
    {
        if amount > self.amount {
            return Err(StakingError::InsufficientStakedAmount);
        }
        self.amount = self.amount - amount;
        Ok(())
    }

    /// Pays out the pending rewards from the vault and settles the position
    /// at the current accumulator, also when nothing was pending. On failure
    /// nothing changes.
    pub fn claim_rewards(&mut self, global: &GlobalState, fee_vault: &mut Account, user: &mut Account)
        -> (r: Result<(), StakingError>)
        ensures
            r == old(self).claim_outcome(*global, *old(fee_vault), *old(user)),
            moved(
                *old(fee_vault),
                *old(user),
                old(self).pending(*global) as u64,
                r,
                *final(fee_vault),
                *final(user),
            ),
            r is Ok ==> *final(self) == (Staker {
                reward_debt: global.reward_per_share,
                ..*old(self)
            }),
            r is Err ==> *final(self) == *old(self),
    {
        let pending = self.calculate_pending_rewards(global)?;
        if pending > 0 {
            transfer_sol_pda(fee_vault, user, pending)?;
        }
        self.reward_debt = global.reward_per_share;
        Ok(())
    }

    /// `(reward_per_share - reward_debt) * amount / REWARD_SCALE`, rounded
    /// down; 0 when nothing is staked or the accumulator has not moved past
    /// the debt.
    pub fn calculate_pending_rewards(&self, global: &GlobalState) -> (r: Result<u64, StakingError>)
        ensures
            r == self.pending_outcome(*global),
    {
        if self.amount == 0 {
            return Ok(0);
        }
        let reward_per_share = global.reward_per_share;
        let reward_debt = self.reward_debt;
        if reward_per_share <= reward_debt {
            return Ok(0);
        }
        match (reward_per_share - reward_debt).checked_mul(self.amount as u128) {
            None => Err(StakingError::MathError),
            Some(product) => {
                let pending = product / REWARD_SCALE;
                if pending > u64::MAX as u128 {
                    Err(StakingError::MathError)
                } else {
                    Ok(pending as u64)
                }
            },
        }
    }

    /// Moves `amount` from the user into the position's custody. Refused with
    /// `InvalidAmount` for zero, `RewardDebtNotZero` while rewards are
    /// unsettled, and `MathError` where a total would overflow. On failure
    /// nothing changes.
    pub fn add_stake(&mut self, global: &mut GlobalState, user: &mut Account, staker: &mut Account, amount: u64)
        -> (r: Result<(), StakingError>)
        ensures
            r == old(self).add_stake_outcome(*old(global), *old(user), *old(staker), amount),
            moved(*old(user), *old(staker), amount, r, *final(user), *final(staker)),
            r is Ok ==> *final(self) == (Staker {
                amount: (old(self).amount + amount) as u64,
                ..*old(self)
            }) && *final(global) == (GlobalState {
                total_staked: (old(global).total_staked + amount) as u64,
                ..*old(global)
            }),
            r is Err ==> *final(self) == *old(self) && *final(global) == *old(global),
    {
        if amount == 0 {
            return Err(StakingError::InvalidAmount);
        }
        if self.reward_debt != global.reward_per_share {
            return Err(StakingError::RewardDebtNotZero);
        }
        if self.amount.checked_add(amount).is_none() || global.total_staked.checked_add(amount).is_none() {
            return Err(StakingError::MathError);
        }
        transfer_sol(user, staker, amount)?;
        self.increase_stake_amount(amount)?;
        global.increase_total_staked(amount);
        Ok(())
    }

    /// Moves `amount` from the position's custody back to the user. Refused
    /// with `RewardDebtNotZero` while rewards are unsettled,
    /// `InsufficientStakedAmount` beyond the staked amount, and `MathError`
    /// where the pool's total would underflow. On failure nothing changes.
    pub fn decrease_stake(&mut self, global: &mut GlobalState, staker: &mut Account, user: &mut Account, amount: u64)
        -> (r: Result<(), StakingError>)
        ensures
            r == old(self).decrease_stake_outcome(*old(global), *old(staker), *old(user), amount),
            moved(*old(staker), *old(user), amount, r, *final(staker), *final(user)),
            r is Ok ==> *final(self) == (Staker {
                amount: (old(self).amount - amount) as u64,
                ..*old(self)
            }) && *final(global) == (GlobalState {
                total_staked: (old(global).total_staked - amount) as u64,
                ..*old(global)
            }),
            r is Err ==> *final(self) == *old(self) && *final(global) == *old(global),
    {
        if self.reward_debt != global.reward_per_share {
            return Err(StakingError::RewardDebtNotZero);
        }
        if amount > self.amount {
            return Err(StakingError::InsufficientStakedAmount);
        }
        if amount > global.total_staked {
            return Err(StakingError::MathError);
        }
        transfer_sol_pda(staker, user, amount)?;
        self.decrease_stake_amount(amount)?;
        global.decrease_total_staked(amount);
        Ok(())
    }
}

/// Once a claim has gone through, claiming again against the same pool, with
/// no fee paid in between, pays exactly nothing and succeeds, whatever the
/// balances then are.
pub proof fn lemma_second_claim_pays_nothing(
    staker: Staker,
    global: GlobalState,
    fee_vault: Account,
    user: Account,
)
    requires
        staker.claim_outcome(global, fee_vault, user) is Ok,
    ensures
        ({
            let settled = Staker { reward_debt: global.reward_per_share, ..staker };
            &&& settled.pending(global) == 0
            &&& settled.pending_outcome(global) == Ok::<u64, StakingError>(0)
            &&& forall|v: Account, u: Account| settled.claim_outcome(global, v, u) == Ok::<(), StakingError>(())
        }),
{
}

/// A position whose rewards are unsettled cannot change its stake: a deposit
/// of a positive amount and any withdrawal both fail with `RewardDebtNotZero`.
pub proof fn lemma_unsettled_stake_is_frozen(
    staker: Staker,
    global: GlobalState,
    user: Account,
    staker_info: Account,
    amount: u64,
)
    requires
        staker.reward_debt != global.reward_per_share,
    ensures
        amount > 0 ==> staker.add_stake_outcome(global, user, staker_info, amount) == Err::<
            (),
            StakingError,
        >(StakingError::RewardDebtNotZero),
        staker.decrease_stake_outcome(global, staker_info, user, amount) == Err::<(), StakingError>(
            StakingError::RewardDebtNotZero,
        ),
{
}

} // verus!
