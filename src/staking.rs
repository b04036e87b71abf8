use vstd::prelude::*;

use crate::error::StakingError;
use crate::helper::{move_outcome, with_lamports, Account};
use crate::state::{GlobalState, Staker};

verus! {

/// `user` owns the position and signed the operation.
pub open spec fn owns(staker: Staker, user: Account) -> bool {
    user.is_signer && staker.owner@ == user.key@
}

fn check_owner(staker: &Staker, user: &Account) -> (r: Result<(), StakingError>)
    ensures
        r is Ok <==> owns(*staker, *user),
        r is Err ==> r == Err::<(), StakingError>(StakingError::Unauthorized),
{
    if !user.is_signer || staker.owner != user.key {
        return Err(StakingError::Unauthorized);
    }
    Ok(())
}

/// The accounts that a change of stake touches: the pool, the position with
/// its custody account, and the staker's wallet.
#[derive(Debug, Clone, Copy)]
pub struct CreateStaking {
    pub global_state: GlobalState,
    pub staker: Staker,
    pub staker_info: Account,
    pub user: Account,
}

/// The accounts of a deposit into an existing position.
#[derive(Debug, Clone, Copy)]
pub struct AddStaking {
    pub global_state: GlobalState,
    pub staker: Staker,
    pub staker_info: Account,
    pub user: Account,
}

/// The accounts of a withdrawal from a position.
#[derive(Debug, Clone, Copy)]
pub struct DecreaseStaking {
    pub global_state: GlobalState,
    pub staker: Staker,
    pub staker_info: Account,
    pub user: Account,
}

/// The accounts of the final claim and full withdrawal of a position.
#[derive(Debug, Clone, Copy)]
pub struct CloseStaking {
    pub global_state: GlobalState,
    pub fee_vault: Account,
    pub staker: Staker,
    pub staker_info: Account,
    pub user: Account,
}

/// The accounts of a reward claim.
#[derive(Debug, Clone, Copy)]
pub struct ClaimRewards {
    pub global_state: GlobalState,
    pub fee_vault: Account,
    pub staker: Staker,
    pub user: Account,
}

/// A new, empty position of `owner`, settled at the pool's accumulator.
pub open spec fn fresh_position(owner: Account, global: GlobalState) -> Staker {
    Staker { owner: owner.key, amount: 0, reward_debt: global.reward_per_share }
}

/// Pool, position and accounts after `amount` moved from the wallet into the
/// position.
pub open spec fn deposited(
    global: GlobalState,
    staker: Staker,
    staker_info: Account,
    user: Account,
    amount: u64,
) -> (GlobalState, Staker, Account, Account) {
    (
        GlobalState { total_staked: (global.total_staked + amount) as u64, ..global },
        Staker { amount: (staker.amount + amount) as u64, ..staker },
        with_lamports(staker_info, staker_info.lamports + amount),
        with_lamports(user, user.lamports - amount),
    )
}

/// Pool, position and accounts after `amount` moved from the position back to
/// the wallet.
pub open spec fn withdrawn(
    global: GlobalState,
    staker: Staker,
    staker_info: Account,
    user: Account,
    amount: u64,
) -> (GlobalState, Staker, Account, Account) {
    (
        GlobalState { total_staked: (global.total_staked - amount) as u64, ..global },
        Staker { amount: (staker.amount - amount) as u64, ..staker },
        with_lamports(staker_info, staker_info.lamports - amount),
        with_lamports(user, user.lamports + amount),
    )
}

/// The outcome of `process_create_staking`.
pub open spec fn create_staking_outcome(ctx: CreateStaking, amount: u64) -> Result<(), StakingError> {
    if !ctx.user.is_signer {
        Err(StakingError::Unauthorized)
    } else {
        fresh_position(ctx.user, ctx.global_state).add_stake_outcome(
            ctx.global_state,
            ctx.user,
            ctx.staker_info,
            amount,
        )
    }
}

/// The outcome of `process_add_staking`.
pub open spec fn add_staking_outcome(ctx: AddStaking, amount: u64) -> Result<(), StakingError> {
    if !owns(ctx.staker, ctx.user) {
        Err(StakingError::Unauthorized)
    } else {
        ctx.staker.add_stake_outcome(ctx.global_state, ctx.user, ctx.staker_info, amount)
    }
}

/// The outcome of `process_decrease_staking`.
pub open spec fn decrease_staking_outcome(ctx: DecreaseStaking, amount: u64) -> Result<
    (),
    StakingError,
> {
    if !owns(ctx.staker, ctx.user) {
        Err(StakingError::Unauthorized)
    } else {
        ctx.staker.decrease_stake_outcome(ctx.global_state, ctx.staker_info, ctx.user, amount)
    }
}

/// Opens the signer's position and deposits `amount` into it.
pub fn process_create_staking(ctx: &mut CreateStaking, amount: u64) -> (r: Result<
    (),
    StakingError,
>)
    ensures
        r == create_staking_outcome(*old(ctx), amount),
        r is Ok ==> (
            final(ctx).global_state,
            final(ctx).staker,
            final(ctx).staker_info,
            final(ctx).user,
        ) == deposited(
            old(ctx).global_state,
            fresh_position(old(ctx).user, old(ctx).global_state),
            old(ctx).staker_info,
            old(ctx).user,
            amount,
        ),
        r is Err ==> *final(ctx) == *old(ctx),
{
    if !ctx.user.is_signer {
        return Err(StakingError::Unauthorized);
    }
    let mut global_state = ctx.global_state;
    let mut staker = ctx.staker;
    let mut staker_info = ctx.staker_info;
    let mut user = ctx.user;
    staker.init(user.key, &global_state);
    staker.add_stake(&mut global_state, &mut user, &mut staker_info, amount)?;
    ctx.global_state = global_state;
    ctx.staker = staker;
    ctx.staker_info = staker_info;
    ctx.user = user;
    Ok(())
}

/// Deposits `amount` more into the signer's position.
pub fn process_add_staking(ctx: &mut AddStaking, amount: u64) -> (r: Result<(), StakingError>)
    ensures
        r == add_staking_outcome(*old(ctx), amount),
        r is Ok ==> (
            final(ctx).global_state,
            final(ctx).staker,
            final(ctx).staker_info,
            final(ctx).user,
        ) == deposited(
            old(ctx).global_state,
            old(ctx).staker,
            old(ctx).staker_info,
            old(ctx).user,
            amount,
        ),
        r is Err ==> *final(ctx) == *old(ctx),
{
    check_owner(&ctx.staker, &ctx.user)?;
    ctx.staker.add_stake(&mut ctx.global_state, &mut ctx.user, &mut ctx.staker_info, amount)
}

/// Withdraws `amount` from the signer's position.
pub fn process_decrease_staking(ctx: &mut DecreaseStaking, amount: u64) -> (r: Result<
    (),
    StakingError,
>)
    ensures
        r == decrease_staking_outcome(*old(ctx), amount),
        r is Ok ==> (
            final(ctx).global_state,
            final(ctx).staker,
            final(ctx).staker_info,
            final(ctx).user,
        ) == withdrawn(
            old(ctx).global_state,
            old(ctx).staker,
            old(ctx).staker_info,
            old(ctx).user,
            amount,
        ),
        r is Err ==> *final(ctx) == *old(ctx),
{
    check_owner(&ctx.staker, &ctx.user)?;
    ctx.staker.decrease_stake(&mut ctx.global_state, &mut ctx.staker_info, &mut ctx.user, amount)
}

/// The outcome of `process_claim_rewards`.
pub open spec fn claim_rewards_outcome(ctx: ClaimRewards) -> Result<(), StakingError> {
    if !owns(ctx.staker, ctx.user) {
        Err(StakingError::Unauthorized)
    } else {
        ctx.staker.claim_outcome(ctx.global_state, ctx.fee_vault, ctx.user)
    }
}

/// The accounts after the position's pending rewards were paid out and the
/// position settled.
pub open spec fn claimed(ctx: ClaimRewards) -> ClaimRewards {
    let pending = ctx.staker.pending(ctx.global_state);
    ClaimRewards {
        fee_vault: with_lamports(ctx.fee_vault, ctx.fee_vault.lamports - pending),
        staker: Staker { reward_debt: ctx.global_state.reward_per_share, ..ctx.staker },
        user: with_lamports(ctx.user, ctx.user.lamports + pending),
        ..ctx
    }
}

/// Pays the signer's pending rewards and settles the position.
pub fn process_claim_rewards(ctx: &mut ClaimRewards) -> (r: Result<(), StakingError>)
    ensures
        r == claim_rewards_outcome(*old(ctx)),
        r is Ok ==> *final(ctx) == claimed(*old(ctx)),
        r is Err ==> *final(ctx) == *old(ctx),
{
    check_owner(&ctx.staker, &ctx.user)?;
    let global_state = ctx.global_state;
    ctx.staker.claim_rewards(&global_state, &mut ctx.fee_vault, &mut ctx.user)
}

/// The outcome of `process_close_staking`.
pub open spec fn close_staking_outcome(ctx: CloseStaking) -> Result<(), StakingError> {
    let claim = ClaimRewards {
        global_state: ctx.global_state,
        fee_vault: ctx.fee_vault,
        staker: ctx.staker,
        user: ctx.user,
    };
    let after = claimed(claim);
    match claim_rewards_outcome(claim) {
        Err(e) => Err(e),
        Ok(_) => if ctx.staker.amount == 0 {
            Ok(())
        } else {
            after.staker.decrease_stake_outcome(
                ctx.global_state,
                ctx.staker_info,
                after.user,
                ctx.staker.amount,
            )
        },
    }
}

/// The accounts after the final claim and the withdrawal of the whole stake.
pub open spec fn closed(ctx: CloseStaking) -> CloseStaking {
    let pending = ctx.staker.pending(ctx.global_state);
    let amount = ctx.staker.amount;
    CloseStaking {
        global_state: GlobalState {
            total_staked: (ctx.global_state.total_staked - amount) as u64,
            ..ctx.global_state
        },
        fee_vault: with_lamports(ctx.fee_vault, ctx.fee_vault.lamports - pending),
        staker: Staker { amount: 0, reward_debt: ctx.global_state.reward_per_share, ..ctx.staker },
        staker_info: with_lamports(ctx.staker_info, ctx.staker_info.lamports - amount),
        user: with_lamports(ctx.user, ctx.user.lamports + pending + amount),
    }
}

/// Pays the signer's pending rewards, then withdraws the whole stake. On
/// failure nothing changes.
pub fn process_close_staking(ctx: &mut CloseStaking) -> (r: Result<(), StakingError>)
    ensures
        r == close_staking_outcome(*old(ctx)),
        r is Ok ==> *final(ctx) == closed(*old(ctx)),
        r is Err ==> *final(ctx) == *old(ctx),
{
    let mut claim = ClaimRewards {
        global_state: ctx.global_state,
        fee_vault: ctx.fee_vault,
        staker: ctx.staker,
        user: ctx.user,
    };
    process_claim_rewards(&mut claim)?;
    let amount = claim.staker.amount;
    let mut global_state = ctx.global_state;
    let mut staker_info = ctx.staker_info;
    if amount > 0 {
        claim.staker.decrease_stake(&mut global_state, &mut staker_info, &mut claim.user, amount)?;
    }
    ctx.global_state = global_state;
    ctx.fee_vault = claim.fee_vault;
    ctx.staker = claim.staker;
    ctx.staker_info = staker_info;
    ctx.user = claim.user;
    Ok(())
}

/// A deposit of `amount` followed, with no fee paid in between, by a
/// withdrawal of the same amount goes through and leaves the pool, the
/// position and both accounts exactly as they were.
pub proof fn lemma_deposit_then_withdraw_restores(
    global: GlobalState,
    staker: Staker,
    staker_info: Account,
    user: Account,
    amount: u64,
)
    requires
        staker.add_stake_outcome(global, user, staker_info, amount) is Ok,
    ensures
        ({
            let d = deposited(global, staker, staker_info, user, amount);
            &&& d.1.decrease_stake_outcome(d.0, d.2, d.3, amount) is Ok
            &&& withdrawn(d.0, d.1, d.2, d.3, amount) == (global, staker, staker_info, user)
        }),
{
}

} // verus!
