use vstd::prelude::*;

use crate::error::StakingError;
use crate::helper::{move_outcome, moved, transfer_sol_pda, Account};
use crate::identity::Identity;
use crate::state::{GlobalState, FEE_DENOMINATOR};

verus! {

/// `caller` is the pool's admin and signed the operation.
pub open spec fn is_admin(global: GlobalState, caller: Account) -> bool {
    caller.is_signer && caller.key@ == global.admin@
}

fn check_admin(global: &GlobalState, caller: &Account) -> (r: Result<(), StakingError>)
    ensures
        r is Ok <==> is_admin(*global, *caller),
        r is Err ==> r == Err::<(), StakingError>(StakingError::Unauthorized),
{
    if !caller.is_signer || caller.key != global.admin {
        return Err(StakingError::Unauthorized);
    }
    Ok(())
}

/// The accounts of an admin handoff.
#[derive(Debug, Clone, Copy)]
pub struct UpdateAdmin {
    pub global_state: GlobalState,
    pub admin: Account,
}

/// The accounts of an emergency drain of the vault.
#[derive(Debug, Clone, Copy)]
pub struct EmergencyWithdraw {
    pub global_state: GlobalState,
    pub fee_vault: Account,
    pub admin: Account,
}

/// The accounts of a fee-rate change.
#[derive(Debug, Clone, Copy)]
pub struct UpdateFeeBasisPoints {
    pub global_state: GlobalState,
    pub admin: Account,
}

/// Hands the admin role to `new_admin` at once; only the admin may.
pub fn process_update_admin(ctx: &mut UpdateAdmin, new_admin: Identity) -> (r: Result<
    (),
    StakingError,
>)
    ensures
        is_admin(old(ctx).global_state, old(ctx).admin) ==> r is Ok && *final(ctx) == (UpdateAdmin {
            global_state: GlobalState { admin: new_admin, ..old(ctx).global_state },
            ..*old(ctx)
        }),
        !is_admin(old(ctx).global_state, old(ctx).admin) ==> r == Err::<(), StakingError>(
            StakingError::Unauthorized,
        ) && *final(ctx) == *old(ctx),
{
    check_admin(&ctx.global_state, &ctx.admin)?;
    ctx.global_state.admin = new_admin;
    Ok(())
}

/// Moves `amount` out of the vault to the admin, leaving the accumulator and
/// the staked total as they are; only the admin may.
pub fn process_emergency_withdraw(ctx: &mut EmergencyWithdraw, amount: u64) -> (r: Result<
    (),
    StakingError,
>)
    ensures
        !is_admin(old(ctx).global_state, old(ctx).admin) ==> r == Err::<(), StakingError>(
            StakingError::Unauthorized,
        ),
        is_admin(old(ctx).global_state, old(ctx).admin) ==> r == move_outcome(
            old(ctx).fee_vault,
            old(ctx).admin,
            amount,
        ),
        moved(old(ctx).fee_vault, old(ctx).admin, amount, r, final(ctx).fee_vault, final(ctx).admin),
        final(ctx).global_state == old(ctx).global_state,
{
    check_admin(&ctx.global_state, &ctx.admin)?;
    transfer_sol_pda(&mut ctx.fee_vault, &mut ctx.admin, amount)
}

/// Sets the fee rate; only the admin may, and a rate above 100% is refused
/// with `MathError`.
pub fn process_update_fee_basis_points(ctx: &mut UpdateFeeBasisPoints, new_fee_basis_points: u32)
    -> (r: Result<(), StakingError>)
    ensures
        !is_admin(old(ctx).global_state, old(ctx).admin) ==> r == Err::<(), StakingError>(
            StakingError::Unauthorized,
        ) && *final(ctx) == *old(ctx),
        is_admin(old(ctx).global_state, old(ctx).admin) && new_fee_basis_points > FEE_DENOMINATOR
            ==> r == Err::<(), StakingError>(StakingError::MathError) && *final(ctx) == *old(ctx),
        is_admin(old(ctx).global_state, old(ctx).admin) && new_fee_basis_points <= FEE_DENOMINATOR
            ==> r is Ok && *final(ctx) == (UpdateFeeBasisPoints {
            global_state: GlobalState {
                fee_basis_points: new_fee_basis_points,
                ..old(ctx).global_state
            },
            ..*old(ctx)
        }),
{
    check_admin(&ctx.global_state, &ctx.admin)?;
    ctx.global_state.update_fee_basis_points(new_fee_basis_points)
}

} // verus!
