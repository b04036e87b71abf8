use vstd::prelude::*;

use crate::error::StakingError;
use crate::helper::Account;
use crate::identity::Identity;
use crate::state::{FeeVault, GlobalState, DEFAULT_FEE_BASIS_POINTS, FEE_DENOMINATOR};

verus! {

/// The address nonces found for the two singleton records.
#[derive(Debug, Clone, Copy)]
pub struct InitializeBumps {
    pub global_state: u8,
    pub fee_vault: u8,
}

/// The accounts of the one-time setup of the pool and the vault.
#[derive(Debug, Clone, Copy)]
pub struct Initialize {
    pub global_state: GlobalState,
    pub fee_vault: FeeVault,
    pub fee_vault_key: Identity,
    pub admin: Account,
    pub bumps: InitializeBumps,
}

/// The pool that `process_initialize` sets up: `admin` in charge, nothing
/// staked or accrued, and the fee rate given or else the default.
pub open spec fn initial_pool(
    admin: Identity,
    fee_vault: Identity,
    bump: u8,
    fee_basis_points: Option<u32>,
) -> GlobalState {
    GlobalState {
        admin,
        total_staked: 0,
        reward_per_share: 0,
        fee_basis_points: match fee_basis_points {
            Some(f) => f,
            None => DEFAULT_FEE_BASIS_POINTS,
        },
        fee_vault,
        bump,
    }
}

/// No rate given, or one of at most 100%.
pub open spec fn fee_rate_accepted(fee_basis_points: Option<u32>) -> bool {
    match fee_basis_points {
        Some(f) => f <= FEE_DENOMINATOR,
        None => true,
    }
}

/// Sets up the pool and the vault, with the signer as admin. A fee rate above
/// 100% is refused with `MathError`, and a setup that the admin did not sign
/// with `Unauthorized`; on failure nothing changes.
pub fn process_initialize(ctx: &mut Initialize, fee_basis_points: Option<u32>) -> (r: Result<
    (),
    StakingError,
>)
    ensures
        !old(ctx).admin.is_signer ==> r == Err::<(), StakingError>(StakingError::Unauthorized),
        old(ctx).admin.is_signer && !fee_rate_accepted(fee_basis_points) ==> r == Err::<
            (),
            StakingError,
        >(StakingError::MathError),
        r is Err ==> *final(ctx) == *old(ctx),
        old(ctx).admin.is_signer && fee_rate_accepted(fee_basis_points) ==> r is Ok && *final(ctx)
            == (Initialize {
            global_state: initial_pool(
                old(ctx).admin.key,
                old(ctx).fee_vault_key,
                old(ctx).bumps.global_state,
                fee_basis_points,
            ),
            fee_vault: FeeVault { bump: old(ctx).bumps.fee_vault },
            ..*old(ctx)
        }) && final(ctx).global_state.wf(),
{
    if !ctx.admin.is_signer {
        return Err(StakingError::Unauthorized);
    }
    let mut global_state = ctx.global_state;
    global_state.init(ctx.admin.key, ctx.fee_vault_key, ctx.bumps.global_state);
    if let Some(fee) = fee_basis_points {
        global_state.update_fee_basis_points(fee)?;
    }
    ctx.global_state = global_state;
    ctx.fee_vault.init(ctx.bumps.fee_vault);
    Ok(())
}

} // verus!
