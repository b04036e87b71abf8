use vstd::prelude::*;

use crate::error::StakingError;
use crate::helper::{authorized_outcome, with_lamports, transfer_sol, Account};
use crate::state::{lemma_fee_bounds, GlobalState};

verus! {

/// The accounts of a fee-bearing transfer.
#[derive(Debug, Clone, Copy)]
pub struct Transfer {
    pub from: Account,
    pub to: Account,
    pub fee_vault: Account,
    pub global_state: GlobalState,
}

/// The accounts after a transfer of `amount` from `ctx.from` to `ctx.to` that
/// pays a fee of `fee` into the vault.
pub open spec fn transferred(ctx: Transfer, amount: u64, fee: u64) -> Transfer {
    Transfer {
        from: with_lamports(ctx.from, ctx.from.lamports - amount - fee),
        to: with_lamports(ctx.to, ctx.to.lamports + amount),
        fee_vault: with_lamports(ctx.fee_vault, ctx.fee_vault.lamports + fee),
        global_state: GlobalState {
            reward_per_share: ctx.global_state.accumulator_after(fee as int) as u128,
            ..ctx.global_state
        },
    }
}

/// The outcome of `process_transfer`: the transfer itself, then the fee,
/// both paid by the signer.
pub open spec fn transfer_outcome(ctx: Transfer, amount: u64) -> Result<(), StakingError> {
    match authorized_outcome(ctx.from, ctx.to, amount) {
        Err(e) => Err(e),
        Ok(_) => ctx.global_state.pay_fees_outcome(
            amount,
            with_lamports(ctx.from, ctx.from.lamports - amount),
            ctx.fee_vault,
        ),
    }
}

/// Moves `amount` from the signer to the recipient, then charges the fee on
/// it into the vault and credits it to the stakers. On failure nothing
/// changes.
pub fn process_transfer(ctx: &mut Transfer, amount: u64) -> (r: Result<(), StakingError>)
    requires
        old(ctx).global_state.wf(),
    ensures
        r == transfer_outcome(*old(ctx), amount),
        0 <= old(ctx).global_state.fee_on(amount) <= amount,
        final(ctx).global_state.reward_per_share >= old(ctx).global_state.reward_per_share,
        r is Ok ==> *final(ctx) == transferred(
            *old(ctx),
            amount,
            old(ctx).global_state.fee_on(amount) as u64,
        ),
        r is Err ==> *final(ctx) == *old(ctx),
{
    proof {
        lemma_fee_bounds(amount, ctx.global_state.fee_basis_points);
    }
    let mut from = ctx.from;
    let mut to = ctx.to;
    let mut fee_vault = ctx.fee_vault;
    let mut global_state = ctx.global_state;
    transfer_sol(&mut from, &mut to, amount)?;
    global_state.pay_fees(amount, &mut from, &mut fee_vault)?;
    ctx.from = from;
    ctx.to = to;
    ctx.fee_vault = fee_vault;
    ctx.global_state = global_state;
    Ok(())
}

} // verus!
