use vstd::prelude::*;

use crate::admin::{
    is_admin, process_emergency_withdraw, process_update_admin, process_update_fee_basis_points,
    EmergencyWithdraw, UpdateAdmin, UpdateFeeBasisPoints,
};
use crate::error::StakingError;
use crate::helper::{move_outcome, moved, transfer_sol_pda, with_lamports, Account};
use crate::identity::Identity;
use crate::initialize::{
    fee_rate_accepted, initial_pool, process_initialize, Initialize, InitializeBumps,
};
use crate::staking::{
    add_staking_outcome, claim_rewards_outcome, claimed, close_staking_outcome, closed,
    create_staking_outcome, decrease_staking_outcome, deposited, fresh_position,
    process_add_staking, process_claim_rewards, process_close_staking, process_create_staking,
    process_decrease_staking, withdrawn, AddStaking, ClaimRewards, CloseStaking, CreateStaking,
    DecreaseStaking,
};
use crate::state::{reward_increment, FeeVault, GlobalState, Staker, FEE_DENOMINATOR, REWARD_SCALE};
use crate::transaction::{process_transfer, transfer_outcome, transferred, Transfer};

verus! {

/// Why an operation on a deployment failed: the engine refused it, or the
/// position it names is missing or already there.
#[derive(Debug, Clone, Copy, PartialEq, Eq, Structural)]
pub enum ProgramError {
    Staking(StakingError),
    /// The caller already has a position.
    AccountInUse,
    /// The caller has no position.
    AccountNotFound,
}

/// A live position: its record and the account that holds its stake.
#[derive(Debug, Clone, Copy)]
pub struct Position {
    pub staker: Staker,
    pub info: Account,
}

/// One deployment: the pool, the vault, and the positions, one per owner.
#[derive(Debug)]
pub struct StakingProgram {
    pub global_state: GlobalState,
    pub fee_vault: FeeVault,
    pub fee_vault_info: Account,
    pub positions: Vec<Position>,
}

/// The sum of the staked amounts of `s`.
pub open spec fn total_of(s: Seq<Position>) -> int
    decreases s.len(),
{
    if s.len() == 0 {
        0
    } else {
        total_of(s.drop_last()) + s.last().staker.amount
    }
}

/// Index of the position that `owner` holds in `s`, if any.
pub open spec fn position_of(s: Seq<Position>, owner: Seq<u8>) -> Option<int> {
    if exists|i: int| 0 <= i < s.len() && s[i].staker.owner@ == owner {
        Some(choose|i: int| 0 <= i < s.len() && s[i].staker.owner@ == owner)
    } else {
        None
    }
}

/// An engine result as a deployment result.
pub open spec fn lift(r: Result<(), StakingError>) -> Result<(), ProgramError> {
    match r {
        Ok(_) => Ok(()),
        Err(e) => Err(ProgramError::Staking(e)),
    }
}

fn lift_exec(r: Result<(), StakingError>) -> (out: Result<(), ProgramError>)
    ensures
        out == lift(r),
{
    match r {
        Ok(_) => Ok(()),
        Err(e) => Err(ProgramError::Staking(e)),
    }
}

proof fn lemma_total_push(s: Seq<Position>, p: Position)
    ensures
        total_of(s.push(p)) == total_of(s) + p.staker.amount,
{
    assert(s.push(p).drop_last() =~= s);
}

proof fn lemma_total_update(s: Seq<Position>, i: int, p: Position)
    requires
        0 <= i < s.len(),
    ensures
        total_of(s.update(i, p)) == total_of(s) - s[i].staker.amount + p.staker.amount,
    decreases s.len(),
{
    if i == s.len() - 1 {
        assert(s.update(i, p).drop_last() =~= s.drop_last());
    } else {
        lemma_total_update(s.drop_last(), i, p);
        assert(s.update(i, p).drop_last() =~= s.drop_last().update(i, p));
    }
}

proof fn lemma_total_remove(s: Seq<Position>, i: int)
    requires
        0 <= i < s.len(),
    ensures
        total_of(s.remove(i)) == total_of(s) - s[i].staker.amount,
    decreases s.len(),
{
    if i == s.len() - 1 {
        assert(s.remove(i) =~= s.drop_last());
    } else {
        lemma_total_remove(s.drop_last(), i);
        assert(s.remove(i).drop_last() =~= s.drop_last().remove(i));
    }
}

/// What the positions of `s` are owed at accumulator `reward_per_share`,
/// scaled by `REWARD_SCALE` and before rounding.
pub open spec fn owed_of(s: Seq<Position>, reward_per_share: int) -> int
    decreases s.len(),
{
    if s.len() == 0 {
        0
    } else {
        owed_of(s.drop_last(), reward_per_share) + owed_by(s.last(), reward_per_share)
    }
}

/// What one position is owed at accumulator `reward_per_share`, scaled.
pub open spec fn owed_by(p: Position, reward_per_share: int) -> int {
    (reward_per_share - p.staker.reward_debt) * p.staker.amount
}

proof fn lemma_owed_push(s: Seq<Position>, p: Position, r: int)
    ensures
        owed_of(s.push(p), r) == owed_of(s, r) + owed_by(p, r),
{
    assert(s.push(p).drop_last() =~= s);
}

proof fn lemma_owed_update(s: Seq<Position>, i: int, p: Position, r: int)
    requires
        0 <= i < s.len(),
    ensures
        owed_of(s.update(i, p), r) == owed_of(s, r) - owed_by(s[i], r) + owed_by(p, r),
    decreases s.len(),
{
    if i == s.len() - 1 {
        assert(s.update(i, p).drop_last() =~= s.drop_last());
    } else {
        lemma_owed_update(s.drop_last(), i, p, r);
        assert(s.update(i, p).drop_last() =~= s.drop_last().update(i, p));
    }
}

proof fn lemma_owed_remove(s: Seq<Position>, i: int, r: int)
    requires
        0 <= i < s.len(),
    ensures
        owed_of(s.remove(i), r) == owed_of(s, r) - owed_by(s[i], r),
    decreases s.len(),
{
    if i == s.len() - 1 {
        assert(s.remove(i) =~= s.drop_last());
    } else {
        lemma_owed_remove(s.drop_last(), i, r);
        assert(s.remove(i).drop_last() =~= s.drop_last().remove(i));
    }
}

/// Raising the accumulator by `k` raises what is owed by `k` per staked
/// lamport.
proof fn lemma_owed_shift(s: Seq<Position>, r: int, k: int)
    ensures
        owed_of(s, r + k) == owed_of(s, r) + k * total_of(s),
    decreases s.len(),
{
    if s.len() > 0 {
        lemma_owed_shift(s.drop_last(), r, k);
        let d = s.last().staker.reward_debt as int;
        let a = s.last().staker.amount as int;
        assert((r + k - d) * a == (r - d) * a + k * a) by (nonlinear_arith);
        assert(k * total_of(s) == k * total_of(s.drop_last()) + k * a) by (nonlinear_arith)
            requires
                total_of(s) == total_of(s.drop_last()) + a,
        ;
    }
}

/// A settled position is owed nothing.
proof fn lemma_owed_settled(p: Position, r: int)
    requires
        p.staker.reward_debt == r,
    ensures
        owed_by(p, r) == 0,
{
    assert((r - p.staker.reward_debt) * p.staker.amount == 0) by (nonlinear_arith)
        requires
            r - p.staker.reward_debt == 0,
    ;
}

/// The rewards a position is paid never exceed, scaled, what it is owed.
proof fn lemma_payout_covered(p: Position, global: GlobalState)
    requires
        p.staker.reward_debt <= global.reward_per_share,
    ensures
        0 <= p.staker.pending(global),
        p.staker.pending(global) * REWARD_SCALE <= owed_by(p, global.reward_per_share as int),
{
    let x = (global.reward_per_share - p.staker.reward_debt) * p.staker.amount;
    assert(x >= 0) by (nonlinear_arith)
        requires
            global.reward_per_share - p.staker.reward_debt >= 0,
            p.staker.amount >= 0,
            x == (global.reward_per_share - p.staker.reward_debt) * p.staker.amount,
    ;
    assert(0 <= x / 1_000_000_000_000 && (x / 1_000_000_000_000) * 1_000_000_000_000 <= x) by (
    nonlinear_arith)
        requires
            x >= 0,
    ;
}

/// Spreading a fee over the staked total never credits more than the fee.
proof fn lemma_increment_covered(fee: int, total_staked: int)
    requires
        fee >= 0,
        total_staked >= 0,
    ensures
        0 <= reward_increment(fee, total_staked),
        reward_increment(fee, total_staked) * total_staked <= fee * REWARD_SCALE,
{
    if total_staked > 0 {
        let x = fee * 1_000_000_000_000;
        assert(x >= 0) by (nonlinear_arith)
            requires
                fee >= 0,
                x == fee * 1_000_000_000_000,
        ;
        assert(0 <= x / total_staked && (x / total_staked) * total_staked <= x) by (
        nonlinear_arith)
            requires
                x >= 0,
                total_staked > 0,
        ;
    }
}

impl StakingProgram {
    /// The pool's rate is in range, its staked total is the sum over the live
    /// positions, no owner holds two positions, and no position is settled
    /// past the accumulator.
    pub open spec fn wf(&self) -> bool {
        &&& self.global_state.wf()
        &&& self.global_state.total_staked == total_of(self.positions@)
        &&& forall|i: int, j: int|
            0 <= i < j < self.positions@.len() ==> self.positions@[i].staker.owner@
                != self.positions@[j].staker.owner@
        &&& forall|i: int|
            0 <= i < self.positions@.len() ==> self.positions@[i].staker.reward_debt
                <= self.global_state.reward_per_share
    }

    /// The vault holds at least what the positions are owed: scaled, its
    /// balance covers every pending reward before rounding, so the rounded
    /// payouts can all be made.
    pub open spec fn solvent(&self) -> bool {
        self.fee_vault_info.lamports * REWARD_SCALE >= owed_of(
            self.positions@,
            self.global_state.reward_per_share as int,
        )
    }

    /// The index of the position of `owner`.
    pub fn find_position(&self, owner: &Identity) -> (r: Option<usize>)
        requires
            self.wf(),
        ensures
            match r {
                Some(i) => position_of(self.positions@, owner@) == Some(i as int),
                None => position_of(self.positions@, owner@) is None,
            },
    {
        let mut i: usize = 0;
        while i < self.positions.len()
            invariant
                self.wf(),
                0 <= i <= self.positions@.len(),
                forall|j: int| 0 <= j < i ==> self.positions@[j].staker.owner@ != owner@,
            decreases self.positions@.len() - i,
        {
            if self.positions[i].staker.owner == *owner {
                assert(self.positions@[i as int].staker.owner@ == owner@);
                let ghost k = choose|k: int|
                    0 <= k < self.positions@.len() && self.positions@[k].staker.owner@ == owner@;
                assert(k == i) by {
                    if k < i {
                    } else if k > i {
                        assert(self.positions@[i as int].staker.owner@
                            != self.positions@[k].staker.owner@);
                    }
                }
                return Some(i);
            }
            i = i + 1;
        }
        None
    }
}

/// The accounts that `add_staking` hands to the engine for position `i`.
pub open spec fn add_staking_ctx(p: StakingProgram, user: Account, i: int) -> AddStaking {
    AddStaking {
        global_state: p.global_state,
        staker: p.positions@[i].staker,
        staker_info: p.positions@[i].info,
        user,
    }
}

/// The accounts that `decrease_staking` hands to the engine for position `i`.
pub open spec fn decrease_staking_ctx(p: StakingProgram, user: Account, i: int) -> DecreaseStaking {
    DecreaseStaking {
        global_state: p.global_state,
        staker: p.positions@[i].staker,
        staker_info: p.positions@[i].info,
        user,
    }
}

/// The accounts that `claim_rewards` hands to the engine for position `i`.
pub open spec fn claim_rewards_ctx(p: StakingProgram, user: Account, i: int) -> ClaimRewards {
    ClaimRewards {
        global_state: p.global_state,
        fee_vault: p.fee_vault_info,
        staker: p.positions@[i].staker,
        user,
    }
}

/// The accounts that `create_staking` hands to the engine.
pub open spec fn create_staking_ctx(p: StakingProgram, user: Account, staker_info: Account) -> CreateStaking {
    CreateStaking {
        global_state: p.global_state,
        staker: fresh_position(user, p.global_state),
        staker_info,
        user,
    }
}

/// Sets up a deployment with the signer as admin, an empty pool at the given
/// fee rate (1% when none is given), and no positions. Refused with
/// `Unauthorized` when the admin did not sign, and with `MathError` for a rate
/// above 100%.
pub fn initialize(
    admin: &Account,
    fee_vault: Account,
    bumps: InitializeBumps,
    fee_basis_points: Option<u32>,
) -> (r: Result<StakingProgram, StakingError>)
    ensures
        !admin.is_signer ==> r == Err::<StakingProgram, StakingError>(StakingError::Unauthorized),
        admin.is_signer && !fee_rate_accepted(fee_basis_points) ==> r == Err::<
            StakingProgram,
            StakingError,
        >(StakingError::MathError),
        admin.is_signer && fee_rate_accepted(fee_basis_points) ==> r is Ok,
        r matches Ok(p) ==> {
            &&& p.wf()
            &&& p.solvent()
            &&& p.global_state == initial_pool(
                admin.key,
                fee_vault.key,
                bumps.global_state,
                fee_basis_points,
            )
            &&& p.fee_vault == FeeVault { bump: bumps.fee_vault }
            &&& p.fee_vault_info == fee_vault
            &&& p.positions@.len() == 0
        },
{
    let mut ctx = Initialize {
        global_state: GlobalState {
            admin: admin.key,
            total_staked: 0,
            reward_per_share: 0,
            fee_basis_points: 0,
            fee_vault: fee_vault.key,
            bump: 0,
        },
        fee_vault: FeeVault { bump: 0 },
        fee_vault_key: fee_vault.key,
        admin: *admin,
        bumps,
    };
    process_initialize(&mut ctx, fee_basis_points)?;
    let program = StakingProgram {
        global_state: ctx.global_state,
        fee_vault: ctx.fee_vault,
        fee_vault_info: fee_vault,
        positions: Vec::new(),
    };
    assert(total_of(program.positions@) == 0);
    assert(owed_of(program.positions@, 0) == 0);
    assert(fee_vault.lamports * REWARD_SCALE >= 0) by (nonlinear_arith);
    Ok(program)
}

/// Opens a position for the signer, held in `staker_info`, and deposits
/// `amount` into it. Refused with `AccountInUse` when the signer already has a
/// position; otherwise as `process_create_staking` decides. On failure
/// nothing changes.
pub fn create_staking(program: &mut StakingProgram, user: &mut Account, staker_info: Account, amount: u64)
    -> (r: Result<(), ProgramError>)
    requires
        old(program).wf(),
    ensures
        final(program).wf(),
        old(program).solvent() ==> final(program).solvent(),
        final(program).global_state.reward_per_share == old(program).global_state.reward_per_share,
        position_of(old(program).positions@, old(user).key@) is Some ==> r == Err::<(), ProgramError>(
            ProgramError::AccountInUse,
        ),
        position_of(old(program).positions@, old(user).key@) is None ==> r == lift(
            create_staking_outcome(create_staking_ctx(*old(program), *old(user), staker_info), amount),
        ),
        r is Ok ==> {
            let d = deposited(
                old(program).global_state,
                fresh_position(*old(user), old(program).global_state),
                staker_info,
                *old(user),
                amount,
            );
            &&& final(program).global_state == d.0
            &&& final(program).positions@ == old(program).positions@.push(
                Position { staker: d.1, info: d.2 },
            )
            &&& *final(user) == d.3
            &&& final(program).fee_vault_info == old(program).fee_vault_info
        },
        r is Err ==> *final(program) == *old(program) && *final(user) == *old(user),
{
    if program.find_position(&user.key).is_some() {
        return Err(ProgramError::AccountInUse);
    }
    let mut ctx = CreateStaking {
        global_state: program.global_state,
        staker: Staker { owner: user.key, amount: 0, reward_debt: program.global_state.reward_per_share },
        staker_info,
        user: *user,
    };
    let r = process_create_staking(&mut ctx, amount);
    if r.is_err() {
        return lift_exec(r);
    }
    proof {
        lemma_total_push(program.positions@, Position { staker: ctx.staker, info: ctx.staker_info });
        lemma_owed_push(
            program.positions@,
            Position { staker: ctx.staker, info: ctx.staker_info },
            program.global_state.reward_per_share as int,
        );
        lemma_owed_settled(
            Position { staker: ctx.staker, info: ctx.staker_info },
            program.global_state.reward_per_share as int,
        );
    }
    program.global_state = ctx.global_state;
    program.positions.push(Position { staker: ctx.staker, info: ctx.staker_info });
    *user = ctx.user;
    Ok(())
}

/// Deposits `amount` more into the signer's position. Refused with
/// `AccountNotFound` when the signer has none; otherwise as
/// `process_add_staking` decides. On failure nothing changes.
pub fn add_staking(program: &mut StakingProgram, user: &mut Account, amount: u64) -> (r: Result<
    (),
    ProgramError,
>)
    requires
        old(program).wf(),
    ensures
        final(program).wf(),
        old(program).solvent() ==> final(program).solvent(),
        final(program).global_state.reward_per_share == old(program).global_state.reward_per_share,
        match position_of(old(program).positions@, old(user).key@) {
            None => r == Err::<(), ProgramError>(ProgramError::AccountNotFound),
            Some(i) => {
                let ctx = add_staking_ctx(*old(program), *old(user), i);
                let d = deposited(ctx.global_state, ctx.staker, ctx.staker_info, ctx.user, amount);
                &&& r == lift(add_staking_outcome(ctx, amount))
                &&& r is Ok ==> {
                    &&& final(program).global_state == d.0
                    &&& final(program).positions@ == old(program).positions@.update(
                        i,
                        Position { staker: d.1, info: d.2 },
                    )
                    &&& *final(user) == d.3
                    &&& final(program).fee_vault_info == old(program).fee_vault_info
                }
            },
        },
        r is Err ==> *final(program) == *old(program) && *final(user) == *old(user),
{
    let i = match program.find_position(&user.key) {
        None => {
            return Err(ProgramError::AccountNotFound);
        },
        Some(i) => i,
    };
    let mut ctx = AddStaking {
        global_state: program.global_state,
        staker: program.positions[i].staker,
        staker_info: program.positions[i].info,
        user: *user,
    };
    let r = process_add_staking(&mut ctx, amount);
    if r.is_err() {
        return lift_exec(r);
    }
    let p = Position { staker: ctx.staker, info: ctx.staker_info };
    proof {
        lemma_total_update(program.positions@, i as int, p);
        lemma_owed_update(program.positions@, i as int, p, program.global_state.reward_per_share as int);
        lemma_owed_settled(program.positions@[i as int], program.global_state.reward_per_share as int);
        lemma_owed_settled(p, program.global_state.reward_per_share as int);
    }
    program.global_state = ctx.global_state;
    program.positions.set(i, p);
    *user = ctx.user;
    Ok(())
}

/// Withdraws `amount` from the signer's position. Refused with
/// `AccountNotFound` when the signer has none; otherwise as
/// `process_decrease_staking` decides. On failure nothing changes.
pub fn decrease_staking(program: &mut StakingProgram, user: &mut Account, amount: u64) -> (r: Result<
    (),
    ProgramError,
>)
    requires
        old(program).wf(),
    ensures
        final(program).wf(),
        old(program).solvent() ==> final(program).solvent(),
        final(program).global_state.reward_per_share == old(program).global_state.reward_per_share,
        match position_of(old(program).positions@, old(user).key@) {
            None => r == Err::<(), ProgramError>(ProgramError::AccountNotFound),
            Some(i) => {
                let ctx = decrease_staking_ctx(*old(program), *old(user), i);
                let w = withdrawn(ctx.global_state, ctx.staker, ctx.staker_info, ctx.user, amount);
                &&& r == lift(decrease_staking_outcome(ctx, amount))
                &&& r is Ok ==> {
                    &&& final(program).global_state == w.0
                    &&& final(program).positions@ == old(program).positions@.update(
                        i,
                        Position { staker: w.1, info: w.2 },
                    )
                    &&& *final(user) == w.3
                    &&& final(program).fee_vault_info == old(program).fee_vault_info
                }
            },
        },
        r is Err ==> *final(program) == *old(program) && *final(user) == *old(user),
{
    let i = match program.find_position(&user.key) {
        None => {
            return Err(ProgramError::AccountNotFound);
        },
        Some(i) => i,
    };
    let mut ctx = DecreaseStaking {
        global_state: program.global_state,
        staker: program.positions[i].staker,
        staker_info: program.positions[i].info,
        user: *user,
    };
    let r = process_decrease_staking(&mut ctx, amount);
    if r.is_err() {
        return lift_exec(r);
    }
    let p = Position { staker: ctx.staker, info: ctx.staker_info };
    proof {
        lemma_total_update(program.positions@, i as int, p);
        lemma_owed_update(program.positions@, i as int, p, program.global_state.reward_per_share as int);
        lemma_owed_settled(program.positions@[i as int], program.global_state.reward_per_share as int);
        lemma_owed_settled(p, program.global_state.reward_per_share as int);
    }
    program.global_state = ctx.global_state;
    program.positions.set(i, p);
    *user = ctx.user;
    Ok(())
}

/// Pays the signer's pending rewards from the vault and settles the position.
/// Refused with `AccountNotFound` when the signer has none; otherwise as
/// `process_claim_rewards` decides. On failure nothing changes.
pub fn claim_rewards(program: &mut StakingProgram, user: &mut Account) -> (r: Result<(), ProgramError>)
    requires
        old(program).wf(),
    ensures
        final(program).wf(),
        old(program).solvent() ==> final(program).solvent(),
        final(program).global_state == old(program).global_state,
        match position_of(old(program).positions@, old(user).key@) {
            None => r == Err::<(), ProgramError>(ProgramError::AccountNotFound),
            Some(i) => {
                let ctx = claim_rewards_ctx(*old(program), *old(user), i);
                let c = claimed(ctx);
                &&& r == lift(claim_rewards_outcome(ctx))
                &&& r is Ok ==> {
                    &&& final(program).positions@ == old(program).positions@.update(
                        i,
                        Position { staker: c.staker, info: old(program).positions@[i].info },
                    )
                    &&& final(program).fee_vault_info == c.fee_vault
                    &&& *final(user) == c.user
                    &&& final(program).positions@[i].staker.reward_debt
                        == final(program).global_state.reward_per_share
                }
            },
        },
        r is Err ==> *final(program) == *old(program) && *final(user) == *old(user),
{
    let i = match program.find_position(&user.key) {
        None => {
            return Err(ProgramError::AccountNotFound);
        },
        Some(i) => i,
    };
    let mut ctx = ClaimRewards {
        global_state: program.global_state,
        fee_vault: program.fee_vault_info,
        staker: program.positions[i].staker,
        user: *user,
    };
    let r = process_claim_rewards(&mut ctx);
    if r.is_err() {
        return lift_exec(r);
    }
    let p = Position { staker: ctx.staker, info: program.positions[i].info };
    proof {
        let r = program.global_state.reward_per_share as int;
        lemma_total_update(program.positions@, i as int, p);
        lemma_owed_update(program.positions@, i as int, p, r);
        lemma_owed_settled(p, r);
        lemma_payout_covered(program.positions@[i as int], program.global_state);
    }
    program.positions.set(i, p);
    program.fee_vault_info = ctx.fee_vault;
    *user = ctx.user;
    Ok(())
}

/// The accounts that `close_staking` hands to the engine for position `i`.
pub open spec fn close_staking_ctx(p: StakingProgram, user: Account, i: int) -> CloseStaking {
    CloseStaking {
        global_state: p.global_state,
        fee_vault: p.fee_vault_info,
        staker: p.positions@[i].staker,
        staker_info: p.positions@[i].info,
        user,
    }
}

/// The outcome of closing a position: the final claim and withdrawal, then
/// the return of whatever the position's account still holds to its owner.
pub open spec fn close_outcome(ctx: CloseStaking) -> Result<(), StakingError> {
    match close_staking_outcome(ctx) {
        Err(e) => Err(e),
        Ok(_) => {
            let c = closed(ctx);
            move_outcome(c.staker_info, c.user, c.staker_info.lamports)
        },
    }
}

/// Pays the signer's pending rewards, withdraws the whole stake, returns the
/// rest of the position's account to the signer and removes the position.
/// Refused with `AccountNotFound` when the signer has none; otherwise as
/// `close_outcome` says. On failure nothing changes.
pub fn close_staking(program: &mut StakingProgram, user: &mut Account) -> (r: Result<(), ProgramError>)
    requires
        old(program).wf(),
    ensures
        final(program).wf(),
        old(program).solvent() ==> final(program).solvent(),
        final(program).global_state.reward_per_share == old(program).global_state.reward_per_share,
        match position_of(old(program).positions@, old(user).key@) {
            None => r == Err::<(), ProgramError>(ProgramError::AccountNotFound),
            Some(i) => {
                let ctx = close_staking_ctx(*old(program), *old(user), i);
                let c = closed(ctx);
                &&& r == lift(close_outcome(ctx))
                &&& r is Ok ==> {
                    &&& final(program).global_state == c.global_state
                    &&& final(program).positions@ == old(program).positions@.remove(i)
                    &&& final(program).fee_vault_info == c.fee_vault
                    &&& *final(user) == with_lamports(
                        c.user,
                        c.user.lamports + c.staker_info.lamports,
                    )
                }
            },
        },
        r is Err ==> *final(program) == *old(program) && *final(user) == *old(user),
{
    let i = match program.find_position(&user.key) {
        None => {
            return Err(ProgramError::AccountNotFound);
        },
        Some(i) => i,
    };
    let mut ctx = CloseStaking {
        global_state: program.global_state,
        fee_vault: program.fee_vault_info,
        staker: program.positions[i].staker,
        staker_info: program.positions[i].info,
        user: *user,
    };
    let r = process_close_staking(&mut ctx);
    if r.is_err() {
        return lift_exec(r);
    }
    let rest = ctx.staker_info.lamports;
    let r = transfer_sol_pda(&mut ctx.staker_info, &mut ctx.user, rest);
    if r.is_err() {
        return lift_exec(r);
    }
    proof {
        let r = program.global_state.reward_per_share as int;
        lemma_total_remove(program.positions@, i as int);
        lemma_owed_remove(program.positions@, i as int, r);
        lemma_payout_covered(program.positions@[i as int], program.global_state);
    }
    let ghost before = program.positions@;
    program.global_state = ctx.global_state;
    program.fee_vault_info = ctx.fee_vault;
    program.positions.remove(i);
    assert forall|a: int, b: int| 0 <= a < b < program.positions@.len() implies
        program.positions@[a].staker.owner@ != program.positions@[b].staker.owner@ by {
        let a0 = if a < i { a } else { a + 1 };
        let b0 = if b < i { b } else { b + 1 };
        assert(program.positions@[a] == before[a0]);
        assert(program.positions@[b] == before[b0]);
    }
    assert forall|a: int| 0 <= a < program.positions@.len() implies
        program.positions@[a].staker.reward_debt <= program.global_state.reward_per_share by {
        let a0 = if a < i { a } else { a + 1 };
        assert(program.positions@[a] == before[a0]);
    }
    *user = ctx.user;
    Ok(())
}

/// The accounts that `transfer` hands to the engine.
pub open spec fn transfer_ctx(p: StakingProgram, from: Account, to: Account) -> Transfer {
    Transfer { from, to, fee_vault: p.fee_vault_info, global_state: p.global_state }
}

/// Moves `amount` from the signer to `to`, charges the fee on it into the
/// vault and credits the fee to the stakers, as `process_transfer` decides.
/// On failure nothing changes.
pub fn transfer(program: &mut StakingProgram, from: &mut Account, to: &mut Account, amount: u64)
    -> (r: Result<(), ProgramError>)
    requires
        old(program).wf(),
    ensures
        final(program).wf(),
        old(program).solvent() ==> final(program).solvent(),
        final(program).global_state.reward_per_share >= old(program).global_state.reward_per_share,
        final(program).positions@ == old(program).positions@,
        r == lift(transfer_outcome(transfer_ctx(*old(program), *old(from), *old(to)), amount)),
        r is Ok ==> {
            let t = transferred(
                transfer_ctx(*old(program), *old(from), *old(to)),
                amount,
                old(program).global_state.fee_on(amount) as u64,
            );
            &&& final(program).global_state == t.global_state
            &&& final(program).fee_vault_info == t.fee_vault
            &&& *final(from) == t.from
            &&& *final(to) == t.to
        },
        r is Err ==> *final(program) == *old(program) && *final(from) == *old(from) && *final(to)
            == *old(to),
{
    let mut ctx = Transfer {
        from: *from,
        to: *to,
        fee_vault: program.fee_vault_info,
        global_state: program.global_state,
    };
    let r = process_transfer(&mut ctx, amount);
    if r.is_err() {
        return lift_exec(r);
    }
    proof {
        let fee = program.global_state.fee_on(amount);
        let total = program.global_state.total_staked as int;
        lemma_increment_covered(fee, total);
        lemma_owed_shift(
            program.positions@,
            program.global_state.reward_per_share as int,
            reward_increment(fee, total),
        );
    }
    program.global_state = ctx.global_state;
    program.fee_vault_info = ctx.fee_vault;
    *from = ctx.from;
    *to = ctx.to;
    Ok(())
}

/// Hands the admin role to `new_admin`; only the admin may.
pub fn update_admin(program: &mut StakingProgram, caller: &Account, new_admin: Identity) -> (r: Result<
    (),
    StakingError,
>)
    requires
        old(program).wf(),
    ensures
        final(program).wf(),
        old(program).solvent() ==> final(program).solvent(),
        is_admin(old(program).global_state, *caller) ==> r is Ok && *final(program) == (
        StakingProgram {
            global_state: GlobalState { admin: new_admin, ..old(program).global_state },
            ..*old(program)
        }),
        !is_admin(old(program).global_state, *caller) ==> r == Err::<(), StakingError>(
            StakingError::Unauthorized,
        ) && *final(program) == *old(program),
{
    let mut ctx = UpdateAdmin { global_state: program.global_state, admin: *caller };
    process_update_admin(&mut ctx, new_admin)?;
    program.global_state = ctx.global_state;
    Ok(())
}

/// Drains `amount` from the vault to the admin, without touching the
/// accumulator or the staked total; only the admin may. This can take what
/// the stakers are owed, so it alone does not keep the vault solvent.
pub fn emergency_withdraw(program: &mut StakingProgram, caller: &mut Account, amount: u64) -> (r: Result<
    (),
    StakingError,
>)
    requires
        old(program).wf(),
    ensures
        final(program).wf(),
        !is_admin(old(program).global_state, *old(caller)) ==> r == Err::<(), StakingError>(
            StakingError::Unauthorized,
        ),
        is_admin(old(program).global_state, *old(caller)) ==> r == move_outcome(
            old(program).fee_vault_info,
            *old(caller),
            amount,
        ),
        moved(old(program).fee_vault_info, *old(caller), amount, r, final(program).fee_vault_info, *final(caller)),
        *final(program) == (StakingProgram { fee_vault_info: final(program).fee_vault_info, ..*old(program) }),
{
    let mut ctx = EmergencyWithdraw {
        global_state: program.global_state,
        fee_vault: program.fee_vault_info,
        admin: *caller,
    };
    let r = process_emergency_withdraw(&mut ctx, amount);
    program.fee_vault_info = ctx.fee_vault;
    *caller = ctx.admin;
    r
}

/// Sets the fee rate; only the admin may, and a rate above 100% is refused
/// with `MathError`.
pub fn update_fee_basis_points(program: &mut StakingProgram, caller: &Account, new_fee_basis_points: u32)
    -> (r: Result<(), StakingError>)
    requires
        old(program).wf(),
    ensures
        final(program).wf(),
        old(program).solvent() ==> final(program).solvent(),
        !is_admin(old(program).global_state, *caller) ==> r == Err::<(), StakingError>(
            StakingError::Unauthorized,
        ) && *final(program) == *old(program),
        is_admin(old(program).global_state, *caller) && new_fee_basis_points > FEE_DENOMINATOR ==> r
            == Err::<(), StakingError>(StakingError::MathError) && *final(program) == *old(program),
        is_admin(old(program).global_state, *caller) && new_fee_basis_points <= FEE_DENOMINATOR ==> r
            is Ok && *final(program) == (StakingProgram {
            global_state: GlobalState {
                fee_basis_points: new_fee_basis_points,
                ..old(program).global_state
            },
            ..*old(program)
        }),
{
    let mut ctx = UpdateFeeBasisPoints { global_state: program.global_state, admin: *caller };
    process_update_fee_basis_points(&mut ctx, new_fee_basis_points)?;
    program.global_state = ctx.global_state;
    Ok(())
}

} // verus!
