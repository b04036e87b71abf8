use transaction_staking::error::StakingError;
use transaction_staking::helper::{transfer_sol, transfer_sol_pda, Account};
use transaction_staking::identity::Identity;
use transaction_staking::state::{GlobalState, Staker, DEFAULT_FEE_BASIS_POINTS, REWARD_SCALE};

fn id(n: u8) -> Identity {
    Identity::new([n; 32])
}

fn wallet(n: u8, lamports: u64) -> Account {
    Account { key: id(n), lamports, is_signer: true }
}

fn custody(n: u8, lamports: u64) -> Account {
    Account { key: id(n), lamports, is_signer: false }
}

fn pool(total_staked: u64, reward_per_share: u128, fee_basis_points: u32) -> GlobalState {
    GlobalState {
        admin: id(1),
        total_staked,
        reward_per_share,
        fee_basis_points,
        fee_vault: id(2),
        bump: 254,
    }
}

fn position(owner: u8, amount: u64, reward_debt: u128) -> Staker {
    Staker { owner: id(owner), amount, reward_debt }
}

#[test]
fn identities_compare_by_bytes() {
    let mut bytes = [7u8; 32];
    assert!(id(7) == Identity::new(bytes));
    bytes[31] = 8;
    assert!(id(7) != Identity::new(bytes));
}

#[test]
fn fee_is_a_rounded_down_share_of_the_amount() {
    let g = pool(0, 0, DEFAULT_FEE_BASIS_POINTS);
    assert_eq!(g.calculate_fee_amount(100_000), 1_000);
    assert_eq!(g.calculate_fee_amount(99), 0);
    assert_eq!(g.calculate_fee_amount(12_345), 123);
    assert_eq!(pool(0, 0, 100_000).calculate_fee_amount(u64::MAX), u64::MAX);
    assert_eq!(pool(0, 0, 0).calculate_fee_amount(u64::MAX), 0);
    assert_eq!(pool(0, 0, 33_333).calculate_fee_amount(3), 0);
    assert_eq!(pool(0, 0, 33_333).calculate_fee_amount(300_000), 99_999);
}

#[test]
fn custody_transfer_moves_lamports() {
    let mut from = custody(3, 100);
    let mut to = wallet(4, 5);
    assert_eq!(transfer_sol_pda(&mut from, &mut to, 60), Ok(()));
    assert_eq!((from.lamports, to.lamports), (40, 65));
    assert_eq!(transfer_sol_pda(&mut from, &mut to, 41), Err(StakingError::InsufficientFunds));
    assert_eq!((from.lamports, to.lamports), (40, 65));
    let mut full = wallet(5, u64::MAX);
    assert_eq!(transfer_sol_pda(&mut from, &mut full, 1), Err(StakingError::MathError));
    assert_eq!((from.lamports, full.lamports), (40, u64::MAX));
}

#[test]
fn authorized_transfer_needs_a_signature() {
    let mut from = custody(3, 100);
    let mut to = wallet(4, 0);
    assert_eq!(transfer_sol(&mut from, &mut to, 10), Err(StakingError::Unauthorized));
    assert_eq!((from.lamports, to.lamports), (100, 0));
    let mut signer = wallet(5, 100);
    assert_eq!(transfer_sol(&mut signer, &mut to, 10), Ok(()));
    assert_eq!((signer.lamports, to.lamports), (90, 10));
    assert_eq!(transfer_sol(&mut signer, &mut to, 91), Err(StakingError::InsufficientFunds));
}

#[test]
fn pay_fees_raises_the_accumulator() {
    let mut g = pool(1_000_000, 0, 1_000);
    let mut payer = wallet(9, 200_000);
    let mut vault = custody(2, 0);
    assert_eq!(g.pay_fees(100_000, &mut payer, &mut vault), Ok(()));
    assert_eq!(g.reward_per_share, 1_000_000_000);
    assert_eq!(vault.lamports, 1_000);
    assert_eq!(payer.lamports, 199_000);
}

#[test]
fn pay_fees_with_nobody_staked_keeps_the_fee_in_the_vault() {
    let mut g = pool(0, 5, 1_000);
    let mut payer = wallet(9, 200_000);
    let mut vault = custody(2, 0);
    assert_eq!(g.pay_fees(100_000, &mut payer, &mut vault), Ok(()));
    assert_eq!(g.reward_per_share, 5);
    assert_eq!(vault.lamports, 1_000);
}

#[test]
fn pay_fees_refuses_an_accumulator_overflow() {
    let mut g = pool(1, u128::MAX - 10, 1_000);
    let mut payer = wallet(9, 200_000);
    let mut vault = custody(2, 0);
    assert_eq!(g.pay_fees(100_000, &mut payer, &mut vault), Err(StakingError::MathError));
    assert_eq!(g.reward_per_share, u128::MAX - 10);
    assert_eq!((payer.lamports, vault.lamports), (200_000, 0));
}

#[test]
fn fee_rate_bounds() {
    let mut g = pool(0, 0, 1_000);
    assert_eq!(g.update_fee_basis_points(100_001), Err(StakingError::MathError));
    assert_eq!(g.fee_basis_points, 1_000);
    assert_eq!(g.update_fee_basis_points(100_000), Ok(()));
    assert_eq!(g.fee_basis_points, 100_000);
    assert_eq!(g.update_fee_basis_points(0), Ok(()));
    assert_eq!(g.fee_basis_points, 0);
}

#[test]
fn pending_rewards_formula() {
    let g = pool(10, 3 * REWARD_SCALE + 500_000_000_000, 1_000);
    assert_eq!(position(3, 4, 0).calculate_pending_rewards(&g), Ok(14));
    assert_eq!(position(3, 0, 0).calculate_pending_rewards(&g), Ok(0));
    assert_eq!(position(3, 4, g.reward_per_share).calculate_pending_rewards(&g), Ok(0));
    assert_eq!(position(3, 4, g.reward_per_share + 1).calculate_pending_rewards(&g), Ok(0));
    assert_eq!(position(3, 1, 0).calculate_pending_rewards(&pool(1, 999_999_999_999, 0)), Ok(0));
}

#[test]
fn pending_rewards_overflow_is_an_error() {
    let g = pool(10, u128::MAX, 1_000);
    assert_eq!(position(3, 2, 0).calculate_pending_rewards(&g), Err(StakingError::MathError));
    let g = pool(10, REWARD_SCALE * (u64::MAX as u128) * 2, 1_000);
    assert_eq!(position(3, 1, 0).calculate_pending_rewards(&g), Err(StakingError::MathError));
}

#[test]
fn new_position_owes_nothing_for_past_fees() {
    let g = pool(10, 77 * REWARD_SCALE, 1_000);
    let mut s = position(8, 123, 0);
    s.init(id(3), &g);
    assert!(s.owner == id(3));
    assert_eq!((s.amount, s.reward_debt), (0, 77 * REWARD_SCALE));
    assert_eq!(s.calculate_pending_rewards(&g), Ok(0));
}

#[test]
fn add_stake_moves_funds_into_custody() {
    let mut g = pool(10, 7, 1_000);
    let mut s = position(3, 4, 7);
    let mut user = wallet(3, 50);
    let mut info = custody(30, 1);
    assert_eq!(s.add_stake(&mut g, &mut user, &mut info, 20), Ok(()));
    assert_eq!((s.amount, g.total_staked, user.lamports, info.lamports), (24, 30, 30, 21));
}

#[test]
fn add_stake_of_zero_is_invalid() {
    let mut g = pool(10, 7, 1_000);
    let mut s = position(3, 4, 7);
    let mut user = wallet(3, 50);
    let mut info = custody(30, 1);
    assert_eq!(s.add_stake(&mut g, &mut user, &mut info, 0), Err(StakingError::InvalidAmount));
    assert_eq!((s.amount, g.total_staked, user.lamports, info.lamports), (4, 10, 50, 1));
}

#[test]
fn add_stake_overflow_is_an_error() {
    let mut g = pool(u64::MAX - 1, 7, 1_000);
    let mut s = position(3, 4, 7);
    let mut user = wallet(3, 50);
    let mut info = custody(30, 1);
    assert_eq!(s.add_stake(&mut g, &mut user, &mut info, 2), Err(StakingError::MathError));
    assert_eq!((s.amount, g.total_staked, user.lamports), (4, u64::MAX - 1, 50));
}

#[test]
fn add_stake_beyond_the_wallet_fails() {
    let mut g = pool(10, 7, 1_000);
    let mut s = position(3, 4, 7);
    let mut user = wallet(3, 5);
    let mut info = custody(30, 1);
    assert_eq!(s.add_stake(&mut g, &mut user, &mut info, 6), Err(StakingError::InsufficientFunds));
    assert_eq!((s.amount, g.total_staked, user.lamports, info.lamports), (4, 10, 5, 1));
}

#[test]
fn unsettled_position_cannot_change_stake() {
    let mut g = pool(10, 8, 1_000);
    let mut s = position(3, 4, 7);
    let mut user = wallet(3, 50);
    let mut info = custody(30, 4);
    assert_eq!(s.add_stake(&mut g, &mut user, &mut info, 1), Err(StakingError::RewardDebtNotZero));
    assert_eq!(s.decrease_stake(&mut g, &mut info, &mut user, 1), Err(StakingError::RewardDebtNotZero));
    assert_eq!((s.amount, g.total_staked, user.lamports, info.lamports), (4, 10, 50, 4));
    let mut ahead = position(3, 4, 9);
    assert_eq!(ahead.add_stake(&mut g, &mut user, &mut info, 1), Err(StakingError::RewardDebtNotZero));
}

#[test]
fn decrease_beyond_the_stake_fails() {
    let mut g = pool(10, 7, 1_000);
    let mut s = position(3, 4, 7);
    let mut user = wallet(3, 50);
    let mut info = custody(30, 100);
    assert_eq!(
        s.decrease_stake(&mut g, &mut info, &mut user, 5),
        Err(StakingError::InsufficientStakedAmount)
    );
    assert_eq!((s.amount, g.total_staked, user.lamports, info.lamports), (4, 10, 50, 100));
    assert_eq!(s.decrease_stake(&mut g, &mut info, &mut user, 4), Ok(()));
    assert_eq!((s.amount, g.total_staked, user.lamports, info.lamports), (0, 6, 54, 96));
}

#[test]
fn stake_amount_helpers() {
    let mut s = position(3, 4, 7);
    assert_eq!(s.increase_stake_amount(u64::MAX), Err(StakingError::MathError));
    assert_eq!(s.amount, 4);
    assert_eq!(s.increase_stake_amount(6), Ok(()));
    assert_eq!(s.amount, 10);
    assert_eq!(s.decrease_stake_amount(11), Err(StakingError::InsufficientStakedAmount));
    assert_eq!(s.decrease_stake_amount(10), Ok(()));
    assert_eq!(s.amount, 0);
    let mut g = pool(10, 0, 1_000);
    g.increase_total_staked(5);
    assert_eq!(g.total_staked, 15);
    g.decrease_total_staked(15);
    assert_eq!(g.total_staked, 0);
}

#[test]
fn deposit_then_withdraw_restores_the_state() {
    let mut g = pool(10, 7, 1_000);
    let mut s = position(3, 4, 7);
    let mut user = wallet(3, 50);
    let mut info = custody(30, 9);
    assert_eq!(s.add_stake(&mut g, &mut user, &mut info, 25), Ok(()));
    assert_eq!(s.decrease_stake(&mut g, &mut info, &mut user, 25), Ok(()));
    assert_eq!((s.amount, s.reward_debt, g.total_staked), (4, 7, 10));
    assert_eq!((user.lamports, info.lamports), (50, 9));
}

#[test]
fn claim_pays_and_settles() {
    let g = pool(10, 2 * REWARD_SCALE, 1_000);
    let mut s = position(3, 5, 0);
    let mut vault = custody(2, 100);
    let mut user = wallet(3, 0);
    assert_eq!(s.claim_rewards(&g, &mut vault, &mut user), Ok(()));
    assert_eq!((vault.lamports, user.lamports, s.reward_debt), (90, 10, 2 * REWARD_SCALE));
    assert_eq!(s.claim_rewards(&g, &mut vault, &mut user), Ok(()));
    assert_eq!((vault.lamports, user.lamports), (90, 10));
}

#[test]
fn claim_from_a_short_vault_fails_and_changes_nothing() {
    let g = pool(10, 2 * REWARD_SCALE, 1_000);
    let mut s = position(3, 5, 0);
    let mut vault = custody(2, 9);
    let mut user = wallet(3, 0);
    assert_eq!(s.claim_rewards(&g, &mut vault, &mut user), Err(StakingError::InsufficientFunds));
    assert_eq!((vault.lamports, user.lamports, s.reward_debt), (9, 0, 0));
}

#[test]
fn claim_with_nothing_pending_still_settles() {
    let g = pool(10, 2 * REWARD_SCALE, 1_000);
    let mut s = position(3, 0, 0);
    let mut vault = custody(2, 0);
    let mut user = wallet(3, 0);
    assert_eq!(s.claim_rewards(&g, &mut vault, &mut user), Ok(()));
    assert_eq!(s.reward_debt, 2 * REWARD_SCALE);
}
