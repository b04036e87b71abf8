use vstd::prelude::*;

use crate::error::StakingError;
use crate::identity::Identity;

verus! {

/// An account as the engine sees it: its address, the lamports it holds, and
/// whether its owner signed the current operation.
#[derive(Debug, Clone, Copy)]
pub struct Account {
    pub key: Identity,
    pub lamports: u64,
    pub is_signer: bool,
}

/// `a` with its balance replaced by `lamports`.
pub open spec fn with_lamports(a: Account, lamports: int) -> Account {
    Account { lamports: lamports as u64, ..a }
}

/// The outcome of moving `amount` lamports from `from` to `to`, once the
/// authorization of the debit has been settled.
pub open spec fn move_outcome(from: Account, to: Account, amount: u64) -> Result<(), StakingError> {
    if from.lamports < amount {
        Err(StakingError::InsufficientFunds)
    } else if to.lamports + amount > u64::MAX {
        Err(StakingError::MathError)
    } else {
        Ok(())
    }
}

/// What `from` and `to` hold after a call that returned `r`: the amount has
/// moved on success, and nothing changed on failure.
pub open spec fn moved(
    from: Account,
    to: Account,
    amount: u64,
    r: Result<(), StakingError>,
    new_from: Account,
    new_to: Account,
) -> bool {
    if r is Ok {
        &&& new_from == with_lamports(from, from.lamports - amount)
        &&& new_to == with_lamports(to, to.lamports + amount)
    } else {
        new_from == from && new_to == to
    }
}

/// The outcome of a transfer that the owner of `from` must authorize.
pub open spec fn authorized_outcome(from: Account, to: Account, amount: u64) -> Result<
    (),
    StakingError,
> {
    if !from.is_signer {
        Err(StakingError::Unauthorized)
    } else {
        move_outcome(from, to, amount)
    }
}

/// Custody transfer out of a program-owned account. Such an account cannot
/// sign; the caller has already established that the program owns `from`, so
/// only the balances are checked. Debit and credit apply together or not at
/// all.
pub fn transfer_sol_pda(from: &mut Account, to: &mut Account, amount: u64) -> (r: Result<
    (),
    StakingError,
>)
    ensures
        r == move_outcome(*old(from), *old(to), amount),
        moved(*old(from), *old(to), amount, r, *final(from), *final(to)),
{
    if from.lamports < amount {
        return Err(StakingError::InsufficientFunds);
    }
    match to.lamports.checked_add(amount) {
        None => Err(StakingError::MathError),
        Some(credited) => {
            from.lamports = from.lamports - amount;
            to.lamports = credited;
            Ok(())
        },
    }
}

/// Authorized transfer out of an externally owned account: the debit needs the
/// owner's signature, then the balances are checked. Debit and credit apply
/// together or not at all.
pub fn transfer_sol(from: &mut Account, to: &mut Account, amount: u64) -> (r: Result<
    (),
    StakingError,
>)
    ensures
        r == authorized_outcome(*old(from), *old(to), amount),
        moved(*old(from), *old(to), amount, r, *final(from), *final(to)),
{
    if !from.is_signer {
        return Err(StakingError::Unauthorized);
    }
    transfer_sol_pda(from, to, amount)
}

} // verus!
