//! The pegged stable token's own ledger: a plain fungible-token balance
//! map with an owner gate, consumed by the engine only through its
//! interface (mint, burn, transfer).

use std::collections::HashMap;
use vstd::prelude::*;

verus! {

broadcast use vstd::std_specs::hash::group_hash_axioms;

/// Immutable token metadata.
pub struct StylusTokenParams;

impl StylusTokenParams {
    pub fn name() -> (r: &'static str)
        ensures
            r@ == "DecentralizedStableCoin"@,
    {
        "DecentralizedStableCoin"
    }

    pub fn symbol() -> (r: &'static str)
        ensures
            r@ == "DSC"@,
    {
        "DSC"
    }

    pub fn decimals() -> (r: u8)
        ensures
            r == 18,
    {
        18
    }
}

/// Every failure the token can report.
#[derive(Clone, Copy, PartialEq, Eq, Structural, Debug)]
pub enum DecentralizedStableCoinError {
    /// A zero amount was passed where a positive one is required.
    MustBeMoreThanZero,
    /// A burn was requested for more than the holder's balance.
    BurnAmountExceedsBalance,
    /// A mint to the zero address was requested.
    NotZeroAddress,
    /// The backing ledger failed for another reason, such as a balance
    /// leaving the representable range.
    UnknownError,
    /// The caller is not the token's owner.
    NotOwner,
    /// A transfer was requested for more than the sender's balance.
    Erc20InsufficientBalance,
}

/// The pegged token: an owner (the sole authorized minter and burner) and
/// a balance per holder.
pub struct DecentralizedStableCoin {
    /// The only identity allowed to mint and burn.
    pub owner: u64,
    /// Balance per holder.
    pub balances: HashMap<u64, u128>,
}

impl DecentralizedStableCoin {
    /// Balance of `user`; zero for absent holders.
    pub open spec fn balance_of(self, user: u64) -> u128 {
        if self.balances@.contains_key(user) {
            self.balances@[user]
        } else {
            0
        }
    }

    /// Creates the token, owned by the creating caller.
    pub fn constructor(sender: u64) -> (r: DecentralizedStableCoin)
        ensures
            r.owner == sender,
            r.balances@ == Map::<u64, u128>::empty(),
    {
        DecentralizedStableCoin { owner: sender, balances: HashMap::new() }
    }

    /// Creates the token with an explicit owner.
    pub fn new(owner: u64) -> (r: DecentralizedStableCoin)
        ensures
            r.owner == owner,
            r.balances@ == Map::<u64, u128>::empty(),
    {
        DecentralizedStableCoin { owner, balances: HashMap::new() }
    }

    fn get_balance(&self, user: u64) -> (r: u128)
        ensures
            r == self.balance_of(user),
    {
        match self.balances.get(&user) {
            Some(v) => *v,
            None => 0,
        }
    }

    /// Mints `amount` to `to`. Only the owner may mint, the amount must be
    /// positive, the zero address cannot receive, and a balance leaving
    /// the representable range fails the backing ledger.
    pub fn mint(&mut self, sender: u64, to: u64, amount: u128) -> (r: Result<
        bool,
        DecentralizedStableCoinError,
    >)
        ensures
            final(self).owner == old(self).owner,
            sender != old(self).owner ==> (r == Err::<bool, DecentralizedStableCoinError>(
                DecentralizedStableCoinError::NotOwner,
            ) && final(self).balances@ == old(self).balances@),
            sender == old(self).owner && amount == 0 ==> (r == Err::<
                bool,
                DecentralizedStableCoinError,
            >(DecentralizedStableCoinError::MustBeMoreThanZero) && final(self).balances@ == old(
                self,
            ).balances@),
            sender == old(self).owner && amount != 0 && to == 0 ==> (r == Err::<
                bool,
                DecentralizedStableCoinError,
            >(DecentralizedStableCoinError::NotZeroAddress) && final(self).balances@ == old(
                self,
            ).balances@),
            sender == old(self).owner && amount != 0 && to != 0 && (old(self).balance_of(to)
                as int) + (amount as int) > u128::MAX as int ==> (r == Err::<
                bool,
                DecentralizedStableCoinError,
            >(DecentralizedStableCoinError::UnknownError) && final(self).balances@ == old(
                self,
            ).balances@),
            sender == old(self).owner && amount != 0 && to != 0 && (old(self).balance_of(to)
                as int) + (amount as int) <= u128::MAX as int ==> (r == Ok::<
                bool,
                DecentralizedStableCoinError,
            >(true) && final(self).balances@ == old(self).balances@.insert(
                to,
                (old(self).balance_of(to) + amount) as u128,
            )),
    {
        if sender != self.owner {
            return Err(DecentralizedStableCoinError::NotOwner);
        }
        if amount == 0 {
            return Err(DecentralizedStableCoinError::MustBeMoreThanZero);
        }
        if to == 0 {
            return Err(DecentralizedStableCoinError::NotZeroAddress);
        }
        let current = self.get_balance(to);
        if amount > u128::MAX - current {
            return Err(DecentralizedStableCoinError::UnknownError);
        }
        self.balances.insert(to, current + amount);
        Ok(true)
    }

    /// Burns `amount` of the owner's own balance. Only the owner may burn,
    /// the amount must be positive and covered by the balance.
    pub fn burn(&mut self, sender: u64, amount: u128) -> (r: Result<
        (),
        DecentralizedStableCoinError,
    >)
        ensures
            final(self).owner == old(self).owner,
            sender != old(self).owner ==> (r == Err::<(), DecentralizedStableCoinError>(
                DecentralizedStableCoinError::NotOwner,
            ) && final(self).balances@ == old(self).balances@),
            sender == old(self).owner && amount == 0 ==> (r == Err::<
                (),
                DecentralizedStableCoinError,
            >(DecentralizedStableCoinError::MustBeMoreThanZero) && final(self).balances@ == old(
                self,
            ).balances@),
            sender == old(self).owner && amount != 0 && amount > old(self).balance_of(sender)
                ==> (r == Err::<(), DecentralizedStableCoinError>(
                DecentralizedStableCoinError::BurnAmountExceedsBalance,
            ) && final(self).balances@ == old(self).balances@),
            sender == old(self).owner && amount != 0 && amount <= old(self).balance_of(sender)
                ==> (r == Ok::<(), DecentralizedStableCoinError>(()) && final(self).balances@
                == old(self).balances@.insert(
                sender,
                (old(self).balance_of(sender) - amount) as u128,
            )),
    {
        if sender != self.owner {
            return Err(DecentralizedStableCoinError::NotOwner);
        }
        if amount == 0 {
            return Err(DecentralizedStableCoinError::MustBeMoreThanZero);
        }
        let balance = self.get_balance(sender);
        if amount > balance {
            return Err(DecentralizedStableCoinError::BurnAmountExceedsBalance);
        }
        self.balances.insert(sender, balance - amount);
        Ok(())
    }

    /// Moves `value` from `from` to `to`, failing on an uncovered balance
    /// or a receiving balance leaving the representable range.
    pub fn transfer_from(&mut self, from: u64, to: u64, value: u128) -> (r: Result<
        bool,
        DecentralizedStableCoinError,
    >)
        ensures
            final(self).owner == old(self).owner,
            value > old(self).balance_of(from) ==> (r == Err::<
                bool,
                DecentralizedStableCoinError,
            >(DecentralizedStableCoinError::Erc20InsufficientBalance) && final(self).balances@
                == old(self).balances@),
            value <= old(self).balance_of(from) && from == to ==> (r == Ok::<
                bool,
                DecentralizedStableCoinError,
            >(true) && final(self).balances@ == old(self).balances@),
            value <= old(self).balance_of(from) && from != to && (old(self).balance_of(to) as int)
                + (value as int) > u128::MAX as int ==> (r == Err::<
                bool,
                DecentralizedStableCoinError,
            >(DecentralizedStableCoinError::UnknownError) && final(self).balances@ == old(
                self,
            ).balances@),
            value <= old(self).balance_of(from) && from != to && (old(self).balance_of(to) as int)
                + (value as int) <= u128::MAX as int ==> (r == Ok::<
                bool,
                DecentralizedStableCoinError,
            >(true) && final(self).balances@ == old(self).balances@.insert(
                from,
                (old(self).balance_of(from) - value) as u128,
            ).insert(to, (old(self).balance_of(to) + value) as u128)),
    {
        let from_balance = self.get_balance(from);
        if value > from_balance {
            return Err(DecentralizedStableCoinError::Erc20InsufficientBalance);
        }
        if from == to {
            return Ok(true);
        }
        let to_balance = self.get_balance(to);
        if value > u128::MAX - to_balance {
            return Err(DecentralizedStableCoinError::UnknownError);
        }
        self.balances.insert(from, from_balance - value);
        self.balances.insert(to, to_balance + value);
        Ok(true)
    }

    /// Balance of `user`.
    pub fn balance_of_user(&self, user: u64) -> (r: u128)
        ensures
            r == self.balance_of(user),
    {
        self.get_balance(user)
    }
}

} // verus!
