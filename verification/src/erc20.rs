//! The token ledger: balances, allowances, total supply, and the operations
//! that move quantities between accounts.

use crate::ledger::LedgerState;
use crate::mapping::Mapping;
use crate::primitives::{Address, U256};
use std::marker::PhantomData;
use vstd::prelude::*;

verus! {

/// The fixed metadata of a token.
pub trait Erc20Params {
    const NAME: &'static str;
    const SYMBOL: &'static str;
    const DECIMALS: u8;
}

/// Notification that `value` moved from `from` to `to`.
#[derive(Clone, Copy, Debug, PartialEq, Eq)]
pub struct Transfer {
    pub from: Address,
    pub to: Address,
    pub value: U256,
}

/// Notification that `owner` set the allowance of `spender` to `value`.
#[derive(Clone, Copy, Debug, PartialEq, Eq)]
pub struct Approval {
    pub owner: Address,
    pub spender: Address,
    pub value: U256,
}

/// An entry of the ledger's notification log.
#[derive(Clone, Copy, Debug, PartialEq, Eq)]
pub enum Event {
    Transfer(Transfer),
    Approval(Approval),
}

/// A debit of `want` was asked of `account`, which holds only `have`.
#[derive(Clone, Copy, Debug, PartialEq, Eq)]
pub struct InsufficientBalance {
    pub account: Address,
    pub have: U256,
    pub want: U256,
}

/// `spender` asked to move `want` of `owner`'s tokens, with only `have`
/// left of what `owner` approved.
#[derive(Clone, Copy, Debug, PartialEq, Eq)]
pub struct InsufficientAllowance {
    pub owner: Address,
    pub spender: Address,
    pub have: U256,
    pub want: U256,
}

/// Why an operation was rejected. A rejected operation changes nothing.
#[derive(Clone, Copy, Debug, PartialEq, Eq)]
pub enum Erc20Error {
    InsufficientBalance(InsufficientBalance),
    InsufficientAllowance(InsufficientAllowance),
    /// A credit would exceed the largest representable quantity.
    ArithmeticOverflow,
}

/// The quantities of a table, each as the number it stands for.
spec fn amounts<K>(stored: Map<K, U256>) -> Map<K, nat> {
    Map::new(|key: K| stored.dom().contains(key), |key: K| stored[key]@)
}

/// A token ledger with the metadata of `T`.
///
/// The ledger owns its balances, its allowances, its supply counter and the
/// log of the notifications it has emitted. Its view is the
/// [`LedgerState`] that the contracts speak of.
pub struct ERC20<T> {
    name: String,
    symbol: String,
    decimals: u8,
    total_supply: U256,
    balances: Mapping<Address, U256>,
    allowances: Mapping<(Address, Address), U256>,
    events: Vec<Event>,
    phantom: PhantomData<T>,
}

impl<T> View for ERC20<T> {
    type V = LedgerState;

    closed spec fn view(&self) -> LedgerState {
        LedgerState {
            name: self.name@,
            symbol: self.symbol@,
            decimals: self.decimals,
            total_supply: self.total_supply@,
            balances: amounts(self.balances@),
            allowances: amounts(self.allowances@),
            log: self.events@,
        }
    }
}

impl<T> ERC20<T> {
    /// The two tables are well formed.
    pub closed spec fn well_stored(&self) -> bool {
        &&& self.balances.wf()
        &&& self.allowances.wf()
    }

    /// The invariant of a ledger: its state is well formed, so the
    /// balances add up to the total supply.
    pub open spec fn wf(&self) -> bool {
        &&& self.well_stored()
        &&& self@.wf()
    }
}

impl<T: Erc20Params> ERC20<T> {
    /// An empty ledger: no balances, no allowances, no supply, an empty log.
    pub fn new() -> (r: Self)
        ensures
            r.wf(),
            r@ == LedgerState::empty(T::NAME@, T::SYMBOL@, T::DECIMALS),
    {
        let r = ERC20 {
            name: T::NAME.to_owned(),
            symbol: T::SYMBOL.to_owned(),
            decimals: T::DECIMALS,
            total_supply: U256::zero(),
            balances: Mapping::new(),
            allowances: Mapping::new(),
            events: Vec::new(),
            phantom: PhantomData,
        };
        proof {
            LedgerState::lemma_empty_wf(T::NAME@, T::SYMBOL@, T::DECIMALS);
            assert(r@.balances =~= Map::empty());
            assert(r@.allowances =~= Map::empty());
        }
        r
    }

    pub fn name(&self) -> (r: String)
        ensures
            r@ == self@.name,
    {
        self.name.clone()
    }

    pub fn symbol(&self) -> (r: String)
        ensures
            r@ == self@.symbol,
    {
        self.symbol.clone()
    }

    pub fn decimals(&self) -> (r: u8)
        ensures
            r == self@.decimals,
    {
        self.decimals
    }

    pub fn total_supply(&self) -> (r: U256)
        ensures
            r@ == self@.total_supply,
    {
        self.total_supply
    }

    /// The notifications logged so far, oldest first.
    pub fn events(&self) -> (r: &Vec<Event>)
        ensures
            r@ == self@.log,
    {
        &self.events
    }

    /// Hands out the logged notifications, oldest first, and empties the
    /// log. Nothing else changes.
    pub fn take_events(&mut self) -> (r: Vec<Event>)
        requires
            old(self).wf(),
        ensures
            final(self).wf(),
            r@ == old(self)@.log,
            final(self)@ == (LedgerState { log: Seq::empty(), ..old(self)@ }),
    {
        let mut taken = Vec::new();
        std::mem::swap(&mut self.events, &mut taken);
        taken
    }

    /// The balance of `account`: what is stored for it, or zero.
    pub fn balance_of(&self, account: Address) -> (r: U256)
        requires
            self.wf(),
        ensures
            r@ == self@.balance_of(account),
    {
        match self.balances.get(account) {
            Some(balance) => balance,
            None => U256::zero(),
        }
    }

    /// What `owner` has approved `spender` to move: what is stored for the
    /// pair, or zero.
    pub fn allowance(&self, owner: Address, spender: Address) -> (r: U256)
        requires
            self.wf(),
        ensures
            r@ == self@.allowance(owner, spender),
    {
        match self.allowances.get((owner, spender)) {
            Some(allowance) => allowance,
            None => U256::zero(),
        }
    }

    /// Adds `amount` to the balance of `account`, unless the new balance
    /// would not fit in 256 bits.
    fn credit(&mut self, account: Address, amount: U256) -> (r: Result<(), Erc20Error>)
        requires
            old(self).well_stored(),
        ensures
            final(self).well_stored(),
            match r {
                Ok(()) => {
                    &&& old(self)@.balance_of(account) + amount@ <= U256::max_value()
                    &&& final(self)@ == old(self)@.credit(account, amount@)
                },
                Err(e) => {
                    &&& old(self)@.balance_of(account) + amount@ > U256::max_value()
                    &&& final(self)@ == old(self)@
                    &&& e == Erc20Error::ArithmeticOverflow
                },
            },
    {
        let balance = match self.balances.get(account) {
            Some(balance) => balance,
            None => U256::zero(),
        };
        match balance.checked_add(amount) {
            Some(credited) => {
                self.balances.insert(account, credited);
                assert(self@.balances =~= old(self)@.credit(account, amount@).balances);
                Ok(())
            },
            None => Err(Erc20Error::ArithmeticOverflow),
        }
    }

    /// Takes `amount` from the balance of `account`, unless it holds less.
    fn debit(&mut self, account: Address, amount: U256) -> (r: Result<(), Erc20Error>)
        requires
            old(self).well_stored(),
        ensures
            final(self).well_stored(),
            match r {
                Ok(()) => {
                    &&& amount@ <= old(self)@.balance_of(account)
                    &&& final(self)@ == old(self)@.debit(account, amount@)
                },
                Err(e) => {
                    &&& amount@ > old(self)@.balance_of(account)
                    &&& final(self)@ == old(self)@
                    &&& e matches Erc20Error::InsufficientBalance(shortfall)
                    &&& shortfall.account == account
                    &&& shortfall.have@ == old(self)@.balance_of(account)
                    &&& shortfall.want == amount
                },
            },
    {
        let balance = match self.balances.get(account) {
            Some(balance) => balance,
            None => U256::zero(),
        };
        match balance.checked_sub(amount) {
            Some(remaining) => {
                self.balances.insert(account, remaining);
                assert(self@.balances =~= old(self)@.debit(account, amount@).balances);
                Ok(())
            },
            None => Err(
                Erc20Error::InsufficientBalance(
                    InsufficientBalance { account, have: balance, want: amount },
                ),
            ),
        }
    }

    /// Moves `value` from `from` to `to` and logs a `Transfer`.
    ///
    /// Succeeds exactly when `from` holds at least `value`; otherwise
    /// nothing changes and the error tells what `from` holds. Sender and
    /// recipient may be the same account, and `value` may be zero.
    pub fn _transfer(&mut self, from: Address, to: Address, value: U256) -> (r: Result<
        (),
        Erc20Error,
    >)
        requires
            old(self).wf(),
        ensures
            final(self).wf(),
            match r {
                Ok(()) => {
                    &&& value@ <= old(self)@.balance_of(from)
                    &&& final(self)@ == old(self)@.transfer(from, to, value)
                },
                Err(e) => {
                    &&& value@ > old(self)@.balance_of(from)
                    &&& final(self)@ == old(self)@
                    &&& e matches Erc20Error::InsufficientBalance(shortfall)
                    &&& shortfall.account == from
                    &&& shortfall.have@ == old(self)@.balance_of(from)
                    &&& shortfall.want == value
                },
            },
    {
        match self.debit(from, value) {
            Ok(()) => {},
            Err(e) => {
                return Err(e);
            },
        }
        proof {
            old(self)@.lemma_transfer(from, to, value);
        }
        // What was just debited is still counted in the supply, so the
        // credit stays within 256 bits.
        match self.credit(to, value) {
            Ok(()) => {},
            Err(e) => {
                return Err(e);
            },
        }
        self.events.push(Event::Transfer(Transfer { from, to, value }));
        Ok(())
    }

    /// Sets what `owner` has approved `spender` to move to `value`,
    /// replacing any earlier approval, and logs an `Approval`. The balance
    /// of `owner` is not consulted.
    pub fn _approve(&mut self, owner: Address, spender: Address, value: U256)
        requires
            old(self).wf(),
        ensures
            final(self).wf(),
            final(self)@ == old(self)@.approve(owner, spender, value),
    {
        self.allowances.insert((owner, spender), value);
        self.events.push(Event::Approval(Approval { owner, spender, value }));
        proof {
            assert(self@.allowances =~= old(self)@.approve(owner, spender, value).allowances);
        }
    }

    /// Takes `value` from what `owner` has approved `spender` to move.
    ///
    /// Succeeds exactly when at least `value` is left of the approval;
    /// otherwise nothing changes and the error tells what is left.
    pub fn consume_allowance(&mut self, owner: Address, spender: Address, value: U256) -> (r:
        Result<(), Erc20Error>)
        requires
            old(self).wf(),
        ensures
            final(self).wf(),
            match r {
                Ok(()) => {
                    &&& value@ <= old(self)@.allowance(owner, spender)
                    &&& final(self)@ == old(self)@.consume_allowance(owner, spender, value@)
                },
                Err(e) => {
                    &&& value@ > old(self)@.allowance(owner, spender)
                    &&& final(self)@ == old(self)@
                    &&& e matches Erc20Error::InsufficientAllowance(shortfall)
                    &&& shortfall.owner == owner
                    &&& shortfall.spender == spender
                    &&& shortfall.have@ == old(self)@.allowance(owner, spender)
                    &&& shortfall.want == value
                },
            },
    {
        let allowance = self.allowance(owner, spender);
        match allowance.checked_sub(value) {
            Some(remaining) => {
                self.allowances.insert((owner, spender), remaining);
                assert(self@.allowances =~= old(self)@.consume_allowance(
                    owner,
                    spender,
                    value@,
                ).allowances);
                Ok(())
            },
            None => Err(
                Erc20Error::InsufficientAllowance(
                    InsufficientAllowance { owner, spender, have: allowance, want: value },
                ),
            ),
        }
    }

    /// Creates `value` new tokens in the balance of `to` and logs a
    /// `Transfer` from the null account. Whoever calls this has already
    /// been authorised.
    ///
    /// Succeeds exactly when the new total supply fits in 256 bits;
    /// otherwise nothing changes.
    pub fn _mint(&mut self, to: Address, value: U256) -> (r: Result<(), Erc20Error>)
        requires
            old(self).wf(),
        ensures
            final(self).wf(),
            match r {
                Ok(()) => {
                    &&& old(self)@.total_supply + value@ <= U256::max_value()
                    &&& final(self)@ == old(self)@.mint(to, value)
                },
                Err(e) => {
                    &&& old(self)@.total_supply + value@ > U256::max_value()
                    &&& final(self)@ == old(self)@
                    &&& e == Erc20Error::ArithmeticOverflow
                },
            },
    {
        let new_supply = match self.total_supply.checked_add(value) {
            Some(new_supply) => new_supply,
            None => {
                return Err(Erc20Error::ArithmeticOverflow);
            },
        };
        proof {
            old(self)@.lemma_mint(to, value);
        }
        // No balance exceeds the supply, so the credit fits as well.
        match self.credit(to, value) {
            Ok(()) => {},
            Err(e) => {
                return Err(e);
            },
        }
        self.total_supply = new_supply;
        self.events.push(Event::Transfer(Transfer { from: Address::zero(), to, value }));
        Ok(())
    }

    /// Destroys `value` tokens of the balance of `from` and logs a
    /// `Transfer` to the null account.
    ///
    /// Succeeds exactly when `from` holds at least `value`; otherwise
    /// nothing changes and the error tells what `from` holds.
    pub fn _burn(&mut self, from: Address, value: U256) -> (r: Result<(), Erc20Error>)
        requires
            old(self).wf(),
        ensures
            final(self).wf(),
            match r {
                Ok(()) => {
                    &&& value@ <= old(self)@.balance_of(from)
                    &&& final(self)@ == old(self)@.burn(from, value)
                },
                Err(e) => {
                    &&& value@ > old(self)@.balance_of(from)
                    &&& final(self)@ == old(self)@
                    &&& e matches Erc20Error::InsufficientBalance(shortfall)
                    &&& shortfall.account == from
                    &&& shortfall.have@ == old(self)@.balance_of(from)
                    &&& shortfall.want == value
                },
            },
    {
        proof {
            old(self)@.lemma_balance_le_supply(from);
        }
        let balance = self.balance_of(from);
        // No balance exceeds the supply: what the supply cannot cover, the
        // balance cannot cover either.
        let new_supply = match self.total_supply.checked_sub(value) {
            Some(new_supply) => new_supply,
            None => {
                return Err(
                    Erc20Error::InsufficientBalance(
                        InsufficientBalance { account: from, have: balance, want: value },
                    ),
                );
            },
        };
        match self.debit(from, value) {
            Ok(()) => {},
            Err(e) => {
                return Err(e);
            },
        }
        proof {
            old(self)@.lemma_burn(from, value);
        }
        self.total_supply = new_supply;
        self.events.push(Event::Transfer(Transfer { from, to: Address::zero(), value }));
        Ok(())
    }
}

} // verus!
