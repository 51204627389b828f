//! A fungible-token ledger: balances, allowances and a total supply, with
//! transfer, delegated transfer, approve, mint and burn as atomic
//! operations that keep the sum of all balances equal to the total supply.

pub mod erc20;
pub mod ledger;
pub mod mapping;
pub mod primitives;

pub use erc20::{
    Approval, Erc20Error, Erc20Params, Event, InsufficientAllowance, InsufficientBalance, Transfer,
    ERC20,
};
pub use ledger::LedgerState;
pub use mapping::Mapping;
pub use primitives::{Address, U256};

use vstd::prelude::*;

verus! {

/// The metadata of the token.
pub struct StylusTokenParams;

impl Erc20Params for StylusTokenParams {
    const NAME: &'static str = "StylusToken";
    const SYMBOL: &'static str = "STK";
    const DECIMALS: u8 = 18;
}

/// The token: a ledger and the one account that may mint.
///
/// Every operation names its caller. The host that runs the token resolves
/// the caller and hands it in.
pub struct MyToken {
    pub erc20: ERC20<StylusTokenParams>,
    pub owner: Address,
}

impl MyToken {
    /// The invariant of the token is that of its ledger.
    pub open spec fn wf(&self) -> bool {
        self.erc20.wf()
    }

    /// A token whose whole supply, `initial_supply`, is held by `caller`,
    /// who becomes the account that may mint. The creation is logged as a
    /// `Transfer` from the null account.
    pub fn new(caller: Address, initial_supply: U256) -> (r: Self)
        ensures
            r.wf(),
            r.owner == caller,
            r.erc20@ == LedgerState::empty(
                StylusTokenParams::NAME@,
                StylusTokenParams::SYMBOL@,
                StylusTokenParams::DECIMALS,
            ).mint(caller, initial_supply),
    {
        let mut erc20 = ERC20::new();
        proof {
            initial_supply.lemma_in_range();
        }
        let minted = erc20._mint(caller, initial_supply);
        assert(minted is Ok);
        MyToken { erc20, owner: caller }
    }

    pub fn name(&self) -> (r: String)
        ensures
            r@ == self.erc20@.name,
    {
        self.erc20.name()
    }

    pub fn symbol(&self) -> (r: String)
        ensures
            r@ == self.erc20@.symbol,
    {
        self.erc20.symbol()
    }

    pub fn decimals(&self) -> (r: u8)
        ensures
            r == self.erc20@.decimals,
    {
        self.erc20.decimals()
    }

    pub fn total_supply(&self) -> (r: U256)
        ensures
            r@ == self.erc20@.total_supply,
    {
        self.erc20.total_supply()
    }

    /// The balance of `owner`, zero for an account that never held tokens.
    pub fn balance_of(&self, owner: Address) -> (r: U256)
        requires
            self.wf(),
        ensures
            r@ == self.erc20@.balance_of(owner),
    {
        self.erc20.balance_of(owner)
    }

    /// What `owner` has approved `spender` to move, zero where nothing was
    /// approved.
    pub fn allowance(&self, owner: Address, spender: Address) -> (r: U256)
        requires
            self.wf(),
        ensures
            r@ == self.erc20@.allowance(owner, spender),
    {
        self.erc20.allowance(owner, spender)
    }

    /// Moves `value` from `caller` to `to`.
    ///
    /// Returns `Ok(true)` exactly when `caller` holds at least `value`;
    /// otherwise nothing changes.
    pub fn transfer(&mut self, caller: Address, to: Address, value: U256) -> (r: Result<
        bool,
        Erc20Error,
    >)
        requires
            old(self).wf(),
        ensures
            final(self).wf(),
            final(self).owner == old(self).owner,
            match r {
                Ok(done) => {
                    &&& done
                    &&& value@ <= old(self).erc20@.balance_of(caller)
                    &&& final(self).erc20@ == old(self).erc20@.transfer(caller, to, value)
                },
                Err(e) => {
                    &&& value@ > old(self).erc20@.balance_of(caller)
                    &&& final(self).erc20@ == old(self).erc20@
                    &&& e matches Erc20Error::InsufficientBalance(shortfall)
                    &&& shortfall.account == caller
                    &&& shortfall.have@ == old(self).erc20@.balance_of(caller)
                    &&& shortfall.want == value
                },
            },
    {
        match self.erc20._transfer(caller, to, value) {
            Ok(()) => Ok(true),
            Err(e) => Err(e),
        }
    }

    /// Lets `spender` move up to `value` of `caller`'s tokens, replacing
    /// any earlier approval. Always succeeds: what `caller` holds is checked
    /// only when `spender` moves tokens.
    pub fn approve(&mut self, caller: Address, spender: Address, value: U256) -> (r: bool)
        requires
            old(self).wf(),
        ensures
            final(self).wf(),
            final(self).owner == old(self).owner,
            r,
            final(self).erc20@ == old(self).erc20@.approve(caller, spender, value),
    {
        self.erc20._approve(caller, spender, value);
        true
    }

    /// Moves `value` from `from` to `to` on behalf of `caller`, out of what
    /// `from` has approved `caller` to move.
    ///
    /// Fails with `InsufficientAllowance` when less than `value` is left of
    /// the approval, else with `InsufficientBalance` when `from` holds less
    /// than `value`. A failed call changes nothing: the allowance is
    /// consumed only if the transfer is made.
    pub fn transfer_from(&mut self, caller: Address, from: Address, to: Address, value: U256) -> (r:
        Result<bool, Erc20Error>)
        requires
            old(self).wf(),
        ensures
            final(self).wf(),
            final(self).owner == old(self).owner,
            match r {
                Ok(done) => {
                    &&& done
                    &&& value@ <= old(self).erc20@.allowance(from, caller)
                    &&& value@ <= old(self).erc20@.balance_of(from)
                    &&& final(self).erc20@ == old(self).erc20@.transfer_from(caller, from, to, value)
                },
                Err(e) => {
                    &&& final(self).erc20@ == old(self).erc20@
                    &&& if value@ > old(self).erc20@.allowance(from, caller) {
                        &&& e matches Erc20Error::InsufficientAllowance(shortfall)
                        &&& shortfall.owner == from
                        &&& shortfall.spender == caller
                        &&& shortfall.have@ == old(self).erc20@.allowance(from, caller)
                        &&& shortfall.want == value
                    } else {
                        &&& value@ > old(self).erc20@.balance_of(from)
                        &&& e matches Erc20Error::InsufficientBalance(shortfall)
                        &&& shortfall.account == from
                        &&& shortfall.have@ == old(self).erc20@.balance_of(from)
                        &&& shortfall.want == value
                    }
                },
            },
    {
        let allowance = self.erc20.allowance(from, caller);
        if allowance.checked_sub(value).is_none() {
            return Err(
                Erc20Error::InsufficientAllowance(
                    InsufficientAllowance { owner: from, spender: caller, have: allowance, want: value },
                ),
            );
        }
        let balance = self.erc20.balance_of(from);
        if balance.checked_sub(value).is_none() {
            return Err(
                Erc20Error::InsufficientBalance(
                    InsufficientBalance { account: from, have: balance, want: value },
                ),
            );
        }
        // Both checks have passed, so neither step can fail from here on.
        match self.erc20.consume_allowance(from, caller, value) {
            Ok(()) => {},
            Err(e) => {
                return Err(e);
            },
        }
        match self.erc20._transfer(from, to, value) {
            Ok(()) => Ok(true),
            Err(e) => Err(e),
        }
    }

    /// Creates `value` new tokens in the balance of `to`. Only the owner of
    /// the token may mint.
    ///
    /// Any other caller is rejected with an `InsufficientBalance` that names
    /// the caller and a holding of zero. The owner is rejected with
    /// `ArithmeticOverflow` when the new total supply would not fit in 256
    /// bits. A rejected call changes nothing.
    pub fn mint(&mut self, caller: Address, to: Address, value: U256) -> (r: Result<
        (),
        Erc20Error,
    >)
        requires
            old(self).wf(),
        ensures
            final(self).wf(),
            final(self).owner == old(self).owner,
            match r {
                Ok(()) => {
                    &&& caller == old(self).owner
                    &&& old(self).erc20@.total_supply + value@ <= U256::max_value()
                    &&& final(self).erc20@ == old(self).erc20@.mint(to, value)
                },
                Err(e) => {
                    &&& final(self).erc20@ == old(self).erc20@
                    &&& if caller != old(self).owner {
                        &&& e matches Erc20Error::InsufficientBalance(shortfall)
                        &&& shortfall.account == caller
                        &&& shortfall.have@ == 0
                        &&& shortfall.want == value
                    } else {
                        &&& old(self).erc20@.total_supply + value@ > U256::max_value()
                        &&& e == Erc20Error::ArithmeticOverflow
                    }
                },
            },
    {
        if caller != self.owner {
            return Err(
                Erc20Error::InsufficientBalance(
                    InsufficientBalance { account: caller, have: U256::zero(), want: value },
                ),
            );
        }
        self.erc20._mint(to, value)
    }

    /// Destroys `value` tokens of the balance of `from`. Any caller may
    /// burn from any account; `caller` is not consulted.
    ///
    /// Succeeds exactly when `from` holds at least `value`; otherwise
    /// nothing changes.
    pub fn burn(&mut self, caller: Address, from: Address, value: U256) -> (r: Result<
        (),
        Erc20Error,
    >)
        requires
            old(self).wf(),
        ensures
            final(self).wf(),
            final(self).owner == old(self).owner,
            match r {
                Ok(()) => {
                    &&& value@ <= old(self).erc20@.balance_of(from)
                    &&& final(self).erc20@ == old(self).erc20@.burn(from, value)
                },
                Err(e) => {
                    &&& value@ > old(self).erc20@.balance_of(from)
                    &&& final(self).erc20@ == old(self).erc20@
                    &&& e matches Erc20Error::InsufficientBalance(shortfall)
                    &&& shortfall.account == from
                    &&& shortfall.have@ == old(self).erc20@.balance_of(from)
                    &&& shortfall.want == value
                },
            },
    {
        self.erc20._burn(from, value)
    }
}

} // verus!
