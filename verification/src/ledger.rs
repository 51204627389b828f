//! The mathematical model of the ledger: its state, the transition that each
//! operation makes, and the laws that those transitions obey.

use crate::erc20::{Approval, Event, Transfer};
use crate::primitives::{Address, U256};
use vstd::prelude::*;
use vstd::set::fold::{is_fun_commutative, lemma_fold_empty, lemma_fold_insert};

verus! {

/// The step of a sum over accounts: the running total plus the balance of
/// one more account.
pub open spec fn add_balance(balances: Map<Address, nat>) -> spec_fn(nat, Address) -> nat {
    |total: nat, account: Address| total + balances[account]
}

/// The sum of all balances in a finite map.
pub open spec fn sum_of(balances: Map<Address, nat>) -> nat {
    balances.dom().fold(0nat, add_balance(balances))
}

proof fn lemma_add_balance_commutes(balances: Map<Address, nat>)
    ensures
        is_fun_commutative(add_balance(balances)),
{
    let f = add_balance(balances);
    assert forall|a1: Address, a2: Address, total: nat| #[trigger]
        f(f(total, a2), a1) == f(f(total, a1), a2) by {}
}

proof fn lemma_sum_agrees(accounts: Set<Address>, first: Map<Address, nat>, second: Map<Address, nat>)
    requires
        accounts.finite(),
        forall|a: Address| accounts.contains(a) ==> first[a] == second[a],
    ensures
        accounts.fold(0nat, add_balance(first)) == accounts.fold(0nat, add_balance(second)),
    decreases accounts.len(),
{
    lemma_add_balance_commutes(first);
    lemma_add_balance_commutes(second);
    if accounts.len() == 0 {
        assert(accounts =~= Set::empty());
        lemma_fold_empty(0nat, add_balance(first));
        lemma_fold_empty(0nat, add_balance(second));
    } else {
        let a = accounts.choose();
        let rest = accounts.remove(a);
        lemma_sum_agrees(rest, first, second);
        lemma_fold_insert(rest, 0nat, add_balance(first), a);
        lemma_fold_insert(rest, 0nat, add_balance(second), a);
        assert(rest.insert(a) =~= accounts);
    }
}

/// The sum over a map is the balance of any one account plus the sum over
/// the others.
pub proof fn lemma_sum_remove(balances: Map<Address, nat>, account: Address)
    requires
        balances.dom().finite(),
        balances.dom().contains(account),
    ensures
        sum_of(balances) == sum_of(balances.remove(account)) + balances[account],
{
    let rest = balances.dom().remove(account);
    lemma_add_balance_commutes(balances);
    lemma_fold_insert(rest, 0nat, add_balance(balances), account);
    assert(rest.insert(account) =~= balances.dom());
    lemma_sum_agrees(rest, balances, balances.remove(account));
    assert(balances.remove(account).dom() =~= rest);
}

/// Setting one balance changes the sum by the difference between the new
/// balance and the old one, an absent account counting as zero.
pub proof fn lemma_sum_insert(balances: Map<Address, nat>, account: Address, balance: nat)
    requires
        balances.dom().finite(),
    ensures
        sum_of(balances.insert(account, balance)) + (if balances.dom().contains(account) {
            balances[account]
        } else {
            0
        }) == sum_of(balances) + balance,
{
    let after = balances.insert(account, balance);
    lemma_sum_remove(after, account);
    assert(after.remove(account) =~= balances.remove(account));
    if balances.dom().contains(account) {
        lemma_sum_remove(balances, account);
    } else {
        assert(balances.remove(account) =~= balances);
    }
}

/// No balance exceeds the sum of all balances.
pub proof fn lemma_balance_le_sum(balances: Map<Address, nat>, account: Address)
    requires
        balances.dom().finite(),
        balances.dom().contains(account),
    ensures
        balances[account] <= sum_of(balances),
{
    lemma_sum_remove(balances, account);
}

/// The state of a ledger between two operations.
pub struct LedgerState {
    pub name: Seq<char>,
    pub symbol: Seq<char>,
    pub decimals: u8,
    pub total_supply: nat,
    /// The balance of each account that has an entry. An account without
    /// an entry holds nothing.
    pub balances: Map<Address, nat>,
    /// What each owner has approved each spender to move, keyed by
    /// `(owner, spender)`. A pair without an entry has approved nothing.
    pub allowances: Map<(Address, Address), nat>,
    /// The notifications emitted so far, oldest first.
    pub log: Seq<Event>,
}

impl LedgerState {
    /// The ledger in which nobody holds or has approved anything.
    pub open spec fn empty(name: Seq<char>, symbol: Seq<char>, decimals: u8) -> LedgerState {
        LedgerState {
            name,
            symbol,
            decimals,
            total_supply: 0,
            balances: Map::empty(),
            allowances: Map::empty(),
            log: Seq::empty(),
        }
    }

    pub open spec fn balance_of(self, account: Address) -> nat {
        if self.balances.dom().contains(account) {
            self.balances[account]
        } else {
            0
        }
    }

    pub open spec fn allowance(self, owner: Address, spender: Address) -> nat {
        if self.allowances.dom().contains((owner, spender)) {
            self.allowances[(owner, spender)]
        } else {
            0
        }
    }

    /// The conservation law: the balances add up to the total supply.
    pub open spec fn conserved(self) -> bool {
        &&& self.balances.dom().finite()
        &&& sum_of(self.balances) == self.total_supply
    }

    /// A state that a ledger can be in: the supply is conserved and fits in
    /// 256 bits.
    pub open spec fn wf(self) -> bool {
        &&& self.conserved()
        &&& self.total_supply <= U256::max_value()
    }

    /// Adds `amount` to the balance of `account`.
    pub open spec fn credit(self, account: Address, amount: nat) -> LedgerState {
        LedgerState {
            balances: self.balances.insert(account, self.balance_of(account) + amount),
            ..self
        }
    }

    /// Takes `amount` from the balance of `account`, which holds at least
    /// that much.
    pub open spec fn debit(self, account: Address, amount: nat) -> LedgerState
        recommends
            amount <= self.balance_of(account),
    {
        LedgerState {
            balances: self.balances.insert(account, (self.balance_of(account) - amount) as nat),
            ..self
        }
    }

    /// Appends a notification to the log.
    pub open spec fn emit(self, event: Event) -> LedgerState {
        LedgerState { log: self.log.push(event), ..self }
    }

    /// Moves `value` from `from` to `to`: a debit, then a credit, then a
    /// `Transfer` notification.
    pub open spec fn transfer(self, from: Address, to: Address, value: U256) -> LedgerState
        recommends
            value@ <= self.balance_of(from),
    {
        self.debit(from, value@).credit(to, value@).emit(
            Event::Transfer(Transfer { from, to, value }),
        )
    }

    /// Replaces what `owner` has approved `spender` to move by `value`,
    /// with an `Approval` notification.
    pub open spec fn approve(self, owner: Address, spender: Address, value: U256) -> LedgerState {
        LedgerState {
            allowances: self.allowances.insert((owner, spender), value@),
            ..self
        }.emit(Event::Approval(Approval { owner, spender, value }))
    }

    /// Takes `amount` from what `owner` has approved `spender` to move.
    pub open spec fn consume_allowance(
        self,
        owner: Address,
        spender: Address,
        amount: nat,
    ) -> LedgerState
        recommends
            amount <= self.allowance(owner, spender),
    {
        LedgerState {
            allowances: self.allowances.insert(
                (owner, spender),
                (self.allowance(owner, spender) - amount) as nat,
            ),
            ..self
        }
    }

    /// Moves `value` from `owner` to `to` on behalf of `spender`: the
    /// allowance is consumed, then the transfer is made.
    pub open spec fn transfer_from(
        self,
        spender: Address,
        owner: Address,
        to: Address,
        value: U256,
    ) -> LedgerState
        recommends
            value@ <= self.allowance(owner, spender),
            value@ <= self.balance_of(owner),
    {
        self.consume_allowance(owner, spender, value@).transfer(owner, to, value)
    }

    /// Creates `value` new tokens in the balance of `to`, with a `Transfer`
    /// notification from the null account.
    pub open spec fn mint(self, to: Address, value: U256) -> LedgerState {
        LedgerState { total_supply: self.total_supply + value@, ..self.credit(to, value@) }.emit(
            Event::Transfer(Transfer { from: Address::zero(), to, value }),
        )
    }

    /// Destroys `value` tokens of the balance of `from`, with a `Transfer`
    /// notification to the null account.
    pub open spec fn burn(self, from: Address, value: U256) -> LedgerState
        recommends
            value@ <= self.balance_of(from),
    {
        LedgerState {
            total_supply: (self.total_supply - value@) as nat,
            ..self.debit(from, value@)
        }.emit(Event::Transfer(Transfer { from, to: Address::zero(), value }))
    }

    /// No account holds more than the total supply.
    pub proof fn lemma_balance_le_supply(self, account: Address)
        requires
            self.conserved(),
        ensures
            self.balance_of(account) <= self.total_supply,
    {
        if self.balances.dom().contains(account) {
            lemma_balance_le_sum(self.balances, account);
        }
    }

    /// A credit raises the sum of the balances by the amount credited.
    pub proof fn lemma_credit_sum(self, account: Address, amount: nat)
        requires
            self.balances.dom().finite(),
        ensures
            self.credit(account, amount).balances.dom().finite(),
            sum_of(self.credit(account, amount).balances) == sum_of(self.balances) + amount,
    {
        lemma_sum_insert(self.balances, account, self.balance_of(account) + amount);
    }

    /// A debit lowers the sum of the balances by the amount debited.
    pub proof fn lemma_debit_sum(self, account: Address, amount: nat)
        requires
            self.balances.dom().finite(),
            amount <= self.balance_of(account),
        ensures
            self.debit(account, amount).balances.dom().finite(),
            sum_of(self.debit(account, amount).balances) + amount == sum_of(self.balances),
    {
        lemma_sum_insert(self.balances, account, (self.balance_of(account) - amount) as nat);
    }

    /// The empty ledger is well formed.
    pub proof fn lemma_empty_wf(name: Seq<char>, symbol: Seq<char>, decimals: u8)
        ensures
            LedgerState::empty(name, symbol, decimals).wf(),
    {
        lemma_add_balance_commutes(Map::empty());
        lemma_fold_empty(0nat, add_balance(Map::empty()));
        assert(Map::<Address, nat>::empty().dom() =~= Set::empty());
    }

    /// A transfer that the sender can afford keeps the ledger well formed:
    /// the supply is unchanged and still the sum of the balances. Only the
    /// two accounts change, and the recipient's new balance fits in 256 bits.
    pub proof fn lemma_transfer(self, from: Address, to: Address, value: U256)
        requires
            self.wf(),
            value@ <= self.balance_of(from),
        ensures
            self.transfer(from, to, value).wf(),
            self.transfer(from, to, value).total_supply == self.total_supply,
            self.debit(from, value@).balance_of(to) + value@ <= U256::max_value(),
            forall|a: Address|
                a != from && a != to ==> #[trigger] self.transfer(from, to, value).balance_of(a)
                    == self.balance_of(a),
            from != to ==> self.transfer(from, to, value).balance_of(from) == self.balance_of(from)
                - value@,
            from != to ==> self.transfer(from, to, value).balance_of(to) == self.balance_of(to)
                + value@,
            from == to ==> self.transfer(from, to, value).balance_of(from) == self.balance_of(
                from,
            ),
    {
        let debited = self.debit(from, value@);
        self.lemma_debit_sum(from, value@);
        debited.lemma_credit_sum(to, value@);
        if debited.balances.dom().contains(to) {
            lemma_balance_le_sum(debited.balances, to);
        }
    }

    /// Approving touches no balance and keeps the ledger well formed.
    pub proof fn lemma_approve(self, owner: Address, spender: Address, value: U256)
        requires
            self.wf(),
        ensures
            self.approve(owner, spender, value).wf(),
            self.approve(owner, spender, value).allowance(owner, spender) == value@,
            self.approve(owner, spender, value).balances == self.balances,
            self.approve(owner, spender, value).total_supply == self.total_supply,
    {
    }

    /// Minting within the 256-bit limit keeps the ledger well formed and
    /// raises the supply and the recipient's balance by the amount minted.
    pub proof fn lemma_mint(self, to: Address, value: U256)
        requires
            self.wf(),
            self.total_supply + value@ <= U256::max_value(),
        ensures
            self.mint(to, value).wf(),
            self.mint(to, value).total_supply == self.total_supply + value@,
            self.mint(to, value).balance_of(to) == self.balance_of(to) + value@,
            self.balance_of(to) + value@ <= U256::max_value(),
            forall|a: Address|
                a != to ==> #[trigger] self.mint(to, value).balance_of(a) == self.balance_of(a),
    {
        self.lemma_credit_sum(to, value@);
        self.lemma_balance_le_supply(to);
    }

    /// Burning what the account can afford keeps the ledger well formed and
    /// lowers the supply and the account's balance by the amount burned.
    pub proof fn lemma_burn(self, from: Address, value: U256)
        requires
            self.wf(),
            value@ <= self.balance_of(from),
        ensures
            self.burn(from, value).wf(),
            self.burn(from, value).total_supply == self.total_supply - value@,
            self.burn(from, value).balance_of(from) == self.balance_of(from) - value@,
            forall|a: Address|
                a != from ==> #[trigger] self.burn(from, value).balance_of(a) == self.balance_of(
                    a,
                ),
    {
        self.lemma_debit_sum(from, value@);
        self.lemma_balance_le_supply(from);
    }

    /// Of two approvals in a row for the same owner and spender, the second
    /// decides the allowance: approvals replace, they do not add up.
    pub proof fn lemma_approve_overwrites(
        self,
        owner: Address,
        spender: Address,
        first: U256,
        second: U256,
    )
        ensures
            self.approve(owner, spender, first).approve(owner, spender, second).allowance(
                owner,
                spender,
            ) == second@,
    {
    }

    /// Minting and then burning the same amount on one account restores the
    /// total supply and every balance. After the mint the account can
    /// always afford the burn.
    pub proof fn lemma_mint_then_burn(self, to: Address, value: U256)
        ensures
            value@ <= self.mint(to, value).balance_of(to),
            self.mint(to, value).burn(to, value).total_supply == self.total_supply,
            forall|a: Address| #[trigger]
                self.mint(to, value).burn(to, value).balance_of(a) == self.balance_of(a),
    {
    }

    /// A debit of the whole balance leaves exactly zero.
    pub proof fn lemma_debit_whole_balance(self, account: Address)
        ensures
            self.debit(account, self.balance_of(account)).balance_of(account) == 0,
    {
    }

    /// A transfer of zero leaves every balance as it was, whoever sends and
    /// whoever receives, and still logs its notification.
    pub proof fn lemma_transfer_zero(self, from: Address, to: Address, value: U256)
        requires
            value@ == 0,
        ensures
            value@ <= self.balance_of(from),
            forall|a: Address| #[trigger]
                self.transfer(from, to, value).balance_of(a) == self.balance_of(a),
            self.transfer(from, to, value).total_supply == self.total_supply,
            self.transfer(from, to, value).log == self.log.push(
                Event::Transfer(Transfer { from, to, value }),
            ),
    {
    }
}

} // verus!
