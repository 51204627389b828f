use erc20_ledger::{
    Address, Erc20Error, Event, InsufficientAllowance, InsufficientBalance, MyToken, Transfer, U256,
};

fn account(n: u8) -> Address {
    let mut bytes = [0u8; 20];
    bytes[19] = n;
    Address::from(bytes)
}

fn amount(n: u64) -> U256 {
    U256::from(n)
}

/// A token owned by account 9, in which `holder` holds `held`.
fn token_with(holder: Address, held: u64) -> MyToken {
    let owner = account(9);
    let mut token = MyToken::new(owner, amount(0));
    token.mint(owner, holder, amount(held)).unwrap();
    token
}

#[test]
fn mint_into_empty_ledger() {
    let owner = account(9);
    let alice = account(1);
    let mut token = MyToken::new(owner, amount(0));
    assert_eq!(token.total_supply(), amount(0));
    assert_eq!(token.balance_of(alice), amount(0));

    assert_eq!(token.mint(owner, alice, amount(1000)), Ok(()));

    assert_eq!(token.balance_of(alice), amount(1000));
    assert_eq!(token.total_supply(), amount(1000));
    assert_eq!(
        token.erc20.events().last(),
        Some(&Event::Transfer(Transfer { from: Address::zero(), to: alice, value: amount(1000) }))
    );
}

#[test]
fn transfer_moves_balance_and_logs() {
    let alice = account(1);
    let bob = account(2);
    let mut token = token_with(alice, 500);

    assert_eq!(token.transfer(alice, bob, amount(200)), Ok(true));

    assert_eq!(token.balance_of(alice), amount(300));
    assert_eq!(token.balance_of(bob), amount(200));
    assert_eq!(token.total_supply(), amount(500));
    assert_eq!(
        token.erc20.events().last(),
        Some(&Event::Transfer(Transfer { from: alice, to: bob, value: amount(200) }))
    );
}

#[test]
fn delegated_transfer_consumes_allowance() {
    let alice = account(1);
    let bob = account(2);
    let carol = account(3);
    let mut token = token_with(alice, 500);

    assert!(token.approve(alice, bob, amount(200)));
    assert_eq!(token.allowance(alice, bob), amount(200));

    assert_eq!(token.transfer_from(bob, alice, carol, amount(150)), Ok(true));

    assert_eq!(token.allowance(alice, bob), amount(50));
    assert_eq!(token.balance_of(carol), amount(150));
    assert_eq!(token.balance_of(alice), amount(350));
    assert_eq!(token.balance_of(bob), amount(0));
    assert_eq!(
        token.erc20.events().last(),
        Some(&Event::Transfer(Transfer { from: alice, to: carol, value: amount(150) }))
    );
}

#[test]
fn transfer_beyond_balance_is_rejected() {
    let alice = account(1);
    let bob = account(2);
    let mut token = token_with(alice, 100);
    let logged = token.erc20.events().len();

    assert_eq!(
        token.transfer(alice, bob, amount(200)),
        Err(Erc20Error::InsufficientBalance(InsufficientBalance {
            account: alice,
            have: amount(100),
            want: amount(200),
        }))
    );

    assert_eq!(token.balance_of(alice), amount(100));
    assert_eq!(token.balance_of(bob), amount(0));
    assert_eq!(token.total_supply(), amount(100));
    assert_eq!(token.erc20.events().len(), logged);
}

#[test]
fn delegated_transfer_beyond_allowance_is_rejected() {
    let alice = account(1);
    let bob = account(2);
    let carol = account(3);
    let mut token = token_with(alice, 500);
    token.approve(alice, bob, amount(100));
    let logged = token.erc20.events().len();

    assert_eq!(
        token.transfer_from(bob, alice, carol, amount(150)),
        Err(Erc20Error::InsufficientAllowance(InsufficientAllowance {
            owner: alice,
            spender: bob,
            have: amount(100),
            want: amount(150),
        }))
    );

    assert_eq!(token.allowance(alice, bob), amount(100));
    assert_eq!(token.balance_of(alice), amount(500));
    assert_eq!(token.balance_of(carol), amount(0));
    assert_eq!(token.erc20.events().len(), logged);
}

#[test]
fn zero_transfer_succeeds_and_still_logs() {
    let alice = account(1);
    let bob = account(2);
    let nobody = account(7);
    let mut token = token_with(alice, 100);

    assert_eq!(token.transfer(alice, bob, amount(0)), Ok(true));
    assert_eq!(token.balance_of(alice), amount(100));
    assert_eq!(token.balance_of(bob), amount(0));
    assert_eq!(
        token.erc20.events().last(),
        Some(&Event::Transfer(Transfer { from: alice, to: bob, value: amount(0) }))
    );

    // An account that never held anything can send zero as well.
    assert_eq!(token.transfer(nobody, alice, amount(0)), Ok(true));
    assert_eq!(token.balance_of(nobody), amount(0));
    assert_eq!(token.balance_of(alice), amount(100));
    assert_eq!(
        token.erc20.events().last(),
        Some(&Event::Transfer(Transfer { from: nobody, to: alice, value: amount(0) }))
    );
}

#[test]
fn transfer_to_self_keeps_balance() {
    let alice = account(1);
    let mut token = token_with(alice, 100);

    assert_eq!(token.transfer(alice, alice, amount(50)), Ok(true));
    assert_eq!(token.balance_of(alice), amount(100));
    assert_eq!(token.total_supply(), amount(100));
    assert_eq!(
        token.erc20.events().last(),
        Some(&Event::Transfer(Transfer { from: alice, to: alice, value: amount(50) }))
    );

    // Sending oneself more than one holds is still rejected.
    assert_eq!(
        token.transfer(alice, alice, amount(101)),
        Err(Erc20Error::InsufficientBalance(InsufficientBalance {
            account: alice,
            have: amount(100),
            want: amount(101),
        }))
    );
    assert_eq!(token.balance_of(alice), amount(100));
}

#[test]
fn new_token_gives_whole_supply_to_its_creator() {
    let alice = account(1);
    let token = MyToken::new(alice, amount(750));

    assert_eq!(token.owner, alice);
    assert_eq!(token.total_supply(), amount(750));
    assert_eq!(token.balance_of(alice), amount(750));
    assert_eq!(
        token.erc20.events().as_slice(),
        &[Event::Transfer(Transfer { from: Address::zero(), to: alice, value: amount(750) })]
    );
}

#[test]
fn burn_lowers_balance_and_supply() {
    let alice = account(1);
    let bob = account(2);
    let mut token = token_with(alice, 1000);

    // Any caller may burn from any account.
    assert_eq!(token.burn(bob, alice, amount(400)), Ok(()));

    assert_eq!(token.balance_of(alice), amount(600));
    assert_eq!(token.total_supply(), amount(600));
    assert_eq!(
        token.erc20.events().last(),
        Some(&Event::Transfer(Transfer { from: alice, to: Address::zero(), value: amount(400) }))
    );
}

#[test]
fn approvals_of_several_spenders_are_independent() {
    let alice = account(1);
    let bob = account(2);
    let carol = account(3);
    let mut token = token_with(alice, 100);
    token.approve(alice, bob, amount(40));
    token.approve(alice, carol, amount(30));

    assert_eq!(token.transfer_from(bob, alice, bob, amount(20)), Ok(true));
    assert_eq!(token.transfer_from(carol, alice, carol, amount(10)), Ok(true));

    assert_eq!(token.balance_of(alice), amount(70));
    assert_eq!(token.balance_of(bob), amount(20));
    assert_eq!(token.balance_of(carol), amount(10));
    assert_eq!(token.allowance(alice, bob), amount(20));
    assert_eq!(token.allowance(alice, carol), amount(20));
    // An allowance belongs to the pair in that order.
    assert_eq!(token.allowance(bob, alice), amount(0));
}

#[test]
fn direct_transfer_leaves_allowance_alone() {
    let alice = account(1);
    let bob = account(2);
    let mut token = token_with(alice, 100);
    token.approve(alice, bob, amount(50));

    assert_eq!(token.transfer(alice, bob, amount(10)), Ok(true));

    assert_eq!(token.allowance(alice, bob), amount(50));
}

#[test]
fn delegated_transfer_of_exact_allowance() {
    let alice = account(1);
    let bob = account(2);
    let carol = account(3);
    let mut token = token_with(alice, 100);
    token.approve(alice, bob, amount(25));

    assert_eq!(token.transfer_from(bob, alice, carol, amount(25)), Ok(true));

    assert_eq!(token.allowance(alice, bob), amount(0));
    assert_eq!(token.balance_of(carol), amount(25));
    assert_eq!(token.balance_of(alice), amount(75));
}

#[test]
fn self_approval_and_delegated_self_transfer() {
    let alice = account(1);
    let mut token = token_with(alice, 100);
    token.approve(alice, alice, amount(100));

    assert_eq!(token.transfer_from(alice, alice, alice, amount(50)), Ok(true));

    assert_eq!(token.balance_of(alice), amount(100));
    assert_eq!(token.allowance(alice, alice), amount(50));
}
