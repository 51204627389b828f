use erc20_ledger::{Address, MyToken, U256};

fn account(n: u8) -> Address {
    let mut bytes = [0u8; 20];
    bytes[19] = n;
    Address::from(bytes)
}

fn amount(n: u64) -> U256 {
    U256::from(n)
}

/// The sum of the balances of accounts 0 to 9, which are all the accounts
/// these tests use. Each balance is below 2^64.
fn sum_of_balances(token: &MyToken) -> u64 {
    let mut sum = 0u64;
    for n in 0..10u8 {
        let limbs = token.balance_of(account(n)).into_limbs();
        assert_eq!([limbs[1], limbs[2], limbs[3]], [0, 0, 0]);
        sum += limbs[0];
    }
    sum
}

#[test]
fn supply_is_sum_of_balances_after_every_operation() {
    let owner = account(0);
    let alice = account(1);
    let bob = account(2);
    let carol = account(3);
    let mut token = MyToken::new(owner, amount(1_000));
    assert_eq!(token.total_supply(), amount(sum_of_balances(&token)));

    token.mint(owner, alice, amount(500)).unwrap();
    assert_eq!(token.total_supply(), amount(1_500));
    assert_eq!(token.total_supply(), amount(sum_of_balances(&token)));

    token.transfer(alice, bob, amount(120)).unwrap();
    assert_eq!(token.total_supply(), amount(1_500));
    assert_eq!(token.total_supply(), amount(sum_of_balances(&token)));

    token.approve(bob, carol, amount(70));
    token.transfer_from(carol, bob, carol, amount(70)).unwrap();
    assert_eq!(token.total_supply(), amount(1_500));
    assert_eq!(token.total_supply(), amount(sum_of_balances(&token)));

    token.burn(carol, owner, amount(999)).unwrap();
    assert_eq!(token.total_supply(), amount(501));
    assert_eq!(token.total_supply(), amount(sum_of_balances(&token)));

    // Rejected operations leave the sum alone too.
    assert!(token.transfer(bob, alice, amount(51)).is_err());
    assert!(token.burn(bob, carol, amount(71)).is_err());
    assert!(token.mint(alice, alice, amount(1)).is_err());
    assert!(token.transfer_from(alice, owner, alice, amount(1)).is_err());
    assert_eq!(token.total_supply(), amount(501));
    assert_eq!(token.total_supply(), amount(sum_of_balances(&token)));

    assert_eq!(token.balance_of(owner), amount(1));
    assert_eq!(token.balance_of(alice), amount(380));
    assert_eq!(token.balance_of(bob), amount(50));
    assert_eq!(token.balance_of(carol), amount(70));
}

#[test]
fn debit_of_whole_balance_leaves_zero() {
    let owner = account(0);
    let alice = account(1);
    let bob = account(2);
    let mut token = MyToken::new(owner, amount(0));
    token.mint(owner, alice, amount(100)).unwrap();
    token.mint(owner, bob, amount(40)).unwrap();

    assert_eq!(token.transfer(alice, bob, amount(100)), Ok(true));
    assert_eq!(token.balance_of(alice), amount(0));
    assert_eq!(token.balance_of(bob), amount(140));

    assert_eq!(token.burn(owner, bob, amount(140)), Ok(()));
    assert_eq!(token.balance_of(bob), amount(0));
    assert_eq!(token.total_supply(), amount(0));

    // One more unit than the balance is refused.
    assert!(token.transfer(alice, bob, amount(1)).is_err());
    assert!(token.burn(owner, bob, amount(1)).is_err());
}

#[test]
fn second_approval_replaces_first() {
    let owner = account(0);
    let alice = account(1);
    let bob = account(2);
    let mut token = MyToken::new(owner, amount(0));

    assert!(token.approve(alice, bob, amount(40)));
    assert!(token.approve(alice, bob, amount(40)));
    assert_eq!(token.allowance(alice, bob), amount(40));

    assert!(token.approve(alice, bob, amount(70)));
    assert_eq!(token.allowance(alice, bob), amount(70));

    assert!(token.approve(alice, bob, amount(0)));
    assert_eq!(token.allowance(alice, bob), amount(0));

    assert!(token.approve(alice, bob, amount(30)));
    assert_eq!(token.allowance(alice, bob), amount(30));
}

#[test]
fn approval_may_exceed_balance() {
    let owner = account(0);
    let alice = account(1);
    let bob = account(2);
    let mut token = MyToken::new(owner, amount(0));
    token.mint(owner, alice, amount(10)).unwrap();

    assert!(token.approve(alice, bob, amount(1_000)));
    assert_eq!(token.allowance(alice, bob), amount(1_000));
    assert_eq!(token.balance_of(alice), amount(10));
}

#[test]
fn mint_then_burn_restores_supply_and_balance() {
    let owner = account(0);
    let alice = account(1);
    let mut token = MyToken::new(owner, amount(300));
    token.mint(owner, alice, amount(25)).unwrap();
    let supply_before = token.total_supply();
    let balance_before = token.balance_of(alice);

    token.mint(owner, alice, amount(4_000)).unwrap();
    assert_eq!(token.total_supply(), amount(4_325));
    assert_eq!(token.balance_of(alice), amount(4_025));
    token.burn(owner, alice, amount(4_000)).unwrap();

    assert_eq!(token.total_supply(), supply_before);
    assert_eq!(token.balance_of(alice), balance_before);
    assert_eq!(token.balance_of(owner), amount(300));
}

#[test]
fn supply_follows_several_mints_and_burns() {
    let owner = account(0);
    let alice = account(1);
    let bob = account(2);
    let mut token = MyToken::new(owner, amount(0));
    token.mint(owner, alice, amount(100)).unwrap();
    token.mint(owner, bob, amount(200)).unwrap();
    assert_eq!(token.total_supply(), amount(300));

    token.burn(alice, alice, amount(40)).unwrap();
    token.burn(bob, bob, amount(100)).unwrap();

    assert_eq!(token.total_supply(), amount(160));
    assert_eq!(token.balance_of(alice), amount(60));
    assert_eq!(token.balance_of(bob), amount(100));
}
