use erc20::{
    Address, AllowanceRegistry, Amount, Approval, ERC20Error, ERC20Params, Ledger, Mock, Transfer,
    ERC20,
};

fn account(tag: u8) -> Address {
    Address { bytes: [tag; 20] }
}

fn units(value: u64) -> Amount {
    Amount::from_u64(value)
}

fn max() -> Amount {
    Amount::from_limbs([u64::MAX; 4])
}

fn token() -> ERC20 {
    ERC20::new(ERC20Params { name: "Token".to_string(), symbol: "TKN".to_string() })
}

fn sum_of_balances(token: &ERC20, accounts: &[Address]) -> Amount {
    let mut sum = Amount::zero();
    for a in accounts {
        sum = sum.checked_add(token.balanceOf(*a).unwrap()).unwrap();
    }
    sum
}

#[test]
fn new_token_is_empty() {
    let t = token();
    assert_eq!(t.name(), Ok("Token".to_string()));
    assert_eq!(t.symbol(), Ok("TKN".to_string()));
    assert_eq!(t.totalSupply(), Ok(Amount::zero()));
    assert_eq!(t.balanceOf(account(1)), Ok(Amount::zero()));
    assert_eq!(t.balanceOf(Address::null()), Ok(Amount::zero()));
    assert_eq!(t.allowance(account(1), account(2)), Ok(Amount::zero()));
}

#[test]
fn mock_is_named() {
    let m = Mock::new();
    assert_eq!(m.erc20.name(), Ok("Mock ERC20".to_string()));
    assert_eq!(m.erc20.symbol(), Ok("MOCK".to_string()));
    assert_eq!(m.erc20.totalSupply(), Ok(Amount::zero()));
}

#[test]
fn mint_approve_and_delegated_transfers() {
    let (a, b, c) = (account(0xa), account(0xb), account(0xc));
    let mut m = Mock::new();

    assert_eq!(
        m.mint(a, units(1000)),
        Ok(Transfer { from: Address::null(), to: a, value: units(1000) })
    );
    assert_eq!(m.erc20.balanceOf(a), Ok(units(1000)));
    assert_eq!(m.erc20.totalSupply(), Ok(units(1000)));

    assert_eq!(
        m.erc20.approve(a, b, units(300)),
        Ok(Approval { owner: a, spender: b, value: units(300) })
    );
    assert_eq!(m.erc20.allowance(a, b), Ok(units(300)));

    assert_eq!(
        m.erc20.transferFrom(b, a, c, units(200)),
        Ok(Transfer { from: a, to: c, value: units(200) })
    );
    assert_eq!(m.erc20.balanceOf(a), Ok(units(800)));
    assert_eq!(m.erc20.balanceOf(c), Ok(units(200)));
    assert_eq!(m.erc20.allowance(a, b), Ok(units(100)));

    assert_eq!(
        m.erc20.transferFrom(b, a, c, units(200)),
        Err(ERC20Error::InsufficientAllowance {
            owner: a,
            spender: b,
            allowance: units(100),
            needed: units(200),
        })
    );
    assert_eq!(m.erc20.balanceOf(a), Ok(units(800)));
    assert_eq!(m.erc20.balanceOf(b), Ok(Amount::zero()));
    assert_eq!(m.erc20.balanceOf(c), Ok(units(200)));
    assert_eq!(m.erc20.allowance(a, b), Ok(units(100)));
    assert_eq!(m.erc20.totalSupply(), Ok(units(1000)));
}

#[test]
fn mint_then_burn_nets_out() {
    let (to, other) = (account(1), account(2));
    let mut m = Mock::new();
    m.mint(other, units(5)).unwrap();
    m.mint(to, units(7)).unwrap();
    let balance_before = m.erc20.balanceOf(to).unwrap();
    let supply_before = m.erc20.totalSupply().unwrap();

    let mut notices = Vec::new();
    notices.push(m.mint(to, units(100)).unwrap());
    notices.push(m.burn(to, units(40)).unwrap());

    assert_eq!(m.erc20.balanceOf(to), Ok(balance_before.checked_add(units(60)).unwrap()));
    assert_eq!(m.erc20.balanceOf(to), Ok(units(67)));
    assert_eq!(m.erc20.totalSupply(), Ok(supply_before.checked_add(units(60)).unwrap()));
    assert_eq!(m.erc20.totalSupply(), Ok(units(72)));
    assert_eq!(m.erc20.balanceOf(other), Ok(units(5)));
    assert_eq!(
        notices,
        vec![
            Transfer { from: Address::null(), to, value: units(100) },
            Transfer { from: to, to: Address::null(), value: units(40) },
        ]
    );
}

#[test]
fn transfer_moves_funds() {
    let (a, b) = (account(1), account(2));
    let mut t = token();
    t._mint(a, units(50)).unwrap();
    assert_eq!(t.transfer(a, b, units(20)), Ok(Transfer { from: a, to: b, value: units(20) }));
    assert_eq!(t.balanceOf(a), Ok(units(30)));
    assert_eq!(t.balanceOf(b), Ok(units(20)));
    assert_eq!(t.totalSupply(), Ok(units(50)));
    assert_eq!(t.transfer(a, b, units(30)), Ok(Transfer { from: a, to: b, value: units(30) }));
    assert_eq!(t.balanceOf(a), Ok(Amount::zero()));
    assert_eq!(t.balanceOf(b), Ok(units(50)));
}

#[test]
fn transfer_of_too_much_changes_nothing() {
    let (a, b) = (account(1), account(2));
    let mut t = token();
    t._mint(a, units(50)).unwrap();
    t._mint(b, units(5)).unwrap();
    assert_eq!(
        t.transfer(a, b, units(51)),
        Err(ERC20Error::InsufficientBalance { account: a, balance: units(50), needed: units(51) })
    );
    assert_eq!(t.balanceOf(a), Ok(units(50)));
    assert_eq!(t.balanceOf(b), Ok(units(5)));
    assert_eq!(t.totalSupply(), Ok(units(55)));
    assert_eq!(
        t.transfer(account(3), b, units(1)),
        Err(ERC20Error::InsufficientBalance {
            account: account(3),
            balance: Amount::zero(),
            needed: units(1),
        })
    );
}

#[test]
fn transfer_to_the_null_address_is_refused() {
    let a = account(1);
    let mut t = token();
    t._mint(a, units(50)).unwrap();
    assert_eq!(t.transfer(a, Address::null(), units(10)), Err(ERC20Error::InvalidReceiver));
    assert_eq!(t.transfer(a, Address::null(), units(51)), Err(ERC20Error::InvalidReceiver));
    assert_eq!(t.transfer(a, Address::null(), Amount::zero()), Err(ERC20Error::InvalidReceiver));
    assert_eq!(t.balanceOf(a), Ok(units(50)));
    assert_eq!(t.balanceOf(Address::null()), Ok(Amount::zero()));
    assert_eq!(t.totalSupply(), Ok(units(50)));
}

#[test]
fn transfer_to_oneself_changes_nothing() {
    let a = account(1);
    let mut t = token();
    t._mint(a, units(50)).unwrap();
    assert_eq!(t.transfer(a, a, units(50)), Ok(Transfer { from: a, to: a, value: units(50) }));
    assert_eq!(t.balanceOf(a), Ok(units(50)));
    assert_eq!(t.totalSupply(), Ok(units(50)));
    assert_eq!(
        t.transfer(a, a, units(51)),
        Err(ERC20Error::InsufficientBalance { account: a, balance: units(50), needed: units(51) })
    );
}

#[test]
fn transfer_of_nothing_succeeds() {
    let (a, b) = (account(1), account(2));
    let mut t = token();
    assert_eq!(
        t.transfer(a, b, Amount::zero()),
        Ok(Transfer { from: a, to: b, value: Amount::zero() })
    );
    assert_eq!(t.balanceOf(a), Ok(Amount::zero()));
    assert_eq!(t.balanceOf(b), Ok(Amount::zero()));
    assert_eq!(t.totalSupply(), Ok(Amount::zero()));
}

#[test]
fn transfer_of_the_whole_supply_cannot_overflow() {
    let (a, b) = (account(1), account(2));
    let mut t = token();
    t._mint(a, max()).unwrap();
    assert_eq!(t.transfer(a, b, max()), Ok(Transfer { from: a, to: b, value: max() }));
    assert_eq!(t.balanceOf(a), Ok(Amount::zero()));
    assert_eq!(t.balanceOf(b), Ok(max()));
    assert_eq!(t.totalSupply(), Ok(max()));
}

#[test]
fn approve_overwrites() {
    let (a, b) = (account(1), account(2));
    let mut t = token();
    t.approve(a, b, units(300)).unwrap();
    assert_eq!(t.approve(a, b, units(20)), Ok(Approval { owner: a, spender: b, value: units(20) }));
    assert_eq!(t.allowance(a, b), Ok(units(20)));
    t.approve(a, b, units(500)).unwrap();
    assert_eq!(t.allowance(a, b), Ok(units(500)));
    t.approve(a, b, Amount::zero()).unwrap();
    assert_eq!(t.allowance(a, b), Ok(Amount::zero()));
    assert_eq!(t.allowance(b, a), Ok(Amount::zero()));
}

#[test]
fn approve_keeps_pairs_apart() {
    let (a, b, c) = (account(1), account(2), account(3));
    let mut t = token();
    t.approve(a, b, units(1)).unwrap();
    t.approve(b, a, units(2)).unwrap();
    t.approve(a, c, units(3)).unwrap();
    assert_eq!(t.allowance(a, b), Ok(units(1)));
    assert_eq!(t.allowance(b, a), Ok(units(2)));
    assert_eq!(t.allowance(a, c), Ok(units(3)));
    assert_eq!(t.allowance(c, a), Ok(Amount::zero()));
    assert_eq!(t.totalSupply(), Ok(Amount::zero()));
}

#[test]
fn approve_refuses_the_null_address() {
    let a = account(1);
    let mut t = token();
    assert_eq!(t.approve(Address::null(), a, units(1)), Err(ERC20Error::InvalidApprover));
    assert_eq!(t.approve(a, Address::null(), units(1)), Err(ERC20Error::InvalidSpender));
    assert_eq!(
        t.approve(Address::null(), Address::null(), units(1)),
        Err(ERC20Error::InvalidApprover)
    );
    assert_eq!(t.allowance(Address::null(), a), Ok(Amount::zero()));
    assert_eq!(t.allowance(a, Address::null()), Ok(Amount::zero()));
}

#[test]
fn delegated_transfer_spends_the_allowance() {
    let (a, b, c) = (account(1), account(2), account(3));
    let mut t = token();
    t._mint(a, units(1000)).unwrap();
    t.approve(a, b, units(300)).unwrap();
    t.approve(a, c, units(11)).unwrap();
    t.transferFrom(b, a, b, units(120)).unwrap();
    assert_eq!(t.allowance(a, b), Ok(units(180)));
    assert_eq!(t.allowance(a, c), Ok(units(11)));
    assert_eq!(t.balanceOf(a), Ok(units(880)));
    assert_eq!(t.balanceOf(b), Ok(units(120)));
    t.transferFrom(b, a, c, units(180)).unwrap();
    assert_eq!(t.allowance(a, b), Ok(Amount::zero()));
    assert_eq!(t.balanceOf(c), Ok(units(180)));
}

#[test]
fn transfer_by_the_owner_needs_no_allowance() {
    let (a, b) = (account(1), account(2));
    let mut t = token();
    t._mint(a, units(1000)).unwrap();
    t.approve(a, a, units(5)).unwrap();
    t.approve(a, b, units(7)).unwrap();
    assert_eq!(
        t.transferFrom(a, a, b, units(400)),
        Ok(Transfer { from: a, to: b, value: units(400) })
    );
    assert_eq!(t.allowance(a, a), Ok(units(5)));
    assert_eq!(t.allowance(a, b), Ok(units(7)));
    assert_eq!(t.balanceOf(a), Ok(units(600)));
    assert_eq!(t.balanceOf(b), Ok(units(400)));
}

#[test]
fn delegated_transfer_checks_allowance_then_receiver_then_balance() {
    let (a, b, c) = (account(1), account(2), account(3));
    let mut t = token();
    t._mint(a, units(100)).unwrap();
    t.approve(a, b, units(150)).unwrap();
    assert_eq!(
        t.transferFrom(b, a, Address::null(), units(200)),
        Err(ERC20Error::InsufficientAllowance {
            owner: a,
            spender: b,
            allowance: units(150),
            needed: units(200),
        })
    );
    assert_eq!(t.transferFrom(b, a, Address::null(), units(120)), Err(ERC20Error::InvalidReceiver));
    assert_eq!(
        t.transferFrom(b, a, c, units(120)),
        Err(ERC20Error::InsufficientBalance { account: a, balance: units(100), needed: units(120) })
    );
    assert_eq!(t.allowance(a, b), Ok(units(150)));
    assert_eq!(t.balanceOf(a), Ok(units(100)));
    assert_eq!(t.balanceOf(c), Ok(Amount::zero()));
    assert_eq!(t.totalSupply(), Ok(units(100)));
}

#[test]
fn mint_refuses_the_null_address_and_overflow() {
    let (a, b) = (account(1), account(2));
    let mut t = token();
    assert_eq!(t._mint(Address::null(), units(1)), Err(ERC20Error::InvalidReceiver));
    t._mint(a, max()).unwrap();
    assert_eq!(t._mint(b, units(1)), Err(ERC20Error::Overflow));
    assert_eq!(t._mint(a, units(1)), Err(ERC20Error::Overflow));
    assert_eq!(t._mint(Address::null(), max()), Err(ERC20Error::InvalidReceiver));
    assert_eq!(t._mint(b, Amount::zero()).map(|n| n.value), Ok(Amount::zero()));
    assert_eq!(t.balanceOf(a), Ok(max()));
    assert_eq!(t.balanceOf(b), Ok(Amount::zero()));
    assert_eq!(t.totalSupply(), Ok(max()));
}

#[test]
fn burn_of_too_much_changes_nothing() {
    let a = account(1);
    let mut t = token();
    t._mint(a, units(10)).unwrap();
    assert_eq!(
        t._burn(a, units(11)),
        Err(ERC20Error::InsufficientBalance { account: a, balance: units(10), needed: units(11) })
    );
    assert_eq!(t.balanceOf(a), Ok(units(10)));
    assert_eq!(t.totalSupply(), Ok(units(10)));
    assert_eq!(t._burn(a, units(10)), Ok(Transfer { from: a, to: Address::null(), value: units(10) }));
    assert_eq!(t.balanceOf(a), Ok(Amount::zero()));
    assert_eq!(t.totalSupply(), Ok(Amount::zero()));
}

#[test]
fn supply_is_the_sum_of_the_balances_after_every_step() {
    let accounts = [account(1), account(2), account(3), account(4)];
    let [a, b, c, d] = accounts;
    let mut m = Mock::new();
    let check = |m: &Mock| {
        assert_eq!(sum_of_balances(&m.erc20, &accounts), m.erc20.totalSupply().unwrap());
        for x in accounts {
            assert!(!m.erc20.balanceOf(x).unwrap().lt(&Amount::zero()));
            assert!(!m.erc20.totalSupply().unwrap().lt(&m.erc20.balanceOf(x).unwrap()));
        }
    };
    check(&m);
    m.mint(a, units(1000)).unwrap();
    check(&m);
    m.mint(b, units(10)).unwrap();
    check(&m);
    m.erc20.transfer(a, c, units(250)).unwrap();
    check(&m);
    assert!(m.erc20.transfer(b, c, units(11)).is_err());
    check(&m);
    m.erc20.approve(c, d, units(100)).unwrap();
    check(&m);
    m.erc20.transferFrom(d, c, d, units(100)).unwrap();
    check(&m);
    assert!(m.erc20.transferFrom(d, c, d, units(1)).is_err());
    check(&m);
    m.burn(d, units(30)).unwrap();
    check(&m);
    assert!(m.burn(b, units(11)).is_err());
    check(&m);
    m.erc20.transfer(c, c, units(150)).unwrap();
    check(&m);
    assert_eq!(m.erc20.balanceOf(a), Ok(units(750)));
    assert_eq!(m.erc20.balanceOf(b), Ok(units(10)));
    assert_eq!(m.erc20.balanceOf(c), Ok(units(150)));
    assert_eq!(m.erc20.balanceOf(d), Ok(units(70)));
    assert_eq!(m.erc20.totalSupply(), Ok(units(980)));
}

#[test]
fn ledger_credits_and_debits() {
    let (a, b) = (account(1), account(2));
    let mut l = Ledger::new();
    assert_eq!(l.credit(a, units(5)), Ok(()));
    assert_eq!(l.credit(a, units(6)), Ok(()));
    assert_eq!(l.balance_of(a), units(11));
    assert_eq!(l.balance_of(b), Amount::zero());
    assert_eq!(l.total_supply(), Amount::zero());
    assert_eq!(
        l.debit(a, units(12)),
        Err(ERC20Error::InsufficientBalance { account: a, balance: units(11), needed: units(12) })
    );
    assert_eq!(l.balance_of(a), units(11));
    assert_eq!(l.debit(a, units(4)), Ok(()));
    assert_eq!(l.balance_of(a), units(7));
    assert_eq!(l.credit(a, max()), Err(ERC20Error::Overflow));
    assert_eq!(l.balance_of(a), units(7));
    assert_eq!(l.credit(b, max()), Ok(()));
    assert_eq!(l.balance_of(b), max());
}

#[test]
fn registry_approves_and_spends() {
    let (a, b) = (account(1), account(2));
    let mut r = AllowanceRegistry::new();
    assert_eq!(r.allowance(a, b), Amount::zero());
    assert_eq!(r.approve(a, b, units(10)), Ok(()));
    assert_eq!(r.spend(a, b, units(4)), Ok(()));
    assert_eq!(r.allowance(a, b), units(6));
    assert_eq!(
        r.spend(a, b, units(7)),
        Err(ERC20Error::InsufficientAllowance {
            owner: a,
            spender: b,
            allowance: units(6),
            needed: units(7),
        })
    );
    assert_eq!(r.allowance(a, b), units(6));
    assert_eq!(
        r.spend(b, a, units(1)),
        Err(ERC20Error::InsufficientAllowance {
            owner: b,
            spender: a,
            allowance: Amount::zero(),
            needed: units(1),
        })
    );
    assert_eq!(r.spend(a, b, units(6)), Ok(()));
    assert_eq!(r.allowance(a, b), Amount::zero());
    assert_eq!(r.approve(Address::null(), b, units(1)), Err(ERC20Error::InvalidApprover));
    assert_eq!(r.approve(a, Address::null(), units(1)), Err(ERC20Error::InvalidSpender));
}
