//! Portfolio CRUD behaviour: deposits, risk levels, withdrawal, defaults.

use kalepensionfund::Address;
use kalepensionfund::Error;
use kalepensionfund::KalePensionFund;
use kalepensionfund::MockOracleContract;
use kalepensionfund::Symbol;

fn make_mock(kale: i128, btc: i128, usdc: i128) -> MockOracleContract {
    let mut mock = MockOracleContract::new();
    mock.set_price(Symbol::new(b"KALE".to_vec()), kale);
    mock.set_price(Symbol::new(b"BTC".to_vec()), btc);
    mock.set_price(Symbol::new(b"USDC".to_vec()), usdc);
    mock
}

fn setup_fund() -> (KalePensionFund, Address) {
    let mut fund = KalePensionFund::new();
    let admin = Address { id: 99 };
    fund.initialize(
        admin,
        Address { id: 10 },
        Address { id: 11 },
        Address { id: 12 },
        Address { id: 13 },
        Address { id: 14 },
    );
    fund.set_mock_oracle(make_mock(120_000_000, 111_235_000_000_000, 1_000_000_000));
    (fund, Address { id: 1 })
}

#[test]
fn test_initialize() {
    let (fund, _user) = setup_fund();
    let other = Address { id: 7 };
    let portfolio = fund.get_portfolio(other);
    assert_eq!(portfolio.kale_balance, 0);
    assert_eq!(portfolio.risk_level, 1);
}

#[test]
fn test_get_empty_portfolio() {
    let (fund, user) = setup_fund();
    let portfolio = fund.get_portfolio(user);
    assert_eq!(portfolio.user, user);
    assert_eq!(portfolio.kale_balance, 0);
    assert_eq!(portfolio.usdc_balance, 0);
    assert_eq!(portfolio.btc_balance, 0);
    assert_eq!(portfolio.risk_level, 1);
}

#[test]
fn test_deposit_kale() {
    let (mut fund, user) = setup_fund();
    fund.deposit(user, 500_000_000_000);
    let portfolio = fund.get_portfolio(user);
    assert_eq!(portfolio.kale_balance, 500_000_000_000);
    assert_eq!(portfolio.risk_level, 1);
}

#[test]
fn test_deposit_negative_amount() {
    let (mut fund, user) = setup_fund();
    fund.deposit(user, -100);
    let portfolio = fund.get_portfolio(user);
    assert_eq!(portfolio.kale_balance, 0);
}

#[test]
fn test_deposit_zero_amount() {
    let (mut fund, user) = setup_fund();
    fund.deposit(user, 0);
    let portfolio = fund.get_portfolio(user);
    assert_eq!(portfolio.kale_balance, 0);
}

#[test]
fn test_deposit_requires_configuration() {
    let mut fund = KalePensionFund::new();
    let user = Address { id: 1 };
    fund.deposit(user, 500_000_000_000);
    let portfolio = fund.get_portfolio(user);
    assert_eq!(portfolio.kale_balance, 0);
}

#[test]
fn test_multiple_deposits() {
    let (mut fund, user) = setup_fund();
    fund.deposit(user, 300_000_000_000);
    let portfolio = fund.get_portfolio(user);
    assert_eq!(portfolio.kale_balance, 300_000_000_000);
    fund.deposit(user, 200_000_000_000);
    let portfolio = fund.get_portfolio(user);
    assert_eq!(portfolio.kale_balance, 500_000_000_000);
}

#[test]
fn test_set_risk_levels() {
    let (mut fund, user) = setup_fund();
    fund.deposit(user, 500_000_000_000);
    assert!(fund.set_risk(user, 1).is_ok());
    let portfolio = fund.get_portfolio(user);
    assert_eq!(portfolio.risk_level, 1);
    assert!(fund.set_risk(user, 2).is_ok());
    let portfolio = fund.get_portfolio(user);
    assert_eq!(portfolio.risk_level, 2);
    assert!(fund.set_risk(user, 3).is_ok());
    let portfolio = fund.get_portfolio(user);
    assert_eq!(portfolio.risk_level, 3);
}

#[test]
fn test_invalid_risk_level_zero() {
    let (mut fund, user) = setup_fund();
    fund.deposit(user, 500_000_000_000);
    let initial_risk_level = fund.get_portfolio(user).risk_level;
    assert!(fund.set_risk(user, 0).is_ok());
    let portfolio_after = fund.get_portfolio(user);
    assert_eq!(portfolio_after.risk_level, initial_risk_level);
}

#[test]
fn test_invalid_risk_level_four() {
    let (mut fund, user) = setup_fund();
    fund.deposit(user, 500_000_000_000);
    let initial_risk_level = fund.get_portfolio(user).risk_level;
    assert!(fund.set_risk(user, 4).is_ok());
    let portfolio_after = fund.get_portfolio(user);
    assert_eq!(portfolio_after.risk_level, initial_risk_level);
}

#[test]
fn test_set_risk_without_portfolio() {
    let (mut fund, user) = setup_fund();
    assert_eq!(fund.set_risk(user, 2), Err(Error::PortfolioNotFound));
}

#[test]
fn test_debug_contract_status() {
    let (fund, _user) = setup_fund();
    let (is_initialized, kale_addr, usdc_addr, btc_addr) = fund.debug_contract_status();
    assert_eq!(is_initialized, true);
    assert_eq!(kale_addr, Some(Address { id: 10 }));
    assert_eq!(usdc_addr, Some(Address { id: 11 }));
    assert_eq!(btc_addr, Some(Address { id: 12 }));
}

#[test]
fn test_debug_contract_status_uninitialized() {
    let fund = KalePensionFund::new();
    let (is_initialized, kale_addr, _usdc_addr, _btc_addr) = fund.debug_contract_status();
    assert_eq!(is_initialized, false);
    assert_eq!(kale_addr, None);
}

#[test]
fn test_withdraw() {
    let (mut fund, user) = setup_fund();
    fund.deposit(user, 500_000_000_000);
    let portfolio_before = fund.get_portfolio(user);
    assert_eq!(portfolio_before.kale_balance, 500_000_000_000);
    fund.withdraw(user);
    let portfolio = fund.get_portfolio(user);
    assert_eq!(portfolio.kale_balance, 0);
    assert_eq!(portfolio.usdc_balance, 0);
    assert_eq!(portfolio.btc_balance, 0);
    assert_eq!(portfolio.risk_level, 1);
}

#[test]
fn test_withdraw_without_portfolio() {
    let (mut fund, user) = setup_fund();
    fund.withdraw(user);
    let portfolio = fund.get_portfolio(user);
    assert_eq!(portfolio.kale_balance, 0);
}

#[test]
fn test_multiple_users() {
    let (mut fund, _user) = setup_fund();
    let user1 = Address { id: 2 };
    let user2 = Address { id: 3 };
    fund.deposit(user1, 300_000_000_000);
    fund.deposit(user2, 800_000_000_000);
    assert!(fund.set_risk(user1, 1).is_ok());
    assert!(fund.set_risk(user2, 3).is_ok());
    let portfolio1 = fund.get_portfolio(user1);
    let portfolio2 = fund.get_portfolio(user2);
    assert_eq!(portfolio1.kale_balance, 300_000_000_000);
    assert_eq!(portfolio1.risk_level, 1);
    assert_eq!(portfolio2.kale_balance, 800_000_000_000);
    assert_eq!(portfolio2.risk_level, 3);
    fund.withdraw(user1);
    let portfolio1_after = fund.get_portfolio(user1);
    let portfolio2_after = fund.get_portfolio(user2);
    assert_eq!(portfolio1_after.kale_balance, 0);
    assert_eq!(portfolio2_after.kale_balance, 800_000_000_000);
}
