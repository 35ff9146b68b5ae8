//! Rebalancing behaviour: the no-trade band, the sell and buy branches
//! with exact leg arithmetic, exchange outcomes and estimates, and the
//! fatal conditions.

use kalepensionfund::Address;
use kalepensionfund::Error;
use kalepensionfund::KalePensionFund;
use kalepensionfund::MockOracleContract;
use kalepensionfund::Portfolio;
use kalepensionfund::SwapOutcome;
use kalepensionfund::Symbol;

fn make_mock(kale: i128, btc: i128, usdc: i128) -> MockOracleContract {
    let mut mock = MockOracleContract::new();
    mock.set_price(Symbol::new(b"KALE".to_vec()), kale);
    mock.set_price(Symbol::new(b"BTC".to_vec()), btc);
    mock.set_price(Symbol::new(b"USDC".to_vec()), usdc);
    mock
}

fn setup_fund() -> (KalePensionFund, Address) {
    let mut fund = KalePensionFund::new();
    fund.initialize(
        Address { id: 99 },
        Address { id: 10 },
        Address { id: 11 },
        Address { id: 12 },
        Address { id: 13 },
        Address { id: 14 },
    );
    fund.set_mock_oracle(make_mock(120_000_000, 111_235_000_000_000, 1_000_000_000));
    (fund, Address { id: 1 })
}

fn kale_usd() -> Symbol {
    Symbol::new(b"KALE_USD".to_vec())
}

/// Record two earlier prices so the trailing average at the rebalance is
/// exactly the mean of `p1`, `p2` and the rebalance-time price.
fn seed_history(fund: &mut KalePensionFund, p1: i128, p2: i128) {
    fund.set_mock_oracle(make_mock(p1, 111_235_000_000_000, 1_000_000_000));
    fund.get_price(&kale_usd(), 1_000, None);
    fund.set_mock_oracle(make_mock(p2, 111_235_000_000_000, 1_000_000_000));
    fund.get_price(&kale_usd(), 2_000, None);
}

#[test]
fn test_rebalance_no_change_needed() {
    let (mut fund, user) = setup_fund();
    fund.deposit(user, 500_000_000_000);
    let initial_portfolio = fund.get_portfolio(user);
    let r = fund.rebalance(user, 0, None, None, SwapOutcome::Failed, SwapOutcome::Failed);
    assert!(r.is_ok());
    let final_portfolio = fund.get_portfolio(user);
    assert_eq!(initial_portfolio.kale_balance, final_portfolio.kale_balance);
    assert_eq!(initial_portfolio.usdc_balance, final_portfolio.usdc_balance);
    assert_eq!(initial_portfolio.btc_balance, final_portfolio.btc_balance);
}

#[test]
fn test_rebalance_without_portfolio() {
    let (mut fund, user) = setup_fund();
    let r = fund.rebalance(user, 0, None, None, SwapOutcome::Failed, SwapOutcome::Failed);
    assert_eq!(r, Err(Error::PortfolioNotFound));
}

#[test]
fn test_rebalance_sell_branch_estimates() {
    let (mut fund, user) = setup_fund();
    fund.deposit(user, 500_000_000_000);
    // Average works out to 0.10 while the current price is 0.12: a drift
    // of +20 percent triggers the sell branch.
    seed_history(&mut fund, 80_000_000, 100_000_000);
    fund.set_mock_oracle(make_mock(120_000_000, 111_235_000_000_000, 1_000_000_000));
    let r = fund.rebalance(user, 3_000, None, None, SwapOutcome::Failed, SwapOutcome::Failed);
    assert!(r.is_ok());
    let p = fund.get_portfolio(user);
    // Excess over the 10 percent target: 450 KALE units, half sold into
    // each other asset at the quoted estimates.
    assert_eq!(p.kale_balance, 50_000_000_000);
    assert_eq!(p.usdc_balance, 27_000_000_000);
    assert_eq!(p.btc_balance, 242_729);
    assert!(p.kale_balance < 500_000_000_000);
    assert!(p.usdc_balance > 0);
    assert!(p.btc_balance > 0);
}

#[test]
fn test_rebalance_sell_branch_reported_amounts() {
    let (mut fund, user) = setup_fund();
    fund.deposit(user, 500_000_000_000);
    seed_history(&mut fund, 80_000_000, 100_000_000);
    fund.set_mock_oracle(make_mock(120_000_000, 111_235_000_000_000, 1_000_000_000));
    let r = fund.rebalance(
        user,
        3_000,
        None,
        None,
        SwapOutcome::Completed(vec![225_000_000_000, 26_500_000_000]),
        SwapOutcome::Completed(vec![225_000_000_000, 240_000]),
    );
    assert!(r.is_ok());
    let p = fund.get_portfolio(user);
    assert_eq!(p.kale_balance, 50_000_000_000);
    assert_eq!(p.usdc_balance, 26_500_000_000);
    assert_eq!(p.btc_balance, 240_000);
}

#[test]
fn test_rebalance_short_route_credits_nothing() {
    let (mut fund, user) = setup_fund();
    fund.deposit(user, 500_000_000_000);
    seed_history(&mut fund, 80_000_000, 100_000_000);
    fund.set_mock_oracle(make_mock(120_000_000, 111_235_000_000_000, 1_000_000_000));
    // A completed swap whose route reports fewer than two amounts debits
    // the spent asset but credits nothing.
    let r = fund.rebalance(
        user,
        3_000,
        None,
        None,
        SwapOutcome::Completed(vec![225_000_000_000]),
        SwapOutcome::Failed,
    );
    assert!(r.is_ok());
    let p = fund.get_portfolio(user);
    assert_eq!(p.kale_balance, 50_000_000_000);
    assert_eq!(p.usdc_balance, 0);
    assert_eq!(p.btc_balance, 242_729);
}

#[test]
fn test_rebalance_buy_branch_estimates() {
    let (mut fund, _user) = setup_fund();
    let user = Address { id: 1 };
    fund.portfolios.entries.push(Portfolio {
        user,
        kale_balance: 100_000_000_000,
        usdc_balance: 50_000_000_000,
        btc_balance: 1_000_000,
        risk_level: 1,
    });
    // Average 0.10 against a current price of 0.08: a drift of -20
    // percent triggers the buy branch.
    seed_history(&mut fund, 100_000_000, 120_000_000);
    fund.set_mock_oracle(make_mock(80_000_000, 111_235_000_000_000, 1_000_000_000));
    let r = fund.rebalance(user, 3_000, None, None, SwapOutcome::Failed, SwapOutcome::Failed);
    assert!(r.is_ok());
    let p = fund.get_portfolio(user);
    assert_eq!(p.usdc_balance, 50_000_000_000 - 4_461_750_000);
    assert_eq!(p.btc_balance, 1_000_000 - 40_111);
    assert_eq!(p.kale_balance, 100_000_000_000 + 55_771_875_000 + 55_771_838_562);
}

#[test]
fn test_rebalance_plan_quotes_slippage_and_deadline() {
    let (mut fund, user) = setup_fund();
    fund.deposit(user, 500_000_000_000);
    seed_history(&mut fund, 80_000_000, 100_000_000);
    fund.set_mock_oracle(make_mock(120_000_000, 111_235_000_000_000, 1_000_000_000));
    let plan = fund.rebalance_plan(user, 3_000, None, None).unwrap();
    let first = plan.first.unwrap();
    assert_eq!(first.amount_in, 225_000_000_000);
    assert_eq!(first.expected_out, 27_000_000_000);
    assert_eq!(first.min_out, 27_000_000_000 * 95 / 100);
    assert_eq!(first.deadline, 3_300);
    let second = plan.second.unwrap();
    assert_eq!(second.amount_in, 225_000_000_000);
    assert_eq!(second.expected_out, 242_729);
    assert_eq!(second.min_out, 242_729 * 95 / 100);
    assert_eq!(second.deadline, 3_300);
}

#[test]
fn test_rebalance_not_initialized() {
    let mut fund = KalePensionFund::new();
    // Tokens wired, but no router: the trading branch must report the
    // missing configuration instead of trading.
    fund.kale_token = Some(Address { id: 10 });
    fund.usdc_token = Some(Address { id: 11 });
    fund.btc_token = Some(Address { id: 12 });
    fund.set_mock_oracle(make_mock(120_000_000, 111_235_000_000_000, 1_000_000_000));
    let user = Address { id: 1 };
    fund.deposit(user, 500_000_000_000);
    seed_history(&mut fund, 80_000_000, 100_000_000);
    fund.set_mock_oracle(make_mock(120_000_000, 111_235_000_000_000, 1_000_000_000));
    let r = fund.rebalance(user, 3_000, None, None, SwapOutcome::Failed, SwapOutcome::Failed);
    assert_eq!(r, Err(Error::NotInitialized));
    assert_eq!(fund.get_portfolio(user).kale_balance, 500_000_000_000);
}

#[test]
fn test_rebalance_invalid_stored_risk_level() {
    let (mut fund, _user) = setup_fund();
    let user = Address { id: 1 };
    fund.portfolios.entries.push(Portfolio {
        user,
        kale_balance: 500_000_000_000,
        usdc_balance: 0,
        btc_balance: 0,
        risk_level: 9,
    });
    let r = fund.rebalance(user, 0, None, None, SwapOutcome::Failed, SwapOutcome::Failed);
    assert_eq!(r, Err(Error::InvalidRiskLevel));
    assert_eq!(fund.get_portfolio(user).kale_balance, 500_000_000_000);
}

#[test]
fn test_complete_user_flow() {
    let (mut fund, user) = setup_fund();
    let portfolio = fund.get_portfolio(user);
    assert_eq!(portfolio.kale_balance, 0);
    fund.deposit(user, 500_000_000_000);
    let portfolio = fund.get_portfolio(user);
    assert_eq!(portfolio.kale_balance, 500_000_000_000);
    assert_eq!(portfolio.risk_level, 1);
    assert!(fund.set_risk(user, 3).is_ok());
    let portfolio = fund.get_portfolio(user);
    assert_eq!(portfolio.risk_level, 3);
    let r = fund.rebalance(user, 0, None, None, SwapOutcome::Failed, SwapOutcome::Failed);
    assert!(r.is_ok());
    fund.withdraw(user);
    let portfolio = fund.get_portfolio(user);
    assert_eq!(portfolio.kale_balance, 0);
}
