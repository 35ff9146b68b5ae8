//! Price resolution behaviour: oracle paths, validation, the cache TTL,
//! the circuit breaker's opening and cooldown, the fallback table, the
//! bounded history and the trailing average.

use kalepensionfund::Address;
use kalepensionfund::KalePensionFund;
use kalepensionfund::MockOracleContract;
use kalepensionfund::PriceData;
use kalepensionfund::Symbol;

fn make_mock(kale: i128, btc: i128, usdc: i128) -> MockOracleContract {
    let mut mock = MockOracleContract::new();
    mock.set_price(Symbol::new(b"KALE".to_vec()), kale);
    mock.set_price(Symbol::new(b"BTC".to_vec()), btc);
    mock.set_price(Symbol::new(b"USDC".to_vec()), usdc);
    mock
}

fn setup_fund() -> KalePensionFund {
    let mut fund = KalePensionFund::new();
    fund.initialize(
        Address { id: 99 },
        Address { id: 10 },
        Address { id: 11 },
        Address { id: 12 },
        Address { id: 13 },
        Address { id: 14 },
    );
    fund.set_mock_oracle(make_mock(120_000_000, 111_235_000_000_000, 1_000_000_000));
    fund
}

fn kale_usd() -> Symbol {
    Symbol::new(b"KALE_USD".to_vec())
}

fn btc_usd() -> Symbol {
    Symbol::new(b"BTC_USD".to_vec())
}

#[test]
fn test_get_price() {
    let mut fund = setup_fund();
    let kale_price = fund.get_price(&kale_usd(), 0, None);
    assert_eq!(kale_price, 120_000_000);
    let btc_price = fund.get_price(&btc_usd(), 0, None);
    assert_eq!(btc_price, 111_235_000_000_000);
}

#[test]
fn test_get_price_unsupported_pair() {
    let mut fund = setup_fund();
    let price = fund.get_price(&Symbol::new(b"ETH_USD".to_vec()), 0, None);
    assert_eq!(price, 1_000_000_000);
}

#[test]
fn test_get_price_without_any_source() {
    let mut fund = KalePensionFund::new();
    let price = fund.get_price(&kale_usd(), 0, None);
    assert_eq!(price, 120_000_000);
    let price = fund.get_price(&Symbol::new(b"ETH_USD".to_vec()), 0, None);
    assert_eq!(price, 1_000_000_000);
}

#[test]
fn test_fallback_prices_per_pair() {
    let mut fund = KalePensionFund::new();
    assert_eq!(fund.get_price(&Symbol::new(b"KALE_USDC".to_vec()), 0, None), 120_000_000);
    assert_eq!(
        fund.get_price(&Symbol::new(b"BTC_USDC".to_vec()), 0, None),
        111_235_000_000_000
    );
    assert_eq!(fund.get_price(&Symbol::new(b"USDC_USD".to_vec()), 0, None), 1_000_000_000);
}

#[test]
fn test_reflector_price_accepted() {
    let mut fund = setup_fund();
    let quote = PriceData { price: 500_000_000, timestamp: 9_900 };
    let price = fund.get_price(&kale_usd(), 10_000, Some(quote));
    assert_eq!(price, 500_000_000);
}

#[test]
fn test_reflector_stale_quote_rejected() {
    let mut fund = setup_fund();
    // An hour-old quotation is rejected; the mock oracle answers instead.
    let quote = PriceData { price: 500_000_000, timestamp: 1 };
    let price = fund.get_price(&kale_usd(), 10_000, Some(quote));
    assert_eq!(price, 120_000_000);
}

#[test]
fn test_reflector_nonpositive_quote_rejected() {
    let mut fund = setup_fund();
    let quote = PriceData { price: 0, timestamp: 9_900 };
    let price = fund.get_price(&kale_usd(), 10_000, Some(quote));
    assert_eq!(price, 120_000_000);
}

#[test]
fn test_cache_hit_within_ttl() {
    let mut fund = setup_fund();
    let first = fund.get_price(&kale_usd(), 100, None);
    assert_eq!(first, 120_000_000);
    // A new oracle price appears, but the cache entry is still fresh.
    fund.set_mock_oracle(make_mock(200_000_000, 111_235_000_000_000, 1_000_000_000));
    assert!(fund.oracle_query(&kale_usd(), 350).is_none());
    let second = fund.get_price(&kale_usd(), 350, None);
    assert_eq!(second, 120_000_000);
    // Past the TTL the oracle is consulted again.
    let third = fund.get_price(&kale_usd(), 500, None);
    assert_eq!(third, 200_000_000);
}

#[test]
fn test_breaker_opens_after_three_failures() {
    let mut fund = setup_fund();
    // One success seeds the cache and the last-success timestamp.
    assert_eq!(fund.get_price(&kale_usd(), 100, None), 120_000_000);
    // A non-positive mock price makes every later attempt fail.
    fund.set_mock_oracle(make_mock(-1, 111_235_000_000_000, 1_000_000_000));
    assert_eq!(fund.get_price(&kale_usd(), 500, None), 120_000_000);
    assert_eq!(fund.get_price(&kale_usd(), 900, None), 120_000_000);
    assert_eq!(fund.get_price(&kale_usd(), 1300, None), 120_000_000);
    // Three consecutive failures: the breaker is open, and before the
    // cooldown elapses the oracle must not be consulted; the stale cache
    // still answers.
    assert!(fund.oracle_query(&kale_usd(), 1700).is_none());
    assert_eq!(fund.get_price(&kale_usd(), 1700, None), 120_000_000);
}

#[test]
fn test_breaker_cooldown_probes_again() {
    let mut fund = setup_fund();
    assert_eq!(fund.get_price(&kale_usd(), 100, None), 120_000_000);
    fund.set_mock_oracle(make_mock(-1, 111_235_000_000_000, 1_000_000_000));
    fund.get_price(&kale_usd(), 500, None);
    fund.get_price(&kale_usd(), 900, None);
    fund.get_price(&kale_usd(), 1300, None);
    // Before the cooldown (last success at 100): no attempt.
    assert!(fund.oracle_query(&kale_usd(), 1700).is_none());
    // After the cooldown the next call probes the oracle again.
    assert!(fund.oracle_query(&kale_usd(), 2000).is_some());
    // The probe fails once more; the stale cache still answers.
    assert_eq!(fund.get_price(&kale_usd(), 2000, None), 120_000_000);
    // A recovered oracle is picked up on the next miss.
    fund.set_mock_oracle(make_mock(150_000_000, 111_235_000_000_000, 1_000_000_000));
    assert_eq!(fund.get_price(&kale_usd(), 2400, None), 150_000_000);
}

#[test]
fn test_history_prunes_seven_day_window() {
    let mut fund = setup_fund();
    assert_eq!(fund.get_price(&kale_usd(), 1_000, None), 120_000_000);
    fund.set_mock_oracle(make_mock(200_000_000, 111_235_000_000_000, 1_000_000_000));
    // More than seven days later: the old point must be evicted, so the
    // average equals the newest price alone.
    assert_eq!(fund.get_price(&kale_usd(), 700_000, None), 200_000_000);
    assert_eq!(fund.get_7day_average_price(&kale_usd(), 700_000, None), 200_000_000);
}

#[test]
fn test_average_of_recorded_prices() {
    let mut fund = setup_fund();
    fund.set_mock_oracle(make_mock(80_000_000, 111_235_000_000_000, 1_000_000_000));
    fund.get_price(&kale_usd(), 1_000, None);
    fund.set_mock_oracle(make_mock(100_000_000, 111_235_000_000_000, 1_000_000_000));
    fund.get_price(&kale_usd(), 2_000, None);
    fund.set_mock_oracle(make_mock(120_000_000, 111_235_000_000_000, 1_000_000_000));
    fund.get_price(&kale_usd(), 3_000, None);
    assert_eq!(fund.get_7day_average_price(&kale_usd(), 3_000, None), 100_000_000);
}

#[test]
fn test_average_without_history_resolves() {
    let mut fund = setup_fund();
    assert_eq!(fund.get_7day_average_price(&kale_usd(), 0, None), 120_000_000);
}

#[test]
fn test_demo_price_guess() {
    let mut fund = setup_fund();
    let result = fund.demo_price_guess(&btc_usd(), true, 0, None);
    assert_eq!(result, true);
    let result = fund.demo_price_guess(&btc_usd(), false, 0, None);
    assert_eq!(result, false);
}

#[test]
fn test_mock_oracle_lastprice() {
    let mock = make_mock(120_000_000, 111_235_000_000_000, 1_000_000_000);
    let asset = kalepensionfund::Asset::Other(Symbol::new(b"BTC".to_vec()));
    let quote = mock.lastprice(&asset, 0).unwrap();
    assert_eq!(quote.price, 111_235_000_000_000);
    assert_eq!(quote.timestamp, 1000);
    let quote = mock.lastprice(&asset, 777).unwrap();
    assert_eq!(quote.timestamp, 777);
    let missing = kalepensionfund::Asset::Other(Symbol::new(b"ETH".to_vec()));
    assert!(mock.lastprice(&missing, 777).is_none());
    let stellar = kalepensionfund::Asset::Stellar(Address { id: 10 });
    assert_eq!(mock.lastprice(&stellar, 777).unwrap().price, 120_000_000);
}
