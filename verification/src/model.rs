//! The mathematical model of the treasury state, the invariants every
//! operation preserves, and the tuning constants of the resolution and
//! rebalancing rules.

use vstd::prelude::*;

use crate::types::Address;
use crate::types::CachedPrice;
use crate::types::OracleHealth;
use crate::types::Portfolio;
use crate::types::PricePoint;

verus! {

/// Age below which a cache entry answers a resolution outright.
pub const CACHE_TTL_SECS: u64 = 300;

/// Age below which a cache entry still serves as a stale fallback.
pub const STALE_CACHE_SECS: u64 = 3600;

/// An oracle quotation at least this old is rejected as stale.
pub const ORACLE_MAX_AGE_SECS: u64 = 3600;

/// Consecutive failures at which the circuit breaker opens.
pub const CIRCUIT_FAILURE_THRESHOLD: u32 = 3;

/// Cooldown after which an open breaker lets the next attempt probe again.
pub const CIRCUIT_RESET_SECS: u64 = 1800;

/// Price history retention window: seven days.
pub const HISTORY_WINDOW_SECS: u64 = 604800;

/// The stable asset is valued at this constant (7-decimal fixed point).
pub const USDC_UNIT_PRICE: i128 = 1_000_000_000;

/// Static fallback for the volatile token's pairs.
pub const KALE_FALLBACK_PRICE: i128 = 120_000_000;

/// Static fallback for the reserve asset's pairs.
pub const BTC_FALLBACK_PRICE: i128 = 111_235_000_000_000;

/// Neutral 1:1 fallback for every other pair.
pub const NEUTRAL_FALLBACK_PRICE: i128 = 1_000_000_000;

/// Drift (in percent) beyond which a rebalance trades.
pub const DRIFT_THRESHOLD_PERCENT: i128 = 10;

/// A swap tolerates keeping no less than this share of the quoted output.
pub const SLIPPAGE_KEEP_PERCENT: i128 = 95;

/// Seconds a submitted swap stays valid.
pub const SWAP_DEADLINE_SECS: u64 = 300;

/// Timestamp the mock oracle reports when the ledger clock still reads zero.
pub const MOCK_FALLBACK_TIMESTAMP: u64 = 1000;

/// The whole treasury state as specifications see it: configured addresses,
/// the mock oracle's price list (if one is registered), the portfolios, the
/// per-pair price cache and history, and the breaker record.
#[verifier::ext_equal]
pub ghost struct StateModel {
    pub kale_token: Option<Address>,
    pub usdc_token: Option<Address>,
    pub btc_token: Option<Address>,
    pub reflector_oracle: Option<Address>,
    pub soroswap_router: Option<Address>,
    pub mock_prices: Option<Map<Seq<u8>, i128>>,
    pub portfolios: Map<Address, Portfolio>,
    pub cache: Map<Seq<u8>, CachedPrice>,
    pub history: Map<Seq<u8>, Seq<PricePoint>>,
    pub health: Option<OracleHealth>,
}

/// The state of a freshly deployed treasury.
pub open spec fn empty_model() -> StateModel {
    StateModel {
        kale_token: None,
        usdc_token: None,
        btc_token: None,
        reflector_oracle: None,
        soroswap_router: None,
        mock_prices: None,
        portfolios: Map::empty(),
        cache: Map::empty(),
        history: Map::empty(),
        health: None,
    }
}

/// `now - then`, floored at zero, as the ledger-age computations use it.
pub open spec fn sub_sat(a: u64, b: u64) -> u64 {
    if a >= b {
        (a - b) as u64
    } else {
        0u64
    }
}

/// Executable twin of [`sub_sat`].
pub fn age_since(now: u64, then: u64) -> (r: u64)
    ensures
        r == sub_sat(now, then),
{
    if now >= then {
        now - then
    } else {
        0
    }
}

/// Whether a mathematical integer fits the 128-bit signed range.
pub open spec fn fits_i128(x: int) -> bool {
    -170141183460469231731687303715884105728 <= x
        <= 170141183460469231731687303715884105727
}

/// A pair's retained history: positive prices, timestamps ascending, and no
/// point older than the retention window counted from the newest point.
pub open spec fn points_wf(s: Seq<PricePoint>) -> bool {
    &&& forall|i: int| 0 <= i < s.len() ==> #[trigger] s[i].price > 0
    &&& forall|i: int, j: int| 0 <= i <= j < s.len() ==> #[trigger] s[i].timestamp
        <= #[trigger] s[j].timestamp
    &&& forall|i: int| 0 <= i < s.len() ==> #[trigger] s[i].timestamp >= sub_sat(
        s.last().timestamp,
        HISTORY_WINDOW_SECS,
    )
}

/// The breaker record's invariant: the failure counter never passes the
/// threshold, and the circuit is open exactly at the threshold.
pub open spec fn health_wf(h: OracleHealth) -> bool {
    &&& h.consecutive_failures <= CIRCUIT_FAILURE_THRESHOLD
    &&& h.is_circuit_open <==> h.consecutive_failures == CIRCUIT_FAILURE_THRESHOLD
}

/// A stored portfolio: owned by its key, non-negative balances, and a risk
/// level inside {1, 2, 3}.
pub open spec fn portfolio_wf(u: Address, p: Portfolio) -> bool {
    &&& p.user == u
    &&& p.kale_balance >= 0
    &&& p.usdc_balance >= 0
    &&& p.btc_balance >= 0
    &&& 1 <= p.risk_level <= 3
}

/// The state invariant that every operation preserves.
pub open spec fn model_wf(m: StateModel) -> bool {
    &&& forall|k: Seq<u8>| #[trigger] m.cache.contains_key(k) ==> m.cache[k].price > 0
    &&& forall|k: Seq<u8>| #[trigger] m.history.contains_key(k) ==> points_wf(m.history[k])
    &&& forall|u: Address| #[trigger] m.portfolios.contains_key(u) ==> portfolio_wf(
        u,
        m.portfolios[u],
    )
    &&& match m.health {
        Some(h) => health_wf(h),
        None => true,
    }
}

/// The ledger clock never runs behind the stored history: the timestamps
/// already recorded are at or before `now`.
pub open spec fn clock_ok(m: StateModel, now: u64) -> bool {
    forall|k: Seq<u8>| #[trigger] m.history.contains_key(k) && m.history[k].len() > 0
        ==> m.history[k].last().timestamp <= now
}

/// Sum of the prices of a history's points.
pub open spec fn sum_prices(s: Seq<PricePoint>) -> int
    decreases s.len(),
{
    if s.len() == 0 {
        0
    } else {
        s[0].price + sum_prices(s.drop_first())
    }
}

/// A sum of non-negative prices is non-negative.
pub proof fn lemma_sum_prices_nonneg(s: Seq<PricePoint>)
    requires
        forall|i: int| 0 <= i < s.len() ==> #[trigger] s[i].price >= 0,
    ensures
        sum_prices(s) >= 0,
    decreases s.len(),
{
    if s.len() > 0 {
        assert(forall|i: int|
            0 <= i < s.drop_first().len() ==> #[trigger] s.drop_first()[i].price >= 0);
        lemma_sum_prices_nonneg(s.drop_first());
    }
}

/// A sum of positive prices is at least the number of points.
pub proof fn lemma_sum_prices_at_least_len(s: Seq<PricePoint>)
    requires
        forall|i: int| 0 <= i < s.len() ==> #[trigger] s[i].price >= 1,
    ensures
        sum_prices(s) >= s.len(),
    decreases s.len(),
{
    if s.len() > 0 {
        assert(forall|i: int|
            0 <= i < s.drop_first().len() ==> #[trigger] s.drop_first()[i].price >= 1);
        lemma_sum_prices_at_least_len(s.drop_first());
    }
}

} // verus!
