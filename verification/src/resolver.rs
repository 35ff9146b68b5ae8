//! The resilient price resolver: cache first, then the upstream oracle
//! behind a failure-counting circuit breaker (with the registered mock
//! oracle as a secondary data source), then a stale cache read, then a
//! static fallback table. Every resolution writes the cache and the bounded
//! price history back, so a price is produced on every call, whatever the
//! upstream does.

use vstd::prelude::*;

use crate::fund::KalePensionFund;
use crate::history::append_pruned;
use crate::history::lemma_append_keeps_window;
use crate::history::prune_front;
use crate::mock_oracle::mock_asset_sym;
use crate::mock_oracle::mock_lastprice;
use crate::model::BTC_FALLBACK_PRICE;
use crate::model::CACHE_TTL_SECS;
use crate::model::CIRCUIT_FAILURE_THRESHOLD;
use crate::model::CIRCUIT_RESET_SECS;
use crate::model::HISTORY_WINDOW_SECS;
use crate::model::KALE_FALLBACK_PRICE;
use crate::model::NEUTRAL_FALLBACK_PRICE;
use crate::model::ORACLE_MAX_AGE_SECS;
use crate::model::STALE_CACHE_SECS;
use crate::model::StateModel;
use crate::model::age_since;
use crate::model::clock_ok;
use crate::model::fits_i128;
use crate::model::health_wf;
use crate::model::lemma_sum_prices_at_least_len;
use crate::model::lemma_sum_prices_nonneg;
use crate::model::model_wf;
use crate::model::points_wf;
use crate::model::sub_sat;
use crate::model::sum_prices;
use crate::pairs::btc_symbol;
use crate::pairs::btc_text;
use crate::pairs::btc_usd_symbol;
use crate::pairs::btc_usd_text;
use crate::pairs::btc_usdc_symbol;
use crate::pairs::btc_usdc_text;
use crate::pairs::kale_text;
use crate::pairs::kale_usd_symbol;
use crate::pairs::kale_usd_text;
use crate::pairs::kale_usdc_symbol;
use crate::pairs::kale_usdc_text;
use crate::pairs::usdc_symbol;
use crate::pairs::usdc_text;
use crate::pairs::usdc_usd_symbol;
use crate::pairs::usdc_usd_text;
use crate::types::Asset;
use crate::types::CachedPrice;
use crate::types::OracleHealth;
use crate::types::PriceData;
use crate::types::PricePoint;
use crate::types::PriceSource;
use crate::types::Symbol;
use crate::types::sym_eq;
use vstd::arithmetic::div_mod::lemma_div_by_self;
use vstd::arithmetic::div_mod::lemma_div_is_ordered;
use vstd::arithmetic::div_mod::lemma_div_nonincreasing;
use vstd::arithmetic::div_mod::lemma_div_pos_is_pos;

verus! {

/// The pair has a cache entry no older than `ttl` seconds.
pub open spec fn cache_fresh(m: StateModel, pair: Seq<u8>, now: u64, ttl: u64) -> bool {
    m.cache.contains_key(pair) && sub_sat(now, m.cache[pair].timestamp) <= ttl
}

/// The breaker record a resolution works with: the stored record (or a
/// closed default), force-closed when an open circuit has outlived the
/// cooldown — the next attempt itself is the probe.
pub open spec fn effective_health(m: StateModel, now: u64) -> OracleHealth {
    let h = match m.health {
        Some(h) => h,
        None => OracleHealth {
            consecutive_failures: 0,
            last_success_timestamp: now,
            is_circuit_open: false,
        },
    };
    if h.is_circuit_open && sub_sat(now, h.last_success_timestamp) > CIRCUIT_RESET_SECS {
        OracleHealth {
            consecutive_failures: 0,
            last_success_timestamp: h.last_success_timestamp,
            is_circuit_open: false,
        }
    } else {
        h
    }
}

/// Whether a resolution at `now` consults the upstream oracle at all: the
/// cache must miss and the (possibly cooled-down) circuit must be closed.
pub open spec fn oracle_consulted(m: StateModel, pair: Seq<u8>, now: u64) -> bool {
    !cache_fresh(m, pair, now, CACHE_TTL_SECS) && !effective_health(m, now).is_circuit_open
}

/// The oracle-side name of a pair's asset, when the pair is supported: the
/// volatile pair needs its configured token address, the others map to
/// plain symbols.
pub open spec fn asset_sym_for(m: StateModel, pair: Seq<u8>) -> Option<Seq<u8>> {
    if pair == kale_usd_text() {
        match m.kale_token {
            Some(_) => Some(kale_text()),
            None => None,
        }
    } else if pair == btc_usd_text() {
        Some(btc_text())
    } else if pair == usdc_usd_text() {
        Some(usdc_text())
    } else {
        None
    }
}

/// What the primary oracle attempt yields from the upstream answer `ev`: a
/// price only when the oracle is configured, the pair is supported, and the
/// answer is positive, has a positive timestamp, and is younger than an
/// hour.
pub open spec fn primary_value(
    m: StateModel,
    pair: Seq<u8>,
    now: u64,
    ev: Option<PriceData>,
) -> Option<i128> {
    if m.reflector_oracle is Some && asset_sym_for(m, pair) is Some {
        match ev {
            Some(pd) => if pd.price > 0 && pd.timestamp > 0 && sub_sat(now, pd.timestamp)
                < ORACLE_MAX_AGE_SECS {
                Some(pd.price)
            } else {
                None
            },
            None => None,
        }
    } else {
        None
    }
}

/// What the secondary (mock) oracle attempt yields: a positive recorded
/// price for a supported pair, when a mock oracle is registered.
pub open spec fn mock_value(m: StateModel, pair: Seq<u8>, now: u64) -> Option<i128> {
    match m.mock_prices {
        Some(table) => match asset_sym_for(m, pair) {
            Some(sym) => match mock_lastprice(table, sym, now) {
                Some(pd) => if pd.price > 0 {
                    Some(pd.price)
                } else {
                    None
                },
                None => None,
            },
            None => None,
        },
        None => None,
    }
}

/// The oracle attempt as a whole: the primary source, then the mock.
pub open spec fn oracle_value(m: StateModel, pair: Seq<u8>, now: u64, ev: Option<PriceData>) -> Option<
    i128,
> {
    match primary_value(m, pair, now, ev) {
        Some(p) => Some(p),
        None => mock_value(m, pair, now),
    }
}

/// The static fallback constant of a pair; unknown pairs get the neutral
/// 1:1 constant (the stable pair's own constant has the same value).
pub open spec fn fallback_price_of(pair: Seq<u8>) -> i128 {
    if pair == kale_usd_text() || pair == kale_usdc_text() {
        KALE_FALLBACK_PRICE
    } else if pair == btc_usd_text() || pair == btc_usdc_text() {
        BTC_FALLBACK_PRICE
    } else {
        NEUTRAL_FALLBACK_PRICE
    }
}

/// Where a resolution lands when no oracle price was obtained: a stale
/// cache entry within an hour, else the fallback table.
pub open spec fn stale_or_fallback(m: StateModel, pair: Seq<u8>, now: u64) -> (i128, PriceSource) {
    if cache_fresh(m, pair, now, STALE_CACHE_SECS) {
        (m.cache[pair].price, PriceSource::Cache)
    } else {
        (fallback_price_of(pair), PriceSource::Fallback)
    }
}

/// The price a resolution returns.
pub open spec fn resolved_price(m: StateModel, pair: Seq<u8>, now: u64, ev: Option<PriceData>) -> i128 {
    if cache_fresh(m, pair, now, CACHE_TTL_SECS) {
        m.cache[pair].price
    } else if oracle_consulted(m, pair, now) && oracle_value(m, pair, now, ev) is Some {
        oracle_value(m, pair, now, ev)->Some_0
    } else {
        stale_or_fallback(m, pair, now).0
    }
}

/// The provenance a (non-cache-hit) resolution records.
pub open spec fn resolved_source(m: StateModel, pair: Seq<u8>, now: u64, ev: Option<PriceData>) -> PriceSource {
    if oracle_consulted(m, pair, now) && oracle_value(m, pair, now, ev) is Some {
        PriceSource::Oracle
    } else {
        stale_or_fallback(m, pair, now).1
    }
}

/// The breaker record after a resolution: untouched on a cache hit or a
/// skipped attempt; reset on success; failure-counted (opening at the
/// threshold) otherwise.
pub open spec fn health_after(m: StateModel, pair: Seq<u8>, now: u64, ev: Option<PriceData>) -> Option<
    OracleHealth,
> {
    if cache_fresh(m, pair, now, CACHE_TTL_SECS) {
        m.health
    } else {
        let h = effective_health(m, now);
        if h.is_circuit_open {
            m.health
        } else {
            match oracle_value(m, pair, now, ev) {
                Some(_) => Some(
                    OracleHealth {
                        consecutive_failures: 0,
                        last_success_timestamp: now,
                        is_circuit_open: false,
                    },
                ),
                None => Some(
                    OracleHealth {
                        consecutive_failures: (h.consecutive_failures + 1) as u32,
                        last_success_timestamp: h.last_success_timestamp,
                        is_circuit_open: h.consecutive_failures + 1 >= CIRCUIT_FAILURE_THRESHOLD,
                    },
                ),
            }
        }
    }
}

/// A pair's retained history, empty when none was recorded yet.
pub open spec fn hist_points(m: StateModel, pair: Seq<u8>) -> Seq<PricePoint> {
    if m.history.contains_key(pair) {
        m.history[pair]
    } else {
        Seq::empty()
    }
}

/// The full effect of one resolution on the state: a pure cache hit leaves
/// everything untouched; otherwise the resolved price overwrites the cache
/// entry, is appended to the pruned history, and the breaker record is
/// updated.
pub open spec fn resolve_step(m: StateModel, pair: Seq<u8>, now: u64, ev: Option<PriceData>) -> StateModel {
    if cache_fresh(m, pair, now, CACHE_TTL_SECS) {
        m
    } else {
        let price = resolved_price(m, pair, now, ev);
        let source = resolved_source(m, pair, now, ev);
        StateModel {
            cache: m.cache.insert(pair, CachedPrice { price, timestamp: now, source }),
            history: m.history.insert(
                pair,
                prune_front(
                    hist_points(m, pair).push(PricePoint { timestamp: now, price }),
                    sub_sat(now, HISTORY_WINDOW_SECS),
                ),
            ),
            health: health_after(m, pair, now, ev),
            ..m
        }
    }
}

/// Under the state invariant, every resolution yields a positive price.
pub proof fn lemma_resolved_price_pos(m: StateModel, pair: Seq<u8>, now: u64, ev: Option<PriceData>)
    requires
        model_wf(m),
    ensures
        resolved_price(m, pair, now, ev) >= 1,
{
}

/// One resolution step preserves the state invariant and never writes a
/// timestamp past `now`.
pub proof fn lemma_resolve_wf(m: StateModel, pair: Seq<u8>, now: u64, ev: Option<PriceData>)
    requires
        model_wf(m),
        clock_ok(m, now),
    ensures
        model_wf(resolve_step(m, pair, now, ev)),
        clock_ok(resolve_step(m, pair, now, ev), now),
{
    if !cache_fresh(m, pair, now, CACHE_TTL_SECS) {
        let price = resolved_price(m, pair, now, ev);
        lemma_resolved_price_pos(m, pair, now, ev);
        let point = PricePoint { timestamp: now, price };
        let old_pts = hist_points(m, pair);
        if m.history.contains_key(pair) && m.history[pair].len() > 0 {
            assert(m.history[pair].last().timestamp <= now);
        }
        lemma_append_keeps_window(old_pts, point);
        let m2 = resolve_step(m, pair, now, ev);
        assert forall|k: Seq<u8>| #[trigger] m2.cache.contains_key(k) implies m2.cache[k].price
            > 0 by {
            if k != pair {
                assert(m.cache.contains_key(k));
            }
        }
        assert forall|k: Seq<u8>| #[trigger] m2.history.contains_key(k) implies points_wf(
            m2.history[k],
        ) by {
            if k != pair {
                assert(m.history.contains_key(k));
            }
        }
        assert forall|k: Seq<u8>|
            #[trigger] m2.history.contains_key(k) && m2.history[k].len() > 0 implies m2.history[k].last().timestamp
            <= now by {
            if k != pair {
                assert(m.history.contains_key(k));
            }
        }
        let h = effective_health(m, now);
        if !h.is_circuit_open {
            match m.health {
                Some(h0) => {
                    assert(health_wf(h0));
                },
                None => {},
            }
            assert(h.consecutive_failures <= 2);
        }
    }
}

/// The static fallback constant of a pair.
pub fn fallback_price(pair: &Symbol) -> (p: i128)
    ensures
        p == fallback_price_of(pair@),
        p >= 1,
{
    if sym_eq(pair, &kale_usd_symbol()) || sym_eq(pair, &kale_usdc_symbol()) {
        KALE_FALLBACK_PRICE
    } else if sym_eq(pair, &btc_usd_symbol()) || sym_eq(pair, &btc_usdc_symbol()) {
        BTC_FALLBACK_PRICE
    } else if sym_eq(pair, &usdc_usd_symbol()) {
        NEUTRAL_FALLBACK_PRICE
    } else {
        NEUTRAL_FALLBACK_PRICE
    }
}

impl KalePensionFund {
    /// The oracle-side asset of a supported pair.
    fn symbol_to_reflector_asset(&self, pair: &Symbol) -> (r: Option<Asset>)
        ensures
            r is Some <==> asset_sym_for(self@, pair@) is Some,
            match r {
                Some(a) => asset_sym_for(self@, pair@) == Some(mock_asset_sym(a)),
                None => true,
            },
            match r {
                Some(a) => match a {
                    Asset::Stellar(ad) => pair@ == kale_usd_text() && self@.kale_token == Some(ad),
                    Asset::Other(s) => (pair@ == btc_usd_text() && s@ == btc_text()) || (pair@
                        == usdc_usd_text() && s@ == usdc_text()),
                },
                None => true,
            },
    {
        if sym_eq(pair, &kale_usd_symbol()) {
            match self.kale_token {
                Some(ad) => Some(Asset::Stellar(ad)),
                None => None,
            }
        } else if sym_eq(pair, &btc_usd_symbol()) {
            Some(Asset::Other(btc_symbol()))
        } else if sym_eq(pair, &usdc_usd_symbol()) {
            Some(Asset::Other(usdc_symbol()))
        } else {
            None
        }
    }

    /// The primary oracle attempt, validating the upstream answer.
    fn try_reflector_oracle(&self, pair: &Symbol, now: u64, ev: Option<PriceData>) -> (r: Option<
        i128,
    >)
        ensures
            r == primary_value(self@, pair@, now, ev),
    {
        if self.reflector_oracle.is_none() {
            return None;
        }
        if self.symbol_to_reflector_asset(pair).is_none() {
            return None;
        }
        match ev {
            Some(pd) => {
                if pd.price > 0 && pd.timestamp > 0 && age_since(now, pd.timestamp)
                    < ORACLE_MAX_AGE_SECS {
                    Some(pd.price)
                } else {
                    None
                }
            },
            None => None,
        }
    }

    /// The secondary attempt against the registered mock oracle.
    fn try_mock_oracle(&self, pair: &Symbol, now: u64) -> (r: Option<i128>)
        requires
            self.wf(),
        ensures
            r == mock_value(self@, pair@, now),
    {
        match &self.mock_oracle {
            Some(mock) => {
                match self.symbol_to_reflector_asset(pair) {
                    Some(asset) => {
                        match mock.lastprice(&asset, now) {
                            Some(pd) => if pd.price > 0 {
                                Some(pd.price)
                            } else {
                                None
                            },
                            None => None,
                        }
                    },
                    None => None,
                }
            },
            None => None,
        }
    }

    /// One oracle attempt: the primary source first, then the mock.
    fn try_fetch_oracle_price(&self, pair: &Symbol, now: u64, ev: Option<PriceData>) -> (r: Option<
        i128,
    >)
        requires
            self.wf(),
        ensures
            r == oracle_value(self@, pair@, now, ev),
    {
        match self.try_reflector_oracle(pair, now, ev) {
            Some(p) => Some(p),
            None => self.try_mock_oracle(pair, now),
        }
    }

    /// The asset the host should query the upstream oracle for before
    /// calling [`Self::get_price`], or `None` when the resolution will not
    /// consult the oracle (fresh cache, open breaker, or unsupported pair).
    pub fn oracle_query(&self, pair: &Symbol, now: u64) -> (r: Option<Asset>)
        requires
            self.wf(),
        ensures
            r is Some <==> (oracle_consulted(self@, pair@, now) && asset_sym_for(self@, pair@)
                is Some),
            match r {
                Some(a) => asset_sym_for(self@, pair@) == Some(mock_asset_sym(a)),
                None => true,
            },
            match r {
                Some(a) => match a {
                    Asset::Stellar(ad) => pair@ == kale_usd_text() && self@.kale_token == Some(ad),
                    Asset::Other(s) => (pair@ == btc_usd_text() && s@ == btc_text()) || (pair@
                        == usdc_usd_text() && s@ == usdc_text()),
                },
                None => true,
            },
    {
        match self.cache.get(pair) {
            Some(c) => {
                if age_since(now, c.timestamp) <= CACHE_TTL_SECS {
                    return None;
                }
            },
            None => {},
        }
        let h0 = match self.health {
            Some(h) => h,
            None => OracleHealth {
                consecutive_failures: 0,
                last_success_timestamp: now,
                is_circuit_open: false,
            },
        };
        let h_eff = if h0.is_circuit_open && age_since(now, h0.last_success_timestamp)
            > CIRCUIT_RESET_SECS {
            OracleHealth {
                consecutive_failures: 0,
                last_success_timestamp: h0.last_success_timestamp,
                is_circuit_open: false,
            }
        } else {
            h0
        };
        if h_eff.is_circuit_open {
            return None;
        }
        self.symbol_to_reflector_asset(pair)
    }

    /// Resolve the pair's price at `now`. `reflector` is what the upstream
    /// oracle answered if the host consulted it (see [`Self::oracle_query`]);
    /// it is ignored whenever the resolution does not consult the oracle.
    /// Always produces a price and, except on a pure cache hit, writes the
    /// cache and history back and updates the breaker record.
    pub fn get_price(&mut self, pair: &Symbol, now: u64, reflector: Option<PriceData>) -> (price:
        i128)
        requires
            old(self).wf(),
            clock_ok(old(self)@, now),
        ensures
            final(self).wf(),
            final(self)@ == resolve_step(old(self)@, pair@, now, reflector),
            price == resolved_price(old(self)@, pair@, now, reflector),
            price >= 1,
            clock_ok(final(self)@, now),
    {
        let ghost m0 = old(self)@;
        // 1. A fresh cache entry answers outright; nothing is mutated.
        match self.cache.get(pair) {
            Some(c) => {
                if age_since(now, c.timestamp) <= CACHE_TTL_SECS {
                    return c.price;
                }
            },
            None => {},
        }
        // 2. The breaker record, force-closed after the cooldown.
        let h0 = match self.health {
            Some(h) => h,
            None => OracleHealth {
                consecutive_failures: 0,
                last_success_timestamp: now,
                is_circuit_open: false,
            },
        };
        let h_eff = if h0.is_circuit_open && age_since(now, h0.last_success_timestamp)
            > CIRCUIT_RESET_SECS {
            OracleHealth {
                consecutive_failures: 0,
                last_success_timestamp: h0.last_success_timestamp,
                is_circuit_open: false,
            }
        } else {
            h0
        };
        proof {
            assert(h_eff == effective_health(m0, now));
        }
        // 3. The oracle attempt, when the circuit permits one.
        let mut oracle_price: Option<i128> = None;
        if !h_eff.is_circuit_open {
            oracle_price = self.try_fetch_oracle_price(pair, now, reflector);
            let h_new = match oracle_price {
                Some(_) => OracleHealth {
                    consecutive_failures: 0,
                    last_success_timestamp: now,
                    is_circuit_open: false,
                },
                None => {
                    let cf = h_eff.consecutive_failures + 1;
                    OracleHealth {
                        consecutive_failures: cf,
                        last_success_timestamp: h_eff.last_success_timestamp,
                        is_circuit_open: cf >= CIRCUIT_FAILURE_THRESHOLD,
                    }
                },
            };
            self.health = Some(h_new);
        }
        // 4. Fall back to a stale cache entry, then to the fixed table.
        let resolved: (i128, PriceSource) = match oracle_price {
            Some(p) => (p, PriceSource::Oracle),
            None => {
                match self.cache.get(pair) {
                    Some(c) => {
                        if age_since(now, c.timestamp) <= STALE_CACHE_SECS {
                            (c.price, PriceSource::Cache)
                        } else {
                            (fallback_price(pair), PriceSource::Fallback)
                        }
                    },
                    None => (fallback_price(pair), PriceSource::Fallback),
                }
            },
        };
        proof {
            assert(resolved.0 == resolved_price(m0, pair@, now, reflector));
            assert(resolved.1 == resolved_source(m0, pair@, now, reflector));
        }
        // 5. Overwrite the cache entry, whatever branch produced the value.
        let entry = CachedPrice { price: resolved.0, timestamp: now, source: resolved.1 };
        self.cache.put(pair.duplicate(), entry);
        // 6. Append to the pruned history.
        let cutoff = age_since(now, HISTORY_WINDOW_SECS);
        let point = PricePoint { timestamp: now, price: resolved.0 };
        let ghost old_pts = hist_points(m0, pair@);
        let new_pts = match self.history.get(pair) {
            Some(pts) => append_pruned(pts, point, cutoff),
            None => {
                let mut v: Vec<PricePoint> = Vec::new();
                v.push(point);
                proof {
                    assert(old_pts.push(point).drop_first() =~= Seq::<PricePoint>::empty());
                    assert(v@ =~= prune_front(old_pts.push(point), cutoff));
                }
                v
            },
        };
        proof {
            if m0.history.contains_key(pair@) && m0.history[pair@].len() > 0 {
                assert(m0.history[pair@].last().timestamp <= now);
            }
            lemma_append_keeps_window(old_pts, point);
        }
        self.history.put(pair.duplicate(), new_pts);
        proof {
            assert(self@.history =~= resolve_step(m0, pair@, now, reflector).history);
            assert(self@ =~= resolve_step(m0, pair@, now, reflector));
            assert(points_wf(new_pts@));
            assert(model_wf(self@));
        }
        resolved.0
    }

    /// The trailing mean of the pair's retained history, truncating toward
    /// zero; with no history yet, the current price is resolved instead
    /// (which also seeds the history).
    pub fn get_7day_average_price(&mut self, pair: &Symbol, now: u64, reflector: Option<PriceData>) -> (price: i128)
        requires
            old(self).wf(),
            clock_ok(old(self)@, now),
            average_fits(old(self)@, pair@),
        ensures
            final(self).wf(),
            final(self)@ == average_step(old(self)@, pair@, now, reflector),
            price == average_value(old(self)@, pair@, now, reflector),
            price >= 1,
            clock_ok(final(self)@, now),
    {
        let ghost m0 = old(self)@;
        let count: usize = match self.history.get(pair) {
            Some(pts) => pts.len(),
            None => 0,
        };
        if count == 0 {
            return self.get_price(pair, now, reflector);
        }
        match self.history.get(pair) {
            Some(pts) => {
                let ghost s = pts@;
                let mut total: i128 = 0;
                let mut i: usize = 0;
                proof {
                    assert(s.skip(0) =~= s);
                }
                while i < pts.len()
                    invariant
                        i <= pts@.len(),
                        pts@ == s,
                        s == hist_points(m0, pair@),
                        model_wf(m0),
                        m0.history.contains_key(pair@),
                        fits_i128(sum_prices(s)),
                        total == sum_prices(s) - sum_prices(s.skip(i as int)),
                    decreases pts@.len() - i,
                {
                    proof {
                        assert(points_wf(s));
                        assert(s.skip(i as int)[0] == s[i as int]);
                        assert(s.skip(i as int).drop_first() =~= s.skip(i + 1));
                        assert(forall|j: int|
                            0 <= j < s.skip(i + 1).len() ==> #[trigger] s.skip(i + 1)[j].price
                                >= 0);
                        lemma_sum_prices_nonneg(s.skip(i + 1));
                        assert(forall|j: int|
                            0 <= j < s.skip(i as int).len() ==> #[trigger] s.skip(
                                i as int,
                            )[j].price >= 0);
                        lemma_sum_prices_nonneg(s.skip(i as int));
                    }
                    total = total + pts[i].price;
                    i = i + 1;
                }
                proof {
                    assert(s.skip(s.len() as int) =~= Seq::<PricePoint>::empty());
                    assert(total == sum_prices(s));
                    assert(forall|j: int| 0 <= j < s.len() ==> #[trigger] s[j].price >= 1);
                    lemma_sum_prices_at_least_len(s);
                    lemma_div_is_ordered(s.len() as int, sum_prices(s), s.len() as int);
                    lemma_div_by_self(s.len() as int);
                    lemma_div_nonincreasing(sum_prices(s), s.len() as int);
                }
                let avg = total / (pts.len() as i128);
                avg
            },
            None => {
                proof {
                    assert(false);
                }
                0
            },
        }
    }

    /// A toy guess game over the resolver: resolve the pair's price, project
    /// it one percent higher, and check the caller's guess against the
    /// projection.
    pub fn demo_price_guess(&mut self, pair: &Symbol, will_rise: bool, now: u64, reflector: Option<
        PriceData,
    >) -> (r: bool)
        requires
            old(self).wf(),
            clock_ok(old(self)@, now),
            fits_i128(
                resolved_price(old(self)@, pair@, now, reflector) + resolved_price(
                    old(self)@,
                    pair@,
                    now,
                    reflector,
                ) / 100,
            ),
        ensures
            final(self).wf(),
            final(self)@ == resolve_step(old(self)@, pair@, now, reflector),
            r == (will_rise == (resolved_price(old(self)@, pair@, now, reflector) / 100 > 0)),
            clock_ok(final(self)@, now),
    {
        let current_price = self.get_price(pair, now, reflector);
        proof {
            lemma_div_pos_is_pos(current_price as int, 100);
            lemma_div_nonincreasing(current_price as int, 100);
        }
        let simulated_future_price = current_price + current_price / 100;
        let price_went_up = simulated_future_price > current_price;
        will_rise == price_went_up
    }
}

/// Nothing in the sum precondition beyond what the machine forces: the
/// retained prices must add up within the 128-bit range for the mean to be
/// computable.
pub open spec fn average_fits(m: StateModel, pair: Seq<u8>) -> bool {
    hist_points(m, pair).len() > 0 ==> fits_i128(sum_prices(hist_points(m, pair)))
}

/// The state after asking for the trailing mean: untouched when history
/// exists, else the effect of resolving the current price.
pub open spec fn average_step(m: StateModel, pair: Seq<u8>, now: u64, ev: Option<PriceData>) -> StateModel {
    if hist_points(m, pair).len() == 0 {
        resolve_step(m, pair, now, ev)
    } else {
        m
    }
}

/// The trailing mean itself: the truncated mean of the retained points, or
/// the freshly resolved price when no history exists.
pub open spec fn average_value(m: StateModel, pair: Seq<u8>, now: u64, ev: Option<PriceData>) -> i128 {
    let pts = hist_points(m, pair);
    if pts.len() == 0 {
        resolved_price(m, pair, now, ev)
    } else {
        (sum_prices(pts) / pts.len() as int) as i128
    }
}

} // verus!
