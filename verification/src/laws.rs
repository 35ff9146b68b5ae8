//! The behavioural laws of the resolution chain, proved over the state
//! model: cache-hit idempotence, the circuit breaker's opening and skipping
//! rules, the self-healing cooldown, and the bounded history window.

use vstd::prelude::*;

use crate::model::CACHE_TTL_SECS;
use crate::model::CIRCUIT_FAILURE_THRESHOLD;
use crate::model::CIRCUIT_RESET_SECS;
use crate::model::HISTORY_WINDOW_SECS;
use crate::model::STALE_CACHE_SECS;
use crate::model::StateModel;
use crate::model::clock_ok;
use crate::model::model_wf;
use crate::model::sub_sat;
use crate::history::lemma_append_keeps_window;
use crate::resolver::cache_fresh;
use crate::resolver::effective_health;
use crate::resolver::hist_points;
use crate::resolver::lemma_resolve_wf;
use crate::resolver::lemma_resolved_price_pos;
use crate::resolver::oracle_consulted;
use crate::resolver::oracle_value;
use crate::resolver::resolve_step;
use crate::resolver::resolved_price;
use crate::resolver::stale_or_fallback;
use crate::types::OracleHealth;
use crate::types::PriceData;
use crate::types::PricePoint;
use crate::types::PriceSource;

verus! {

/// A resolution served from a fresh cache entry returns the cached price
/// and mutates nothing at all.
pub proof fn lemma_fresh_hit_resolves_nothing(
    m: StateModel,
    pair: Seq<u8>,
    now: u64,
    ev: Option<PriceData>,
)
    requires
        cache_fresh(m, pair, now, CACHE_TTL_SECS),
    ensures
        resolve_step(m, pair, now, ev) == m,
        resolved_price(m, pair, now, ev) == m.cache[pair].price,
{
}

/// Resolving a pair, then resolving it again within the cache TTL, yields
/// the identical price, and the second call is a pure cache hit: it leaves
/// the state — breaker, cache, history — exactly as the first call left it,
/// whatever the oracle would have answered.
pub proof fn lemma_resolve_twice_within_ttl(
    m: StateModel,
    pair: Seq<u8>,
    t1: u64,
    ev1: Option<PriceData>,
    t2: u64,
    ev2: Option<PriceData>,
)
    requires
        model_wf(m),
        !cache_fresh(m, pair, t1, CACHE_TTL_SECS),
        t1 <= t2 <= t1 + CACHE_TTL_SECS,
    ensures
        resolved_price(resolve_step(m, pair, t1, ev1), pair, t2, ev2) == resolved_price(
            m,
            pair,
            t1,
            ev1,
        ),
        resolve_step(resolve_step(m, pair, t1, ev1), pair, t2, ev2) == resolve_step(
            m,
            pair,
            t1,
            ev1,
        ),
{
    let s1 = resolve_step(m, pair, t1, ev1);
    assert(s1.cache.contains_key(pair));
    assert(s1.cache[pair].timestamp == t1);
    assert(sub_sat(t2, t1) <= CACHE_TTL_SECS);
    assert(cache_fresh(s1, pair, t2, CACHE_TTL_SECS));
}

/// A consulted-and-failed oracle attempt raises the consecutive-failure
/// counter by one, and the circuit opens exactly when the counter reaches
/// the threshold of three.
pub proof fn lemma_failure_counts(m: StateModel, pair: Seq<u8>, now: u64, ev: Option<PriceData>)
    requires
        model_wf(m),
        oracle_consulted(m, pair, now),
        oracle_value(m, pair, now, ev) is None,
    ensures
        resolve_step(m, pair, now, ev).health == Some(
            OracleHealth {
                consecutive_failures: (effective_health(m, now).consecutive_failures + 1) as u32,
                last_success_timestamp: effective_health(m, now).last_success_timestamp,
                is_circuit_open: effective_health(m, now).consecutive_failures + 1
                    >= CIRCUIT_FAILURE_THRESHOLD,
            },
        ),
{
}

/// Three consecutive failed attempts, starting from a breaker with no
/// recorded failures, leave the circuit open.
pub proof fn lemma_breaker_opens_after_three_failures(
    m: StateModel,
    pair: Seq<u8>,
    t1: u64,
    ev1: Option<PriceData>,
    t2: u64,
    ev2: Option<PriceData>,
    t3: u64,
    ev3: Option<PriceData>,
)
    requires
        model_wf(m),
        clock_ok(m, t1),
        t1 <= t2 <= t3,
        match m.health {
            Some(h) => h.consecutive_failures == 0 && !h.is_circuit_open,
            None => true,
        },
        oracle_consulted(m, pair, t1),
        oracle_value(m, pair, t1, ev1) is None,
        oracle_consulted(resolve_step(m, pair, t1, ev1), pair, t2),
        oracle_value(resolve_step(m, pair, t1, ev1), pair, t2, ev2) is None,
        oracle_consulted(
            resolve_step(resolve_step(m, pair, t1, ev1), pair, t2, ev2),
            pair,
            t3,
        ),
        oracle_value(
            resolve_step(resolve_step(m, pair, t1, ev1), pair, t2, ev2),
            pair,
            t3,
            ev3,
        ) is None,
    ensures
        resolve_step(
            resolve_step(resolve_step(m, pair, t1, ev1), pair, t2, ev2),
            pair,
            t3,
            ev3,
        ).health matches Some(h) && h.is_circuit_open && h.consecutive_failures
            == CIRCUIT_FAILURE_THRESHOLD,
{
    let s1 = resolve_step(m, pair, t1, ev1);
    let s2 = resolve_step(s1, pair, t2, ev2);
    lemma_failure_counts(m, pair, t1, ev1);
    lemma_resolve_wf(m, pair, t1, ev1);
    lemma_failure_counts(s1, pair, t2, ev2);
    lemma_resolve_wf(s1, pair, t2, ev2);
    lemma_failure_counts(s2, pair, t3, ev3);
}

/// While the circuit is open and the cooldown has not elapsed, a resolution
/// does not attempt the oracle: the upstream answer is irrelevant, the
/// breaker record is left untouched, and the price comes from the stale
/// cache or the fallback table.
pub proof fn lemma_open_breaker_skips_oracle(
    m: StateModel,
    pair: Seq<u8>,
    now: u64,
    ev: Option<PriceData>,
)
    requires
        m.health matches Some(h) && h.is_circuit_open && sub_sat(now, h.last_success_timestamp)
            <= CIRCUIT_RESET_SECS,
        !cache_fresh(m, pair, now, CACHE_TTL_SECS),
    ensures
        !oracle_consulted(m, pair, now),
        resolve_step(m, pair, now, ev).health == m.health,
        resolved_price(m, pair, now, ev) == stale_or_fallback(m, pair, now).0,
        resolve_step(m, pair, now, ev) == resolve_step(m, pair, now, None),
        cache_fresh(m, pair, now, STALE_CACHE_SECS) ==> resolve_step(
            m,
            pair,
            now,
            ev,
        ).cache[pair].source == PriceSource::Cache,
        !cache_fresh(m, pair, now, STALE_CACHE_SECS) ==> resolve_step(
            m,
            pair,
            now,
            ev,
        ).cache[pair].source == PriceSource::Fallback,
{
}

/// Once the cooldown since the last success has elapsed, the next
/// resolution (given a cache miss) attempts the oracle again, whatever
/// state the breaker is in.
pub proof fn lemma_cooldown_reopens_attempts(m: StateModel, pair: Seq<u8>, now: u64)
    requires
        match m.health {
            Some(h) => sub_sat(now, h.last_success_timestamp) > CIRCUIT_RESET_SECS,
            None => true,
        },
        !cache_fresh(m, pair, now, CACHE_TTL_SECS),
    ensures
        oracle_consulted(m, pair, now),
{
}

/// In every reachable state, no retained history point is older than the
/// retention window counted from the newest retained point.
pub proof fn lemma_history_window_bounded(m: StateModel, pair: Seq<u8>)
    requires
        model_wf(m),
        m.history.contains_key(pair),
    ensures
        forall|i: int| 0 <= i < m.history[pair].len() ==> #[trigger] m.history[pair][i].timestamp
            >= sub_sat(m.history[pair].last().timestamp, HISTORY_WINDOW_SECS),
{
}

/// A (non-cache-hit) resolution appends its price at `now` as the newest
/// history point, and everything retained lies within the window ending at
/// `now`.
pub proof fn lemma_resolve_appends_now(m: StateModel, pair: Seq<u8>, now: u64, ev: Option<PriceData>)
    requires
        model_wf(m),
        clock_ok(m, now),
        !cache_fresh(m, pair, now, CACHE_TTL_SECS),
    ensures
        resolve_step(m, pair, now, ev).history[pair].len() > 0,
        resolve_step(m, pair, now, ev).history[pair].last() == (PricePoint {
            timestamp: now,
            price: resolved_price(m, pair, now, ev),
        }),
        forall|i: int| 0 <= i < resolve_step(m, pair, now, ev).history[pair].len()
            ==> #[trigger] resolve_step(m, pair, now, ev).history[pair][i].timestamp >= sub_sat(
            now,
            HISTORY_WINDOW_SECS,
        ),
{
    lemma_resolved_price_pos(m, pair, now, ev);
    let point = PricePoint { timestamp: now, price: resolved_price(m, pair, now, ev) };
    if m.history.contains_key(pair) && m.history[pair].len() > 0 {
        assert(m.history[pair].last().timestamp <= now);
    }
    lemma_append_keeps_window(hist_points(m, pair), point);
}

} // verus!
