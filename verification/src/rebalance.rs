//! The rebalancing engine: measure the volatile token's drift against its
//! trailing average, translate the value delta into at most two trade legs,
//! and mutate the portfolio from each leg's outcome — using the exchange's
//! reported amount on success and the price-implied estimate on failure, so
//! a rebalance never aborts partway because the exchange failed.

use vstd::prelude::*;

use crate::fund::KalePensionFund;
use crate::model::DRIFT_THRESHOLD_PERCENT;
use crate::model::SLIPPAGE_KEEP_PERCENT;
use crate::model::SWAP_DEADLINE_SECS;
use crate::model::StateModel;
use crate::model::USDC_UNIT_PRICE;
use crate::model::clock_ok;
use crate::model::fits_i128;
use crate::model::model_wf;
use crate::model::portfolio_wf;
use crate::pairs::btc_usd_symbol;
use crate::pairs::btc_usd_text;
use crate::pairs::kale_usd_symbol;
use crate::pairs::kale_usd_text;
use crate::model::CACHE_TTL_SECS;
use crate::resolver::average_fits;
use crate::resolver::average_step;
use crate::resolver::average_value;
use crate::resolver::cache_fresh;
use crate::resolver::lemma_resolve_wf;
use crate::resolver::lemma_resolved_price_pos;
use crate::resolver::resolve_step;
use crate::resolver::resolved_price;
use crate::types::Address;
use crate::types::Error;
use crate::types::Portfolio;
use crate::types::PriceData;
use vstd::arithmetic::div_mod::lemma_div_is_ordered;
use vstd::arithmetic::div_mod::lemma_div_multiples_vanish;
use vstd::arithmetic::div_mod::lemma_div_nonincreasing;
use vstd::arithmetic::div_mod::lemma_div_pos_is_pos;
use vstd::arithmetic::mul::lemma_mul_is_commutative;
use vstd::arithmetic::mul::lemma_mul_nonnegative;

verus! {

/// The three assets a portfolio holds.
#[derive(Clone, Copy, PartialEq, Eq, Structural, Debug)]
pub enum AssetKind {
    Kale,
    Usdc,
    Btc,
}

/// One trade to submit to the exchange: sell `amount_in` of `asset_in` for
/// `asset_out`, quoting `expected_out`, tolerating five percent slippage,
/// valid until `deadline`.
#[derive(Clone, Copy, PartialEq, Eq, Structural, Debug)]
pub struct TradeLeg {
    pub asset_in: AssetKind,
    pub asset_out: AssetKind,
    pub amount_in: i128,
    pub expected_out: i128,
    pub min_out: i128,
    pub deadline: u64,
}

/// The at most two trade legs one rebalance submits, in order.
#[derive(Clone, Copy, PartialEq, Eq, Debug)]
pub struct RebalancePlan {
    pub first: Option<TradeLeg>,
    pub second: Option<TradeLeg>,
}

/// What the exchange did with a submitted leg: the amounts along the route
/// (the received amount is the second), or failure.
#[derive(Clone, Debug)]
pub enum SwapOutcome {
    Completed(Vec<i128>),
    Failed,
}

/// A portfolio's balance of one asset.
pub open spec fn balance_of(p: Portfolio, kind: AssetKind) -> int {
    match kind {
        AssetKind::Kale => p.kale_balance as int,
        AssetKind::Usdc => p.usdc_balance as int,
        AssetKind::Btc => p.btc_balance as int,
    }
}

/// Target allocation percentages (stable, reserve, volatile) per risk
/// level; meaningful only for levels 1 to 3.
pub open spec fn allocation_targets(risk: u32) -> (int, int, int) {
    if risk == 1 {
        (70int, 20int, 10int)
    } else if risk == 2 {
        (50int, 30int, 20int)
    } else {
        (30int, 40int, 30int)
    }
}

/// Percentage deviation of the current price from the trailing average,
/// with integer division truncating toward zero (as the ledger computes
/// it); meaningful only for a positive average.
pub open spec fn drift_percent(cur: int, avg: int) -> int {
    if cur >= avg {
        ((cur - avg) * 100) / avg
    } else {
        -(((avg - cur) * 100) / avg)
    }
}

/// What a leg credits to the portfolio: the exchange's reported received
/// amount on success (nothing if the route reported fewer than two
/// amounts), the quoted estimate on failure.
pub open spec fn received_or_estimate(leg: TradeLeg, outcome: SwapOutcome) -> int {
    match outcome {
        SwapOutcome::Completed(amounts) => if amounts@.len() >= 2 {
            amounts@[1] as int
        } else {
            0
        },
        SwapOutcome::Failed => leg.expected_out as int,
    }
}

/// An exchange outcome the model accepts: a reported received amount is
/// never negative.
pub open spec fn outcome_ok(outcome: SwapOutcome) -> bool {
    match outcome {
        SwapOutcome::Completed(amounts) => amounts@.len() < 2 || amounts@[1] >= 0,
        SwapOutcome::Failed => true,
    }
}

pub open spec fn asset_sub(p: Portfolio, kind: AssetKind, amount: int) -> Portfolio {
    match kind {
        AssetKind::Kale => Portfolio { kale_balance: (p.kale_balance - amount) as i128, ..p },
        AssetKind::Usdc => Portfolio { usdc_balance: (p.usdc_balance - amount) as i128, ..p },
        AssetKind::Btc => Portfolio { btc_balance: (p.btc_balance - amount) as i128, ..p },
    }
}

pub open spec fn asset_add(p: Portfolio, kind: AssetKind, amount: int) -> Portfolio {
    match kind {
        AssetKind::Kale => Portfolio { kale_balance: (p.kale_balance + amount) as i128, ..p },
        AssetKind::Usdc => Portfolio { usdc_balance: (p.usdc_balance + amount) as i128, ..p },
        AssetKind::Btc => Portfolio { btc_balance: (p.btc_balance + amount) as i128, ..p },
    }
}

/// One leg's bookkeeping: the spent amount always leaves, and what arrives
/// is the reported or estimated output.
pub open spec fn apply_leg(p: Portfolio, leg: TradeLeg, outcome: SwapOutcome) -> Portfolio {
    asset_add(
        asset_sub(p, leg.asset_in, leg.amount_in as int),
        leg.asset_out,
        received_or_estimate(leg, outcome),
    )
}

pub open spec fn first_applied(p: Portfolio, plan: RebalancePlan, oa: SwapOutcome) -> Portfolio {
    match plan.first {
        Some(l) => apply_leg(p, l, oa),
        None => p,
    }
}

/// Both legs' bookkeeping, in order.
pub open spec fn apply_plan(
    p: Portfolio,
    plan: RebalancePlan,
    oa: SwapOutcome,
    ob: SwapOutcome,
) -> Portfolio {
    let p1 = first_applied(p, plan, oa);
    match plan.second {
        Some(l) => apply_leg(p1, l, ob),
        None => p1,
    }
}

pub open spec fn make_leg(
    asset_in: AssetKind,
    asset_out: AssetKind,
    amount: int,
    expected: int,
    now: u64,
) -> TradeLeg {
    TradeLeg {
        asset_in,
        asset_out,
        amount_in: amount as i128,
        expected_out: expected as i128,
        min_out: ((expected * SLIPPAGE_KEEP_PERCENT) / 100) as i128,
        deadline: (now + SWAP_DEADLINE_SECS) as u64,
    }
}

pub open spec fn empty_plan() -> RebalancePlan {
    RebalancePlan { first: None, second: None }
}

pub open spec fn min_int(a: int, b: int) -> int {
    if a <= b {
        a
    } else {
        b
    }
}

/// The sell side: the excess (in volatile units) is split evenly, half
/// sold for the stable asset and the remainder for the reserve asset.
pub open spec fn sell_legs(excess: int, cur: int, btcp: int, now: u64) -> RebalancePlan {
    let kale_to_usdc = excess / 2;
    let kale_to_btc = excess - kale_to_usdc;
    RebalancePlan {
        first: if kale_to_usdc > 0 {
            Some(
                make_leg(
                    AssetKind::Kale,
                    AssetKind::Usdc,
                    kale_to_usdc,
                    (kale_to_usdc * cur) / (USDC_UNIT_PRICE as int),
                    now,
                ),
            )
        } else {
            None
        },
        second: if kale_to_btc > 0 {
            Some(
                make_leg(AssetKind::Kale, AssetKind::Btc, kale_to_btc, (kale_to_btc * cur) / btcp, now),
            )
        } else {
            None
        },
    }
}

/// The buy side: the value shortfall is funded half from each other asset,
/// capped so no leg overspends its existing balance.
pub open spec fn buy_legs(p: Portfolio, needed: int, cur: int, btcp: int, now: u64) -> RebalancePlan {
    let usdc_to_spend = min_int(p.usdc_balance as int, (needed / 2) / (USDC_UNIT_PRICE as int));
    let btc_to_spend = min_int(p.btc_balance as int, (needed / 2) / btcp);
    RebalancePlan {
        first: if usdc_to_spend > 0 {
            Some(
                make_leg(
                    AssetKind::Usdc,
                    AssetKind::Kale,
                    usdc_to_spend,
                    (usdc_to_spend * (USDC_UNIT_PRICE as int)) / cur,
                    now,
                ),
            )
        } else {
            None
        },
        second: if btc_to_spend > 0 {
            Some(
                make_leg(
                    AssetKind::Btc,
                    AssetKind::Kale,
                    btc_to_spend,
                    (btc_to_spend * btcp) / cur,
                    now,
                ),
            )
        } else {
            None
        },
    }
}

/// The router and the three token addresses a trade leg needs.
pub open spec fn full_config(m: StateModel) -> bool {
    m.soroswap_router is Some && m.kale_token is Some && m.usdc_token is Some && m.btc_token
        is Some
}

/// Everything a rebalance does up to (but not including) touching the
/// portfolio: the resolutions it performs and the plan (or fatal error) it
/// arrives at.
pub open spec fn plan_pieces(
    m: StateModel,
    user: Address,
    now: u64,
    evk: Option<PriceData>,
    evb: Option<PriceData>,
) -> (StateModel, Result<RebalancePlan, Error>) {
    if !m.portfolios.contains_key(user) {
        (m, Err(Error::PortfolioNotFound))
    } else {
        let p = m.portfolios[user];
        let cur = resolved_price(m, kale_usd_text(), now, evk) as int;
        let m1 = resolve_step(m, kale_usd_text(), now, evk);
        let avg = average_value(m1, kale_usd_text(), now, evk) as int;
        if avg <= 0 {
            // The division-by-zero guard: an empty average is treated as
            // zero drift (unreachable while the state invariant holds).
            (m1, Ok(empty_plan()))
        } else if p.risk_level < 1 || p.risk_level > 3 {
            (m1, Err(Error::InvalidRiskLevel))
        } else {
            let drift = drift_percent(cur, avg);
            if drift > DRIFT_THRESHOLD_PERCENT {
                let btcp = resolved_price(m1, btc_usd_text(), now, evb) as int;
                let m2 = resolve_step(m1, btc_usd_text(), now, evb);
                let total = p.kale_balance * cur + p.usdc_balance * (USDC_UNIT_PRICE as int)
                    + p.btc_balance * btcp;
                let target = (total * allocation_targets(p.risk_level).2) / 100;
                let cv = p.kale_balance * cur;
                if cv > target {
                    if full_config(m) {
                        (m2, Ok(sell_legs((cv - target) / cur, cur, btcp, now)))
                    } else {
                        (m2, Err(Error::NotInitialized))
                    }
                } else {
                    (m2, Ok(empty_plan()))
                }
            } else if drift < -DRIFT_THRESHOLD_PERCENT {
                let btcp = resolved_price(m1, btc_usd_text(), now, evb) as int;
                let m2 = resolve_step(m1, btc_usd_text(), now, evb);
                let total = p.kale_balance * cur + p.usdc_balance * (USDC_UNIT_PRICE as int)
                    + p.btc_balance * btcp;
                let target = (total * allocation_targets(p.risk_level).2) / 100;
                let cv = p.kale_balance * cur;
                if cv < target {
                    if full_config(m) {
                        (m2, Ok(buy_legs(p, target - cv, cur, btcp, now)))
                    } else {
                        (m2, Err(Error::NotInitialized))
                    }
                } else {
                    (m2, Ok(empty_plan()))
                }
            } else {
                (m1, Ok(empty_plan()))
            }
        }
    }
}

/// The full effect of one rebalance: the plan's resolutions, then the
/// portfolio mutated leg by leg and persisted (unchanged when no leg was
/// generated).
pub open spec fn rebalance_step(
    m: StateModel,
    user: Address,
    now: u64,
    evk: Option<PriceData>,
    evb: Option<PriceData>,
    oa: SwapOutcome,
    ob: SwapOutcome,
) -> (StateModel, Result<(), Error>) {
    let (ms, pr) = plan_pieces(m, user, now, evk, evb);
    match pr {
        Err(e) => (ms, Err(e)),
        Ok(plan) => (
            StateModel {
                portfolios: ms.portfolios.insert(
                    user,
                    apply_plan(m.portfolios[user], plan, oa, ob),
                ),
                ..ms
            },
            Ok(()),
        ),
    }
}

/// The machine-limit bounds a rebalance's arithmetic needs, spelled along
/// the same computation the operation performs.
pub open spec fn plan_fits(
    m: StateModel,
    user: Address,
    now: u64,
    evk: Option<PriceData>,
    evb: Option<PriceData>,
) -> bool {
    m.portfolios.contains_key(user) ==> {
        let p = m.portfolios[user];
        let cur = resolved_price(m, kale_usd_text(), now, evk) as int;
        let m1 = resolve_step(m, kale_usd_text(), now, evk);
        &&& average_fits(m1, kale_usd_text())
        &&& {
            let avg = average_value(m1, kale_usd_text(), now, evk) as int;
            avg <= 0 || {
                &&& fits_i128((cur - avg) * 100)
                &&& fits_i128((avg - cur) * 100)
                &&& (1 <= p.risk_level <= 3 ==> {
                    let drift = drift_percent(cur, avg);
                    (drift > DRIFT_THRESHOLD_PERCENT || drift < -DRIFT_THRESHOLD_PERCENT)
                        ==> branch_fits(m1, p, cur, now, evb, drift)
                })
            }
        }
    }
}

/// The bounds of one trading branch (the drift exceeded the band).
pub open spec fn branch_fits(
    m1: StateModel,
    p: Portfolio,
    cur: int,
    now: u64,
    evb: Option<PriceData>,
    drift: int,
) -> bool {
    let btcp = resolved_price(m1, btc_usd_text(), now, evb) as int;
    &&& fits_i128(p.kale_balance * cur)
    &&& fits_i128(p.usdc_balance * (USDC_UNIT_PRICE as int))
    &&& fits_i128(p.btc_balance * btcp)
    &&& fits_i128(p.kale_balance * cur + p.usdc_balance * (USDC_UNIT_PRICE as int))
    &&& {
        let total = p.kale_balance * cur + p.usdc_balance * (USDC_UNIT_PRICE as int)
            + p.btc_balance * btcp;
        &&& fits_i128(total)
        &&& fits_i128(total * allocation_targets(p.risk_level).2)
        &&& now + SWAP_DEADLINE_SECS <= 18446744073709551615
        &&& {
            let target = (total * allocation_targets(p.risk_level).2) / 100;
            let cv = p.kale_balance * cur;
            if drift > DRIFT_THRESHOLD_PERCENT {
                cv <= target || sell_branch_fits((cv - target) / cur, cur, btcp)
            } else {
                cv >= target || buy_branch_fits(p, target - cv, cur, btcp)
            }
        }
    }
}

pub open spec fn sell_branch_fits(excess: int, cur: int, btcp: int) -> bool {
    let kale_to_usdc = excess / 2;
    let kale_to_btc = excess - kale_to_usdc;
    &&& fits_i128(kale_to_usdc * cur)
    &&& fits_i128(kale_to_btc * cur)
    &&& fits_i128(((kale_to_usdc * cur) / (USDC_UNIT_PRICE as int)) * SLIPPAGE_KEEP_PERCENT)
    &&& fits_i128(((kale_to_btc * cur) / btcp) * SLIPPAGE_KEEP_PERCENT)
}

pub open spec fn buy_branch_fits(p: Portfolio, needed: int, cur: int, btcp: int) -> bool {
    let usdc_to_spend = min_int(p.usdc_balance as int, (needed / 2) / (USDC_UNIT_PRICE as int));
    let btc_to_spend = min_int(p.btc_balance as int, (needed / 2) / btcp);
    &&& fits_i128(usdc_to_spend * (USDC_UNIT_PRICE as int))
    &&& fits_i128(btc_to_spend * btcp)
    &&& fits_i128(((usdc_to_spend * (USDC_UNIT_PRICE as int)) / cur) * SLIPPAGE_KEEP_PERCENT)
    &&& fits_i128(((btc_to_spend * btcp) / cur) * SLIPPAGE_KEEP_PERCENT)
}

/// What applying one leg to a portfolio needs: a spend within the balance,
/// a sane outcome, and a credited sum that fits.
pub open spec fn leg_pre(p: Portfolio, leg: TradeLeg, outcome: SwapOutcome) -> bool {
    &&& 0 <= leg.amount_in
    &&& balance_of(p, leg.asset_in) >= leg.amount_in
    &&& leg.expected_out >= 0
    &&& leg.asset_in != leg.asset_out
    &&& outcome_ok(outcome)
    &&& fits_i128(balance_of(p, leg.asset_out) + received_or_estimate(leg, outcome))
}

/// What applying a whole plan needs, leg by leg.
pub open spec fn apply_pre(
    p: Portfolio,
    plan: RebalancePlan,
    oa: SwapOutcome,
    ob: SwapOutcome,
) -> bool {
    &&& match plan.first {
        Some(l) => leg_pre(p, l, oa),
        None => true,
    }
    &&& match plan.second {
        Some(l) => leg_pre(first_applied(p, plan, oa), l, ob),
        None => true,
    }
}

/// The outcome-side bounds of one rebalance call: whatever plan the state
/// yields, the credited sums fit and the outcomes are sane.
pub open spec fn outcomes_fit(
    m: StateModel,
    user: Address,
    now: u64,
    evk: Option<PriceData>,
    evb: Option<PriceData>,
    oa: SwapOutcome,
    ob: SwapOutcome,
) -> bool {
    match plan_pieces(m, user, now, evk, evb).1 {
        Ok(plan) => {
            &&& outcome_ok(oa)
            &&& outcome_ok(ob)
            &&& match plan.first {
                Some(l) => fits_i128(
                    balance_of(m.portfolios[user], l.asset_out) + received_or_estimate(l, oa),
                ),
                None => true,
            }
            &&& match plan.second {
                Some(l) => fits_i128(
                    balance_of(first_applied(m.portfolios[user], plan, oa), l.asset_out)
                        + received_or_estimate(l, ob),
                ),
                None => true,
            }
        },
        Err(_) => true,
    }
}

/// How one leg moves each balance.
pub proof fn lemma_balance_after_leg(p: Portfolio, leg: TradeLeg, outcome: SwapOutcome, k: AssetKind)
    requires
        leg.asset_in != leg.asset_out,
    ensures
        balance_of(apply_leg(p, leg, outcome), k) == if k == leg.asset_out {
            ((balance_of(p, k) + received_or_estimate(leg, outcome)) as i128) as int
        } else if k == leg.asset_in {
            ((balance_of(p, k) - leg.amount_in) as i128) as int
        } else {
            balance_of(p, k)
        },
{
}

/// A plan the state itself yields never overspends: each leg's amount is
/// non-negative, quoted non-negatively, and within the balance left to it.
pub proof fn lemma_plan_within(
    m: StateModel,
    user: Address,
    now: u64,
    evk: Option<PriceData>,
    evb: Option<PriceData>,
)
    requires
        model_wf(m),
        clock_ok(m, now),
        m.portfolios.contains_key(user),
        plan_fits(m, user, now, evk, evb),
    ensures
        match plan_pieces(m, user, now, evk, evb).1 {
            Ok(plan) => {
                let p = m.portfolios[user];
                &&& match plan.first {
                    Some(l) => 0 <= l.amount_in <= balance_of(p, l.asset_in) && l.expected_out
                        >= 0 && l.asset_in != l.asset_out,
                    None => true,
                }
                &&& match plan.second {
                    Some(l) => {
                        &&& 0 <= l.amount_in
                        &&& l.expected_out >= 0
                        &&& l.asset_in != l.asset_out
                        &&& balance_of(p, l.asset_in) >= l.amount_in + (match plan.first {
                            Some(a) => if a.asset_in == l.asset_in {
                                a.amount_in as int
                            } else {
                                0
                            },
                            None => 0,
                        })
                        &&& match plan.first {
                            Some(a) => a.asset_out != l.asset_in,
                            None => true,
                        }
                    },
                    None => true,
                }
            },
            Err(_) => true,
        },
{
    let p = m.portfolios[user];
    let cur = resolved_price(m, kale_usd_text(), now, evk) as int;
    let m1 = resolve_step(m, kale_usd_text(), now, evk);
    let avg = average_value(m1, kale_usd_text(), now, evk) as int;
    lemma_resolved_price_pos(m, kale_usd_text(), now, evk);
    if avg > 0 && 1 <= p.risk_level <= 3 {
        let drift = drift_percent(cur, avg);
        if drift > DRIFT_THRESHOLD_PERCENT || drift < -DRIFT_THRESHOLD_PERCENT {
            lemma_resolve_wf(m, kale_usd_text(), now, evk);
            let btcp = resolved_price(m1, btc_usd_text(), now, evb) as int;
            lemma_resolved_price_pos(m1, btc_usd_text(), now, evb);
            let total = p.kale_balance * cur + p.usdc_balance * (USDC_UNIT_PRICE as int)
                + p.btc_balance * btcp;
            let target = (total * allocation_targets(p.risk_level).2) / 100;
            let cv = p.kale_balance * cur;
            lemma_mul_nonnegative(p.kale_balance as int, cur);
            lemma_mul_nonnegative(p.usdc_balance as int, USDC_UNIT_PRICE as int);
            lemma_mul_nonnegative(p.btc_balance as int, btcp);
            lemma_mul_nonnegative(total, allocation_targets(p.risk_level).2);
            lemma_div_pos_is_pos(total * allocation_targets(p.risk_level).2, 100);
            if drift > DRIFT_THRESHOLD_PERCENT && cv > target && full_config(m) {
                let excess = (cv - target) / cur;
                lemma_div_pos_is_pos(cv - target, cur);
                lemma_div_is_ordered(cv - target, cv, cur);
                lemma_div_multiples_vanish(p.kale_balance as int, cur);
                lemma_mul_is_commutative(cur, p.kale_balance as int);
                assert(excess <= p.kale_balance);
                let kale_to_usdc = excess / 2;
                let kale_to_btc = excess - kale_to_usdc;
                lemma_div_pos_is_pos(excess, 2);
                lemma_div_nonincreasing(excess, 2);
                if kale_to_usdc > 0 {
                    lemma_mul_nonnegative(kale_to_usdc, cur);
                    lemma_div_pos_is_pos(kale_to_usdc * cur, USDC_UNIT_PRICE as int);
                }
                if kale_to_btc > 0 {
                    lemma_mul_nonnegative(kale_to_btc, cur);
                    lemma_div_pos_is_pos(kale_to_btc * cur, btcp);
                }
            }
            if drift < -DRIFT_THRESHOLD_PERCENT && cv < target && full_config(m) {
                let needed = target - cv;
                let usdc_to_spend = min_int(
                    p.usdc_balance as int,
                    (needed / 2) / (USDC_UNIT_PRICE as int),
                );
                let btc_to_spend = min_int(p.btc_balance as int, (needed / 2) / btcp);
                lemma_div_pos_is_pos(needed, 2);
                lemma_div_pos_is_pos(needed / 2, USDC_UNIT_PRICE as int);
                lemma_div_pos_is_pos(needed / 2, btcp);
                if usdc_to_spend > 0 {
                    lemma_mul_nonnegative(usdc_to_spend, USDC_UNIT_PRICE as int);
                    lemma_div_pos_is_pos(usdc_to_spend * (USDC_UNIT_PRICE as int), cur);
                }
                if btc_to_spend > 0 {
                    lemma_mul_nonnegative(btc_to_spend, btcp);
                    lemma_div_pos_is_pos(btc_to_spend * btcp, cur);
                }
            }
        }
    }
}

/// The drift stayed inside the no-trade band (or the guard absorbed an
/// empty average), so a rebalance generates no trade leg.
pub open spec fn drift_within_band(
    m: StateModel,
    user: Address,
    now: u64,
    evk: Option<PriceData>,
) -> bool {
    let cur = resolved_price(m, kale_usd_text(), now, evk) as int;
    let m1 = resolve_step(m, kale_usd_text(), now, evk);
    let avg = average_value(m1, kale_usd_text(), now, evk) as int;
    avg <= 0 || (-DRIFT_THRESHOLD_PERCENT <= drift_percent(cur, avg)
        <= DRIFT_THRESHOLD_PERCENT)
}

/// One leg's bookkeeping, executably.
fn apply_leg_exec(p: Portfolio, leg: &TradeLeg, outcome: &SwapOutcome) -> (r: Portfolio)
    requires
        leg_pre(p, *leg, *outcome),
    ensures
        r == apply_leg(p, *leg, *outcome),
{
    let received: i128 = match outcome {
        SwapOutcome::Completed(amounts) => if amounts.len() >= 2 {
            amounts[1]
        } else {
            0
        },
        SwapOutcome::Failed => leg.expected_out,
    };
    let p1 = match leg.asset_in {
        AssetKind::Kale => Portfolio { kale_balance: p.kale_balance - leg.amount_in, ..p },
        AssetKind::Usdc => Portfolio { usdc_balance: p.usdc_balance - leg.amount_in, ..p },
        AssetKind::Btc => Portfolio { btc_balance: p.btc_balance - leg.amount_in, ..p },
    };
    match leg.asset_out {
        AssetKind::Kale => Portfolio { kale_balance: p1.kale_balance + received, ..p1 },
        AssetKind::Usdc => Portfolio { usdc_balance: p1.usdc_balance + received, ..p1 },
        AssetKind::Btc => Portfolio { btc_balance: p1.btc_balance + received, ..p1 },
    }
}

impl KalePensionFund {
    /// Resolve the prices a rebalance needs and translate the drift into
    /// trade legs. Mutates the shared resolution state (cache, history,
    /// breaker record) but never the portfolio; the host then submits each
    /// leg to the exchange and hands the outcomes to
    /// [`Self::rebalance_apply`].
    pub fn rebalance_plan(
        &mut self,
        user: Address,
        now: u64,
        reflector_kale: Option<PriceData>,
        reflector_btc: Option<PriceData>,
    ) -> (r: Result<RebalancePlan, Error>)
        requires
            old(self).wf(),
            clock_ok(old(self)@, now),
            plan_fits(old(self)@, user, now, reflector_kale, reflector_btc),
        ensures
            final(self).wf(),
            final(self)@ == plan_pieces(old(self)@, user, now, reflector_kale, reflector_btc).0,
            r == plan_pieces(old(self)@, user, now, reflector_kale, reflector_btc).1,
            clock_ok(final(self)@, now),
            final(self)@.portfolios == old(self)@.portfolios,
    {
        let ghost m0 = old(self)@;
        let p = match self.portfolios.get(user) {
            Some(p) => p,
            None => {
                return Err(Error::PortfolioNotFound);
            },
        };
        let kale_pair = kale_usd_symbol();
        let current_price = self.get_price(&kale_pair, now, reflector_kale);
        let ghost m1 = resolve_step(m0, kale_usd_text(), now, reflector_kale);
        proof {
            assert(cache_fresh(m1, kale_usd_text(), now, CACHE_TTL_SECS));
        }
        let avg_price = self.get_7day_average_price(&kale_pair, now, reflector_kale);
        proof {
            assert(average_step(m1, kale_usd_text(), now, reflector_kale) == m1);
            assert(self@ == m1);
        }
        if avg_price <= 0 {
            return Ok(RebalancePlan { first: None, second: None });
        }
        let kale_target: i128 = if p.risk_level == 1 {
            10
        } else if p.risk_level == 2 {
            20
        } else if p.risk_level == 3 {
            30
        } else {
            return Err(Error::InvalidRiskLevel);
        };
        proof {
            assert(kale_target == allocation_targets(p.risk_level).2);
            if current_price < avg_price {
                lemma_mul_nonnegative((avg_price - current_price) as int, 100);
                lemma_div_pos_is_pos((avg_price - current_price) * 100, avg_price as int);
            }
        }
        let drift: i128 = if current_price >= avg_price {
            ((current_price - avg_price) * 100) / avg_price
        } else {
            -(((avg_price - current_price) * 100) / avg_price)
        };
        proof {
            assert(drift == drift_percent(current_price as int, avg_price as int));
        }
        if drift > DRIFT_THRESHOLD_PERCENT {
            let btc_pair = btc_usd_symbol();
            let btc_price = self.get_price(&btc_pair, now, reflector_btc);
            let total_value = p.kale_balance * current_price + p.usdc_balance * USDC_UNIT_PRICE
                + p.btc_balance * btc_price;
            let target_kale_value = (total_value * kale_target) / 100;
            let current_kale_value = p.kale_balance * current_price;
            if current_kale_value > target_kale_value {
                if self.soroswap_router.is_some() && self.kale_token.is_some()
                    && self.usdc_token.is_some() && self.btc_token.is_some() {
                    proof {
                        lemma_mul_nonnegative(p.kale_balance as int, current_price as int);
                        lemma_mul_nonnegative(p.usdc_balance as int, USDC_UNIT_PRICE as int);
                        lemma_mul_nonnegative(p.btc_balance as int, btc_price as int);
                        lemma_mul_nonnegative(total_value as int, kale_target as int);
                        lemma_div_pos_is_pos(total_value * kale_target, 100);
                        lemma_div_pos_is_pos(
                            (current_kale_value - target_kale_value) as int,
                            current_price as int,
                        );
                    }
                    let excess_kale = (current_kale_value - target_kale_value) / current_price;
                    let kale_to_usdc = excess_kale / 2;
                    let kale_to_btc = excess_kale - kale_to_usdc;
                    proof {
                        lemma_div_pos_is_pos(excess_kale as int, 2);
                        lemma_div_nonincreasing(excess_kale as int, 2);
                    }
                    let deadline = now + SWAP_DEADLINE_SECS;
                    let first = if kale_to_usdc > 0 {
                        proof {
                            lemma_mul_nonnegative(kale_to_usdc as int, current_price as int);
                            lemma_div_pos_is_pos(
                                kale_to_usdc * current_price,
                                USDC_UNIT_PRICE as int,
                            );
                        }
                        let expected = kale_to_usdc * current_price / USDC_UNIT_PRICE;
                        Some(
                            TradeLeg {
                                asset_in: AssetKind::Kale,
                                asset_out: AssetKind::Usdc,
                                amount_in: kale_to_usdc,
                                expected_out: expected,
                                min_out: expected * SLIPPAGE_KEEP_PERCENT / 100,
                                deadline,
                            },
                        )
                    } else {
                        None
                    };
                    let second = if kale_to_btc > 0 {
                        proof {
                            lemma_mul_nonnegative(kale_to_btc as int, current_price as int);
                            lemma_div_pos_is_pos(kale_to_btc * current_price, btc_price as int);
                        }
                        let expected = kale_to_btc * current_price / btc_price;
                        Some(
                            TradeLeg {
                                asset_in: AssetKind::Kale,
                                asset_out: AssetKind::Btc,
                                amount_in: kale_to_btc,
                                expected_out: expected,
                                min_out: expected * SLIPPAGE_KEEP_PERCENT / 100,
                                deadline,
                            },
                        )
                    } else {
                        None
                    };
                    Ok(RebalancePlan { first, second })
                } else {
                    Err(Error::NotInitialized)
                }
            } else {
                Ok(RebalancePlan { first: None, second: None })
            }
        } else if drift < -DRIFT_THRESHOLD_PERCENT {
            let btc_pair = btc_usd_symbol();
            let btc_price = self.get_price(&btc_pair, now, reflector_btc);
            let total_value = p.kale_balance * current_price + p.usdc_balance * USDC_UNIT_PRICE
                + p.btc_balance * btc_price;
            let target_kale_value = (total_value * kale_target) / 100;
            let current_kale_value = p.kale_balance * current_price;
            if current_kale_value < target_kale_value {
                if self.soroswap_router.is_some() && self.kale_token.is_some()
                    && self.usdc_token.is_some() && self.btc_token.is_some() {
                    proof {
                        lemma_mul_nonnegative(p.kale_balance as int, current_price as int);
                        lemma_mul_nonnegative(p.usdc_balance as int, USDC_UNIT_PRICE as int);
                        lemma_mul_nonnegative(p.btc_balance as int, btc_price as int);
                        lemma_mul_nonnegative(total_value as int, kale_target as int);
                        lemma_div_pos_is_pos(total_value * kale_target, 100);
                        lemma_div_pos_is_pos(
                            (target_kale_value - current_kale_value) as int,
                            2,
                        );
                    }
                    let needed_kale_value = target_kale_value - current_kale_value;
                    proof {
                        lemma_div_pos_is_pos(needed_kale_value / 2, USDC_UNIT_PRICE as int);
                        lemma_div_pos_is_pos(needed_kale_value / 2, btc_price as int);
                    }
                    let usdc_quota = needed_kale_value / 2 / USDC_UNIT_PRICE;
                    let usdc_to_spend = if p.usdc_balance <= usdc_quota {
                        p.usdc_balance
                    } else {
                        usdc_quota
                    };
                    let btc_quota = needed_kale_value / 2 / btc_price;
                    let btc_to_spend = if p.btc_balance <= btc_quota {
                        p.btc_balance
                    } else {
                        btc_quota
                    };
                    let deadline = now + SWAP_DEADLINE_SECS;
                    let first = if usdc_to_spend > 0 {
                        proof {
                            lemma_mul_nonnegative(usdc_to_spend as int, USDC_UNIT_PRICE as int);
                            lemma_div_pos_is_pos(
                                usdc_to_spend * USDC_UNIT_PRICE,
                                current_price as int,
                            );
                        }
                        let expected = usdc_to_spend * USDC_UNIT_PRICE / current_price;
                        Some(
                            TradeLeg {
                                asset_in: AssetKind::Usdc,
                                asset_out: AssetKind::Kale,
                                amount_in: usdc_to_spend,
                                expected_out: expected,
                                min_out: expected * SLIPPAGE_KEEP_PERCENT / 100,
                                deadline,
                            },
                        )
                    } else {
                        None
                    };
                    let second = if btc_to_spend > 0 {
                        proof {
                            lemma_mul_nonnegative(btc_to_spend as int, btc_price as int);
                            lemma_div_pos_is_pos(btc_to_spend * btc_price, current_price as int);
                        }
                        let expected = btc_to_spend * btc_price / current_price;
                        Some(
                            TradeLeg {
                                asset_in: AssetKind::Btc,
                                asset_out: AssetKind::Kale,
                                amount_in: btc_to_spend,
                                expected_out: expected,
                                min_out: expected * SLIPPAGE_KEEP_PERCENT / 100,
                                deadline,
                            },
                        )
                    } else {
                        None
                    };
                    Ok(RebalancePlan { first, second })
                } else {
                    Err(Error::NotInitialized)
                }
            } else {
                Ok(RebalancePlan { first: None, second: None })
            }
        } else {
            Ok(RebalancePlan { first: None, second: None })
        }
    }

    /// Book the outcome of each submitted leg into the portfolio — the
    /// exchange's reported amount on success, the quoted estimate on
    /// failure — and persist it.
    pub fn rebalance_apply(
        &mut self,
        user: Address,
        plan: &RebalancePlan,
        outcome_first: SwapOutcome,
        outcome_second: SwapOutcome,
    )
        requires
            old(self).wf(),
            old(self)@.portfolios.contains_key(user),
            apply_pre(old(self)@.portfolios[user], *plan, outcome_first, outcome_second),
        ensures
            final(self).wf(),
            final(self)@ == (StateModel {
                portfolios: old(self)@.portfolios.insert(
                    user,
                    apply_plan(old(self)@.portfolios[user], *plan, outcome_first, outcome_second),
                ),
                ..old(self)@
            }),
    {
        let p0 = match self.portfolios.get(user) {
            Some(p) => p,
            None => {
                proof {
                    assert(false);
                }
                return ;
            },
        };
        let p1 = match plan.first {
            Some(leg) => apply_leg_exec(p0, &leg, &outcome_first),
            None => p0,
        };
        let p2 = match plan.second {
            Some(leg) => apply_leg_exec(p1, &leg, &outcome_second),
            None => p1,
        };
        self.portfolios.put(p2);
        proof {
            assert(p2 == apply_plan(p0, *plan, outcome_first, outcome_second));
            assert(self@ =~= (StateModel {
                portfolios: old(self)@.portfolios.insert(user, p2),
                ..old(self)@
            }));
            assert(portfolio_wf(user, p2));
            assert(model_wf(self@));
        }
    }

    /// One full rebalance: plan, then book the host-provided outcomes of
    /// the planned legs. `outcome_first` and `outcome_second` are read only
    /// for the legs the plan actually generated.
    pub fn rebalance(
        &mut self,
        user: Address,
        now: u64,
        reflector_kale: Option<PriceData>,
        reflector_btc: Option<PriceData>,
        outcome_first: SwapOutcome,
        outcome_second: SwapOutcome,
    ) -> (r: Result<(), Error>)
        requires
            old(self).wf(),
            clock_ok(old(self)@, now),
            plan_fits(old(self)@, user, now, reflector_kale, reflector_btc),
            outcomes_fit(
                old(self)@,
                user,
                now,
                reflector_kale,
                reflector_btc,
                outcome_first,
                outcome_second,
            ),
        ensures
            final(self).wf(),
            final(self)@ == rebalance_step(
                old(self)@,
                user,
                now,
                reflector_kale,
                reflector_btc,
                outcome_first,
                outcome_second,
            ).0,
            r == rebalance_step(
                old(self)@,
                user,
                now,
                reflector_kale,
                reflector_btc,
                outcome_first,
                outcome_second,
            ).1,
            clock_ok(final(self)@, now),
            old(self)@.portfolios.contains_key(user) && drift_within_band(
                old(self)@,
                user,
                now,
                reflector_kale,
            ) ==> final(self)@.portfolios == old(self)@.portfolios,
    {
        let ghost m0 = old(self)@;
        proof {
            if m0.portfolios.contains_key(user) {
                lemma_plan_within(m0, user, now, reflector_kale, reflector_btc);
            }
        }
        let plan = match self.rebalance_plan(user, now, reflector_kale, reflector_btc) {
            Ok(plan) => plan,
            Err(e) => {
                return Err(e);
            },
        };
        let ghost p = m0.portfolios[user];
        proof {
            match plan.first {
                Some(a) => {
                    assert(leg_pre(p, a, outcome_first));
                    match plan.second {
                        Some(b) => {
                            lemma_balance_after_leg(p, a, outcome_first, b.asset_in);
                            assert(leg_pre(first_applied(p, plan, outcome_first), b, outcome_second));
                        },
                        None => {},
                    }
                },
                None => {
                    match plan.second {
                        Some(b) => {
                            assert(leg_pre(p, b, outcome_second));
                        },
                        None => {},
                    }
                },
            }
            assert(apply_pre(p, plan, outcome_first, outcome_second));
        }
        self.rebalance_apply(user, &plan, outcome_first, outcome_second);
        proof {
            assert(self@ =~= rebalance_step(
                m0,
                user,
                now,
                reflector_kale,
                reflector_btc,
                outcome_first,
                outcome_second,
            ).0);
            if drift_within_band(m0, user, now, reflector_kale) {
                assert(plan == empty_plan());
                assert(self@.portfolios =~= m0.portfolios);
            }
        }
        Ok(())
    }
}

} // verus!
