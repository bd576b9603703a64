//! Target-price arithmetic and threshold classification.
//!
//! Prices, rates and fractions are fixed-point numbers scaled by
//! [`PRICE_SCALE`]: the value `101667` stands for `10.1667` currency units,
//! and a rate of `2000` stands for the fraction `0.20`.

use vstd::prelude::*;
use vstd::arithmetic::div_mod::{lemma_fundamental_div_mod, lemma_div_is_ordered};
use vstd::arithmetic::mul::{lemma_mul_inequality, lemma_mul_upper_bound};
use crate::errors::TraderError;

verus! {

/// One currency unit equals this many fixed-point price units
/// (four decimal places).
pub const PRICE_SCALE: u64 = 10000;

/// Days per year in the annualized return formula.
pub const DAYS_PER_YEAR: u64 = 360;

/// `DAYS_PER_YEAR * PRICE_SCALE`, the denominator of the sell-target formula.
pub const RATE_DENOM: u64 = 360 * 10000;

/// Shortest holding period, in days, that a sell target is computed against.
pub const MIN_HOLDING_DAYS: i64 = 30;

/// Largest purchase price the checked entry points accept
/// (one billion currency units).
pub const MAX_BUY_PRICE: u64 = 10_000_000_000_000;

/// Largest annual return rate the checked entry points accept
/// (a hundredfold yearly return).
pub const MAX_ANNUAL_RETURN_RATE: i64 = 1_000_000;

/// Largest holding period, in days, the checked entry points accept.
pub const MAX_EVAL_DAYS: i64 = 1_000_000;

/// Tri-state outcome of comparing a live price against the two targets.
/// `Hold` says the price sits strictly between them.
#[derive(Clone, Copy, Debug, PartialEq, Eq, Structural)]
pub enum AlertSignal {
    Sell,
    Buy,
    Hold,
}

/// Holding periods shorter than [`MIN_HOLDING_DAYS`] are evaluated as if
/// they were that long.
pub open spec fn effective_days(days_held: int) -> int {
    if days_held < MIN_HOLDING_DAYS as int {
        MIN_HOLDING_DAYS as int
    } else {
        days_held
    }
}

/// The sell target in fixed-point price units:
/// `buy_price * (1 + annual_return_rate / 360 * effective_days)`,
/// rounded down to the nearest price unit.
pub open spec fn sell_target_value(buy_price: int, annual_return_rate: int, days_held: int) -> int {
    buy_price * (RATE_DENOM as int + annual_return_rate * effective_days(days_held))
        / (RATE_DENOM as int)
}

/// The buy-back target in fixed-point price units:
/// `sell_target * (1 - buy_step)`, rounded down to the nearest price unit.
/// `buy_step` is a fraction scaled by [`PRICE_SCALE`].
pub open spec fn buy_target_value(sell_target: int, buy_step: int) -> int {
    sell_target * (PRICE_SCALE as int - buy_step) / (PRICE_SCALE as int)
}

/// The threshold classification: sell at or above the sell target, else
/// buy at or below the buy target, else hold. The sell test comes first,
/// so it wins whenever the two targets are degenerate (out of order).
pub open spec fn classify_value(current: int, sell_target: int, buy_target: int) -> AlertSignal {
    if current >= sell_target {
        AlertSignal::Sell
    } else if current <= buy_target {
        AlertSignal::Buy
    } else {
        AlertSignal::Hold
    }
}

/// Pure price arithmetic over fixed-point values.
pub struct PriceCalculator;

impl PriceCalculator {
    /// Sell target of a position: total over every input whose result fits
    /// a fixed-point price.
    pub fn calculate_sell_target_price(buy_price: u64, annual_return_rate: u64, days_held: i64) -> (r: u64)
        requires
            sell_target_value(buy_price as int, annual_return_rate as int, days_held as int)
                <= u64::MAX,
        ensures
            r == sell_target_value(buy_price as int, annual_return_rate as int, days_held as int),
    {
        let eff: u64 = if days_held < MIN_HOLDING_DAYS {
            30
        } else {
            days_held as u64
        };
        proof {
            assert(eff as int == effective_days(days_held as int));
            lemma_mul_upper_bound(
                annual_return_rate as int,
                u64::MAX as int,
                eff as int,
                u64::MAX as int,
            );
        }
        let num: u128 = (RATE_DENOM as u128) + (annual_return_rate as u128) * (eff as u128);
        proof {
            let bp = buy_price as int;
            let n = num as int;
            lemma_fundamental_div_mod(bp * n, RATE_DENOM as int);
            lemma_mul_upper_bound(bp * n / (RATE_DENOM as int), u64::MAX as int, RATE_DENOM as int, RATE_DENOM as int);
        }
        let prod: u128 = (buy_price as u128) * num;
        let quot: u128 = prod / (RATE_DENOM as u128);
        quot as u64
    }

    /// Buy-back target below a sell target. The step may not exceed the
    /// whole scale, since a larger step would put the target below zero.
    pub fn calculate_buy_target_price(sell_target_price: u64, buy_step: u64) -> (r: u64)
        requires
            buy_step <= PRICE_SCALE,
        ensures
            r == buy_target_value(sell_target_price as int, buy_step as int),
    {
        let rem: u64 = PRICE_SCALE - buy_step;
        proof {
            let s = sell_target_price as int;
            lemma_mul_upper_bound(s, u64::MAX as int, rem as int, PRICE_SCALE as int);
            lemma_mul_inequality(rem as int, PRICE_SCALE as int, s);
            lemma_div_is_ordered(s * (rem as int), s * (PRICE_SCALE as int), PRICE_SCALE as int);
            vstd::arithmetic::div_mod::lemma_div_multiples_vanish(s, PRICE_SCALE as int);
        }
        let prod: u128 = (sell_target_price as u128) * (rem as u128);
        let quot: u128 = prod / (PRICE_SCALE as u128);
        quot as u64
    }

    /// Classify a live price against the two targets. Total: validation of
    /// the inputs belongs to [`PriceCalculator::check_price_target_checked`].
    pub fn check_price_target(current_price: u64, sell_target: u64, buy_target: u64) -> (r: AlertSignal)
        ensures
            r == classify_value(current_price as int, sell_target as int, buy_target as int),
    {
        if current_price >= sell_target {
            AlertSignal::Sell
        } else if current_price <= buy_target {
            AlertSignal::Buy
        } else {
            AlertSignal::Hold
        }
    }

    /// Caller-facing sell target: rejects a zero purchase price and a
    /// negative return rate, and otherwise computes the formula.
    pub fn calculate_sell_target_price_checked(
        buy_price: u64,
        annual_return_rate: i64,
        days_held: i64,
    ) -> (r: Result<u64, TraderError>)
        requires
            buy_price <= MAX_BUY_PRICE,
            annual_return_rate <= MAX_ANNUAL_RETURN_RATE,
            days_held <= MAX_EVAL_DAYS,
        ensures
            r is Ok <==> buy_price > 0 && annual_return_rate >= 0,
            r is Ok ==> r->Ok_0 == sell_target_value(
                buy_price as int,
                annual_return_rate as int,
                days_held as int,
            ),
            r is Err ==> r->Err_0 == TraderError::InvalidInput,
    {
        if buy_price == 0 || annual_return_rate < 0 {
            Err(TraderError::InvalidInput)
        } else {
            proof {
                lemma_sell_target_fits(
                    buy_price as int,
                    annual_return_rate as int,
                    days_held as int,
                );
            }
            Ok(Self::calculate_sell_target_price(buy_price, annual_return_rate as u64, days_held))
        }
    }

    /// Caller-facing buy-back target: rejects a step fraction outside
    /// `[0, 1)`, and otherwise computes the formula.
    pub fn calculate_buy_target_price_checked(
        sell_target_price: u64,
        buy_step: i64,
    ) -> (r: Result<u64, TraderError>)
        ensures
            r is Ok <==> 0 <= buy_step < PRICE_SCALE as i64,
            r is Ok ==> r->Ok_0 == buy_target_value(sell_target_price as int, buy_step as int),
            r is Err ==> r->Err_0 == TraderError::InvalidInput,
    {
        if buy_step < 0 || buy_step >= PRICE_SCALE as i64 {
            Err(TraderError::InvalidInput)
        } else {
            Ok(Self::calculate_buy_target_price(sell_target_price, buy_step as u64))
        }
    }

    /// Caller-facing classification: rejects any non-positive price or
    /// target, and otherwise classifies.
    pub fn check_price_target_checked(
        current_price: u64,
        sell_target: u64,
        buy_target: u64,
    ) -> (r: Result<AlertSignal, TraderError>)
        ensures
            r is Ok <==> current_price > 0 && sell_target > 0 && buy_target > 0,
            r is Ok ==> r->Ok_0 == classify_value(
                current_price as int,
                sell_target as int,
                buy_target as int,
            ),
            r is Err ==> r->Err_0 == TraderError::InvalidInput,
    {
        if current_price == 0 || sell_target == 0 || buy_target == 0 {
            Err(TraderError::InvalidInput)
        } else {
            Ok(Self::check_price_target(current_price, sell_target, buy_target))
        }
    }
}

/// Under the checked bounds the sell target always fits a fixed-point
/// price, so the bare formula never overflows there.
pub proof fn lemma_sell_target_fits(buy_price: int, annual_return_rate: int, days_held: int)
    requires
        0 <= buy_price <= MAX_BUY_PRICE,
        0 <= annual_return_rate <= MAX_ANNUAL_RETURN_RATE,
        days_held <= MAX_EVAL_DAYS,
    ensures
        0 <= sell_target_value(buy_price, annual_return_rate, days_held) <= u64::MAX,
{
    let eff = effective_days(days_held);
    let num = RATE_DENOM as int + annual_return_rate * eff;
    lemma_mul_upper_bound(
        annual_return_rate,
        MAX_ANNUAL_RETURN_RATE as int,
        eff,
        MAX_EVAL_DAYS as int,
    );
    vstd::arithmetic::mul::lemma_mul_nonnegative(annual_return_rate, eff);
    lemma_mul_upper_bound(
        buy_price,
        MAX_BUY_PRICE as int,
        num,
        RATE_DENOM as int + MAX_ANNUAL_RETURN_RATE as int * MAX_EVAL_DAYS as int,
    );
    vstd::arithmetic::mul::lemma_mul_nonnegative(buy_price, num);
    lemma_div_is_ordered(
        buy_price * num,
        MAX_BUY_PRICE as int * (RATE_DENOM as int + MAX_ANNUAL_RETURN_RATE as int * MAX_EVAL_DAYS as int),
        RATE_DENOM as int,
    );
    vstd::arithmetic::div_mod::lemma_div_pos_is_pos(buy_price * num, RATE_DENOM as int);
}

/// Law: the sell target of a holding of at most thirty days equals the
/// sell target at exactly thirty days.
pub proof fn lemma_sell_target_floor(buy_price: int, annual_return_rate: int, days_held: int)
    requires
        days_held <= 30,
    ensures
        sell_target_value(buy_price, annual_return_rate, days_held)
            == sell_target_value(buy_price, annual_return_rate, 30),
{
}

/// Law: for any step fraction in `[0, 1)` the buy-back target never
/// exceeds the sell target it is derived from.
pub proof fn lemma_buy_target_at_most_sell_target(sell_target: int, buy_step: int)
    requires
        0 <= sell_target,
        0 <= buy_step < PRICE_SCALE as int,
    ensures
        buy_target_value(sell_target, buy_step) <= sell_target,
{
    lemma_mul_inequality(PRICE_SCALE as int - buy_step, PRICE_SCALE as int, sell_target);
    lemma_div_is_ordered(
        sell_target * (PRICE_SCALE as int - buy_step),
        sell_target * (PRICE_SCALE as int),
        PRICE_SCALE as int,
    );
    vstd::arithmetic::div_mod::lemma_div_multiples_vanish(sell_target, PRICE_SCALE as int);
}

/// Law: classification is total and its three signals partition the price
/// line; a price at or above the sell target yields `Sell` whatever the
/// buy target is.
pub proof fn lemma_classify_partition(current: int, sell_target: int, buy_target: int)
    ensures
        classify_value(current, sell_target, buy_target) == AlertSignal::Sell
            <==> current >= sell_target,
        classify_value(current, sell_target, buy_target) == AlertSignal::Buy
            <==> (current < sell_target && current <= buy_target),
        classify_value(current, sell_target, buy_target) == AlertSignal::Hold
            <==> (current < sell_target && current > buy_target),
{
}

} // verus!
