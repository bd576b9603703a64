//! The portfolio scan: days held, per-position target evaluation, and the
//! alert events a scan raises.
//!
//! The scan is pure: the caller fetches each position's quote (or fails
//! to) and hands the outcomes in; no position's failure can touch any
//! other position.

use vstd::prelude::*;
use vstd::string::{StrSliceExecFns, StringExecFns};
use crate::api::{
    PriceCalculator, AlertSignal, sell_target_value, buy_target_value, classify_value,
    lemma_sell_target_fits, MAX_BUY_PRICE, MAX_ANNUAL_RETURN_RATE, MAX_EVAL_DAYS, PRICE_SCALE,
};
use crate::errors::TraderError;
use crate::models::{Trade, PriceCalculation, AlertEvent};
use crate::numtext::{price_str_2, format_price_2};

verus! {

/// Whole days between two instants, truncated toward zero; negative when
/// `later` comes before `earlier`.
pub open spec fn days_between(earlier: int, later: int) -> int {
    if later >= earlier {
        (later - earlier) / 86400
    } else {
        -((earlier - later) / 86400)
    }
}

/// Whole days a position bought at `buy_time` has been held at `now`.
pub fn days_held(buy_time: i64, now: i64) -> (r: i64)
    ensures
        r == days_between(buy_time as int, now as int),
{
    if now >= buy_time {
        let diff: i128 = (now as i128) - (buy_time as i128);
        (diff / 86400) as i64
    } else {
        let diff: i128 = (buy_time as i128) - (now as i128);
        -((diff / 86400) as i64)
    }
}

/// Index of the first trade carrying this id, or `-1` when none does.
pub open spec fn trade_index(trades: Seq<Trade>, id: i64) -> int
    decreases trades.len(),
{
    if trades.len() == 0 {
        -1
    } else if trades[0].id == Some(id) {
        0
    } else if trade_index(trades.drop_first(), id) == -1 {
        -1
    } else {
        1 + trade_index(trades.drop_first(), id)
    }
}

pub proof fn lemma_trade_index_props(trades: Seq<Trade>, id: i64)
    ensures
        trade_index(trades, id) == -1 ==> (forall|i: int|
            0 <= i < trades.len() ==> trades[i].id != Some(id)),
        trade_index(trades, id) != -1 ==> 0 <= trade_index(trades, id) < trades.len(),
        trade_index(trades, id) != -1 ==> trades[trade_index(trades, id)].id == Some(id),
    decreases trades.len(),
{
    if trades.len() > 0 && trades[0].id != Some(id) {
        lemma_trade_index_props(trades.drop_first(), id);
        let f = trade_index(trades.drop_first(), id);
        if f == -1 {
            assert forall|i: int| 0 <= i < trades.len() implies trades[i].id != Some(id) by {
                if i > 0 {
                    assert(trades.drop_first()[i - 1].id != Some(id));
                    assert(trades.drop_first()[i - 1] == trades[i]);
                }
            }
        } else {
            assert(trades[1 + f] == trades.drop_first()[f]);
        }
    }
}

/// `trade_index` names the first index carrying the id.
pub proof fn lemma_trade_index_at(trades: Seq<Trade>, id: i64, k: int)
    requires
        0 <= k < trades.len(),
        trades[k].id == Some(id),
        forall|i: int| 0 <= i < k ==> trades[i].id != Some(id),
    ensures
        trade_index(trades, id) == k,
    decreases trades.len(),
{
    if k > 0 {
        assert(forall|i: int|
            0 <= i < trades.drop_first().len() ==> trades.drop_first()[i] == trades[i + 1]);
        lemma_trade_index_at(trades.drop_first(), id, k - 1);
    }
}

/// May a position be evaluated at all: a positive purchase price, a
/// nonnegative return rate, a step fraction in `[0, 1)`, and magnitudes
/// within the library's documented fixed-point limits.
pub open spec fn targets_inputs_ok(buy_price: int, rate: int, step: int, days: int) -> bool {
    &&& 0 < buy_price <= MAX_BUY_PRICE
    &&& 0 <= rate <= MAX_ANNUAL_RETURN_RATE
    &&& 0 <= step < PRICE_SCALE
    &&& days <= MAX_EVAL_DAYS
}

/// The whole relation one evaluation satisfies: which inputs are
/// rejected, and what every field of an accepted evaluation holds.
pub open spec fn evaluation_of(
    t: Trade,
    step: int,
    rate: int,
    now: int,
    current_price: Option<u64>,
    r: Result<PriceCalculation, TraderError>,
) -> bool {
    let days = days_between(t.buy_time as int, now);
    let sell = sell_target_value(t.buy_price as int, rate, days);
    let buy = buy_target_value(sell, step);
    &&& (r is Ok <==> targets_inputs_ok(t.buy_price as int, rate, step, days))
    &&& (r is Err ==> r->Err_0 == TraderError::InvalidInput)
    &&& (r is Ok ==> r->Ok_0.days_since_purchase == days)
    &&& (r is Ok ==> r->Ok_0.sell_target_price == sell)
    &&& (r is Ok ==> r->Ok_0.buy_target_price == buy)
    &&& (r is Ok ==> r->Ok_0.current_price == current_price)
    &&& (r is Ok ==> r->Ok_0.price_reached == (match current_price {
        Some(p) => classify_value(p as int, sell, buy),
        None => AlertSignal::Hold,
    }))
}

/// Evaluate one position: its sell and buy-back targets at `now`, and the
/// signal its live price (when one was obtained) raises. Inputs outside
/// the documented limits are rejected as invalid, never mis-computed.
pub fn evaluate_targets(
    trade: &Trade,
    buy_step: i64,
    annual_return_rate: i64,
    now: i64,
    current_price: Option<u64>,
) -> (r: Result<PriceCalculation, TraderError>)
    ensures
        evaluation_of(*trade, buy_step as int, annual_return_rate as int, now as int, current_price, r),
{
    let days = days_held(trade.buy_time, now);
    if trade.buy_price == 0 || trade.buy_price > MAX_BUY_PRICE || annual_return_rate < 0
        || annual_return_rate > MAX_ANNUAL_RETURN_RATE || buy_step < 0
        || buy_step >= PRICE_SCALE as i64 || days > MAX_EVAL_DAYS {
        return Err(TraderError::InvalidInput);
    }
    proof {
        lemma_sell_target_fits(trade.buy_price as int, annual_return_rate as int, days as int);
    }
    let sell = PriceCalculator::calculate_sell_target_price(
        trade.buy_price,
        annual_return_rate as u64,
        days,
    );
    let buy = PriceCalculator::calculate_buy_target_price(sell, buy_step as u64);
    let price_reached = match current_price {
        Some(p) => PriceCalculator::check_price_target(p, sell, buy),
        None => AlertSignal::Hold,
    };
    Ok(
        PriceCalculation {
            sell_target_price: sell,
            buy_target_price: buy,
            days_since_purchase: days,
            current_price,
            price_reached,
        },
    )
}

/// Evaluate the one trade of a list that carries an id: `NotFound` when
/// none does, else exactly what evaluating that trade yields.
pub fn calculate_price_targets(
    trades: &Vec<Trade>,
    trade_id: i64,
    buy_step: i64,
    annual_return_rate: i64,
    now: i64,
    current_price: Option<u64>,
) -> (r: Result<PriceCalculation, TraderError>)
    ensures
        trade_index(trades@, trade_id) == -1 ==> r == Err::<PriceCalculation, TraderError>(
            TraderError::NotFound,
        ),
        trade_index(trades@, trade_id) != -1 ==> evaluation_of(
            trades@[trade_index(trades@, trade_id)],
            buy_step as int,
            annual_return_rate as int,
            now as int,
            current_price,
            r,
        ),
{
    let n = trades.len();
    let mut i: usize = 0;
    while i < n
        invariant
            i <= n,
            n == trades@.len(),
            forall|j: int| 0 <= j < i ==> trades@[j].id != Some(trade_id),
        decreases n - i,
    {
        let found = match trades[i].id {
            Some(id) => id == trade_id,
            None => false,
        };
        if found {
            proof {
                lemma_trade_index_at(trades@, trade_id, i as int);
            }
            return evaluate_targets(&trades[i], buy_step, annual_return_rate, now, current_price);
        }
        i += 1;
    }
    proof {
        lemma_trade_index_props(trades@, trade_id);
    }
    Err(TraderError::NotFound)
}

/// The text of one alert, as the notification sink shows it.
pub open spec fn alert_message_text(
    name: Seq<char>,
    code: Seq<char>,
    action: Seq<char>,
    target: int,
    price: int,
) -> Seq<char> {
    name + "("@ + code + ") reached "@ + action + " target ¥"@ + price_str_2(target)
        + ", current price ¥"@ + price_str_2(price)
}

/// The alert one scanned entry raises, if any: the entry must carry an
/// id, a live price and evaluable inputs, and the price must sit at or
/// beyond one of the two targets. The fields are: trade id, code, name,
/// signal, threshold crossed, observed price, message.
pub open spec fn alert_of_entry(
    t: Trade,
    step: int,
    rate: int,
    now: int,
    price_opt: Option<u64>,
) -> Option<(i64, Seq<char>, Seq<char>, AlertSignal, int, u64, Seq<char>)> {
    let days = days_between(t.buy_time as int, now);
    let sell = sell_target_value(t.buy_price as int, rate, days);
    let buy = buy_target_value(sell, step);
    if t.id is Some && price_opt is Some && targets_inputs_ok(t.buy_price as int, rate, step, days) {
        let p = price_opt->0;
        let sig = classify_value(p as int, sell, buy);
        if sig == AlertSignal::Sell {
            Some(
                (
                    t.id->0,
                    t.stock_code@,
                    t.stock_name@,
                    sig,
                    sell,
                    p,
                    alert_message_text(t.stock_name@, t.stock_code@, "sell"@, sell, p as int),
                ),
            )
        } else if sig == AlertSignal::Buy {
            Some(
                (
                    t.id->0,
                    t.stock_code@,
                    t.stock_name@,
                    sig,
                    buy,
                    p,
                    alert_message_text(t.stock_name@, t.stock_code@, "buy"@, buy, p as int),
                ),
            )
        } else {
            None
        }
    } else {
        None
    }
}

/// The alerts of the first `n` scanned entries, in entry order.
pub open spec fn alerts_upto(
    entries: Seq<(Trade, Option<u64>)>,
    step: int,
    rate: int,
    now: int,
    n: int,
) -> Seq<(i64, Seq<char>, Seq<char>, AlertSignal, int, u64, Seq<char>)>
    decreases n,
{
    if n <= 0 {
        Seq::empty()
    } else {
        match alert_of_entry(entries[n - 1].0, step, rate, now, entries[n - 1].1) {
            Some(a) => alerts_upto(entries, step, rate, now, n - 1) + seq![a],
            None => alerts_upto(entries, step, rate, now, n - 1),
        }
    }
}

/// Every alert a scan of these entries raises, in entry order.
pub open spec fn scan_alerts(
    entries: Seq<(Trade, Option<u64>)>,
    step: int,
    rate: int,
    now: int,
) -> Seq<(i64, Seq<char>, Seq<char>, AlertSignal, int, u64, Seq<char>)> {
    alerts_upto(entries, step, rate, now, entries.len() as int)
}

/// Is `e` the alert event this tuple names.
pub open spec fn alert_is(
    e: AlertEvent,
    a: (i64, Seq<char>, Seq<char>, AlertSignal, int, u64, Seq<char>),
) -> bool {
    &&& e.trade_id == a.0
    &&& e.stock_code@ == a.1
    &&& e.stock_name@ == a.2
    &&& e.signal == a.3
    &&& e.threshold as int == a.4
    &&& e.observed_price == a.5
    &&& e.message@ == a.6
}

/// Are `rs` exactly the alerts of a scan, in entry order.
pub open spec fn is_scan_result(
    entries: Seq<(Trade, Option<u64>)>,
    step: int,
    rate: int,
    now: int,
    rs: Seq<AlertEvent>,
) -> bool {
    &&& rs.len() == scan_alerts(entries, step, rate, now).len()
    &&& forall|j: int|
        0 <= j < rs.len() ==> alert_is(#[trigger] rs[j], scan_alerts(entries, step, rate, now)[j])
}

/// One scanned entry keeps the event list aligned with the alerts.
proof fn lemma_alert_step(
    es: Seq<(Trade, Option<u64>)>,
    step: int,
    rate: int,
    now: int,
    k: int,
    v0: Seq<AlertEvent>,
    v1: Seq<AlertEvent>,
)
    requires
        0 <= k < es.len(),
        v0.len() == alerts_upto(es, step, rate, now, k).len(),
        forall|j: int|
            0 <= j < v0.len() ==> alert_is(#[trigger] v0[j], alerts_upto(es, step, rate, now, k)[j]),
        match alert_of_entry(es[k].0, step, rate, now, es[k].1) {
            Some(a) => v1.len() == v0.len() + 1 && v1.subrange(0, v0.len() as int) == v0
                && alert_is(v1.last(), a),
            None => v1 == v0,
        },
    ensures
        v1.len() == alerts_upto(es, step, rate, now, k + 1).len(),
        forall|j: int|
            0 <= j < v1.len() ==> alert_is(
                #[trigger] v1[j],
                alerts_upto(es, step, rate, now, k + 1)[j],
            ),
{
    match alert_of_entry(es[k].0, step, rate, now, es[k].1) {
        Some(a) => {
            assert(alerts_upto(es, step, rate, now, k + 1) == alerts_upto(es, step, rate, now, k)
                + seq![a]);
            assert forall|j: int| 0 <= j < v1.len() implies alert_is(
                #[trigger] v1[j],
                alerts_upto(es, step, rate, now, k + 1)[j],
            ) by {
                if j < v0.len() {
                    assert(v1.subrange(0, v0.len() as int)[j] == v1[j]);
                    assert(alert_is(v0[j], alerts_upto(es, step, rate, now, k)[j]));
                    assert(alerts_upto(es, step, rate, now, k + 1)[j] == alerts_upto(
                        es,
                        step,
                        rate,
                        now,
                        k,
                    )[j]);
                } else {
                    assert(v1[j] == v1.last());
                    assert(alerts_upto(es, step, rate, now, k + 1)[j] == a);
                }
            }
        },
        None => {
            assert(alerts_upto(es, step, rate, now, k + 1) == alerts_upto(es, step, rate, now, k));
        },
    }
}

/// Render one alert message:
/// `{name}({code}) reached {action} target ¥{target}, current price
/// ¥{price}`, both prices rounded half-up to two decimals.
pub fn build_alert_message(name: &str, code: &str, action: &str, target: u64, price: u64) -> (r:
    String)
    ensures
        r@ == alert_message_text(name@, code@, action@, target as int, price as int),
{
    let mut s = name.to_owned();
    s.append("(");
    s.append(code);
    s.append(") reached ");
    s.append(action);
    s.append(" target ¥");
    let t2 = format_price_2(target);
    s.append(t2.as_str());
    s.append(", current price ¥");
    let p2 = format_price_2(price);
    s.append(p2.as_str());
    proof {
        assert(s@ =~= alert_message_text(name@, code@, action@, target as int, price as int));
    }
    s
}

/// Scan every entry independently: an alert event for each position whose
/// live price reached its sell target or its buy-back target. An entry
/// without an id, without a live price, or with inputs outside the
/// documented limits is skipped; it can never abort the other entries.
pub fn check_price_alerts(
    entries: &Vec<(Trade, Option<u64>)>,
    buy_step: i64,
    annual_return_rate: i64,
    now: i64,
) -> (r: Vec<AlertEvent>)
    ensures
        is_scan_result(entries@, buy_step as int, annual_return_rate as int, now as int, r@),
{
    let ghost step = buy_step as int;
    let ghost rate = annual_return_rate as int;
    let n = entries.len();
    let mut out: Vec<AlertEvent> = Vec::new();
    let mut i: usize = 0;
    while i < n
        invariant
            i <= n,
            n == entries@.len(),
            out@.len() == alerts_upto(entries@, step, rate, now as int, i as int).len(),
            forall|j: int|
                0 <= j < out@.len() ==> alert_is(
                    #[trigger] out@[j],
                    alerts_upto(entries@, step, rate, now as int, i as int)[j],
                ),
            step == buy_step as int,
            rate == annual_return_rate as int,
        decreases n - i,
    {
        let ghost out0 = out@;
        let trade = &entries[i].0;
        let price_opt = entries[i].1;
        let days = days_held(trade.buy_time, now);
        let evaluable = trade.buy_price > 0 && trade.buy_price <= MAX_BUY_PRICE
            && annual_return_rate >= 0 && annual_return_rate <= MAX_ANNUAL_RETURN_RATE
            && buy_step >= 0 && buy_step < PRICE_SCALE as i64 && days <= MAX_EVAL_DAYS;
        let id_opt = trade.id;
        match (id_opt, price_opt) {
            (Some(trade_id), Some(price)) => {
                if evaluable {
                    proof {
                        lemma_sell_target_fits(
                            trade.buy_price as int,
                            annual_return_rate as int,
                            days as int,
                        );
                    }
                    let sell = PriceCalculator::calculate_sell_target_price(
                        trade.buy_price,
                        annual_return_rate as u64,
                        days,
                    );
                    let buy = PriceCalculator::calculate_buy_target_price(sell, buy_step as u64);
                    let sig = PriceCalculator::check_price_target(price, sell, buy);
                    match sig {
                        AlertSignal::Sell => {
                            let msg = build_alert_message(
                                trade.stock_name.as_str(),
                                trade.stock_code.as_str(),
                                "sell",
                                sell,
                                price,
                            );
                            let event = AlertEvent {
                                trade_id,
                                stock_code: trade.stock_code.clone(),
                                stock_name: trade.stock_name.clone(),
                                signal: AlertSignal::Sell,
                                threshold: sell,
                                observed_price: price,
                                message: msg,
                            };
                            out.push(event);
                            proof {
                                assert(out@.subrange(0, out0.len() as int) =~= out0);
                            }
                        },
                        AlertSignal::Buy => {
                            let msg = build_alert_message(
                                trade.stock_name.as_str(),
                                trade.stock_code.as_str(),
                                "buy",
                                buy,
                                price,
                            );
                            let event = AlertEvent {
                                trade_id,
                                stock_code: trade.stock_code.clone(),
                                stock_name: trade.stock_name.clone(),
                                signal: AlertSignal::Buy,
                                threshold: buy,
                                observed_price: price,
                                message: msg,
                            };
                            out.push(event);
                            proof {
                                assert(out@.subrange(0, out0.len() as int) =~= out0);
                            }
                        },
                        AlertSignal::Hold => {},
                    }
                }
            },
            _ => {},
        }
        proof {
            lemma_alert_step(entries@, step, rate, now as int, i as int, out0, out@);
        }
        i += 1;
    }
    out
}

/// The messages of a scan, in entry order: what the caller hands to the
/// notification sink, one per alert event.
pub fn scan_portfolio(
    entries: &Vec<(Trade, Option<u64>)>,
    buy_step: i64,
    annual_return_rate: i64,
    now: i64,
) -> (r: Vec<String>)
    ensures
        r@.len() == scan_alerts(entries@, buy_step as int, annual_return_rate as int, now as int).len(),
        forall|j: int|
            0 <= j < r@.len() ==> #[trigger] r@[j]@ == scan_alerts(
                entries@,
                buy_step as int,
                annual_return_rate as int,
                now as int,
            )[j].6,
{
    let events = check_price_alerts(entries, buy_step, annual_return_rate, now);
    let n = events.len();
    let mut out: Vec<String> = Vec::new();
    let mut i: usize = 0;
    while i < n
        invariant
            i <= n,
            n == events@.len(),
            out@.len() == i,
            is_scan_result(
                entries@,
                buy_step as int,
                annual_return_rate as int,
                now as int,
                events@,
            ),
            forall|j: int|
                0 <= j < i ==> #[trigger] out@[j]@ == scan_alerts(
                    entries@,
                    buy_step as int,
                    annual_return_rate as int,
                    now as int,
                )[j].6,
        decreases n - i,
    {
        out.push(events[i].message.clone());
        i += 1;
    }
    out
}

} // verus!
