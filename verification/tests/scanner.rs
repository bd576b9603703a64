use stock_trader::api::AlertSignal;
use stock_trader::errors::TraderError;
use stock_trader::models::{default_settings, Trade};
use stock_trader::scan::{calculate_price_targets, check_price_alerts, days_held, evaluate_targets, scan_portfolio};

const NOW: i64 = 1700000000;

fn trade(id: Option<i64>, code: &str, name: &str, buy_price: u64, days_ago: i64) -> Trade {
    Trade {
        id,
        stock_code: String::from(code),
        stock_name: String::from(name),
        buy_price,
        buy_time: NOW - days_ago * 86400,
        quantity: 100,
        notes: None,
        created_at: None,
    }
}

#[test]
fn days_held_truncates_toward_zero() {
    assert_eq!(days_held(NOW - 30 * 86400, NOW), 30);
    assert_eq!(days_held(NOW - 86399, NOW), 0);
    assert_eq!(days_held(NOW, NOW), 0);
    // a purchase recorded in the future counts negative, not as an error
    assert_eq!(days_held(NOW + 5 * 86400, NOW), -5);
    assert_eq!(days_held(NOW + 86399, NOW), 0);
}

#[test]
fn evaluate_targets_fills_every_field() {
    let t = trade(Some(1), "600036", "Acme", 100000, 30);
    let calc = evaluate_targets(&t, 500, 2000, NOW, Some(96582)).unwrap();
    assert_eq!(calc.days_since_purchase, 30);
    assert_eq!(calc.sell_target_price, 101666);
    assert_eq!(calc.buy_target_price, 96582);
    assert_eq!(calc.current_price, Some(96582));
    assert_eq!(calc.price_reached, AlertSignal::Buy);
}

#[test]
fn evaluate_targets_without_a_price_holds() {
    let t = trade(Some(1), "600036", "Acme", 100000, 10);
    let calc = evaluate_targets(&t, 500, 2000, NOW, None).unwrap();
    assert_eq!(calc.current_price, None);
    assert_eq!(calc.price_reached, AlertSignal::Hold);
    // the thirty-day floor also covers short holds
    assert_eq!(calc.sell_target_price, 101666);
}

#[test]
fn evaluate_targets_rejects_bad_inputs() {
    let zero_price = trade(Some(1), "600036", "Acme", 0, 30);
    assert_eq!(
        evaluate_targets(&zero_price, 500, 2000, NOW, None).unwrap_err(),
        TraderError::InvalidInput
    );
    let t = trade(Some(1), "600036", "Acme", 100000, 30);
    assert_eq!(
        evaluate_targets(&t, 10000, 2000, NOW, None).unwrap_err(),
        TraderError::InvalidInput
    );
    assert_eq!(
        evaluate_targets(&t, -1, 2000, NOW, None).unwrap_err(),
        TraderError::InvalidInput
    );
    assert_eq!(
        evaluate_targets(&t, 500, -1, NOW, None).unwrap_err(),
        TraderError::InvalidInput
    );
}

#[test]
fn calculate_price_targets_finds_the_trade_by_id() {
    let trades = vec![
        trade(Some(7), "000001", "One", 80000, 10),
        trade(Some(9), "600036", "Two", 100000, 30),
        trade(None, "600519", "Three", 100000, 30),
    ];
    let calc = calculate_price_targets(&trades, 9, 500, 2000, NOW, Some(150000)).unwrap();
    assert_eq!(calc.sell_target_price, 101666);
    assert_eq!(calc.price_reached, AlertSignal::Sell);
    assert_eq!(
        calculate_price_targets(&trades, 8, 500, 2000, NOW, None).unwrap_err(),
        TraderError::NotFound
    );
}

#[test]
fn scan_raises_sell_and_buy_alerts_and_skips_the_rest() {
    let entries: Vec<(Trade, Option<u64>)> = vec![
        // at the sell target
        (trade(Some(1), "600036", "Acme", 100000, 30), Some(150000)),
        // between the targets: no alert
        (trade(Some(2), "000001", "Hold Co", 100000, 30), Some(100000)),
        // no live price: skipped
        (trade(Some(3), "600519", "Quiet", 100000, 30), None),
        // no id: skipped
        (trade(None, "000002", "Ghost", 100000, 30), Some(150000)),
        // at the buy-back target
        (trade(Some(5), "000858", "Dip Inc", 100000, 30), Some(90000)),
    ];
    let events = check_price_alerts(&entries, 500, 2000, NOW);
    assert_eq!(events.len(), 2);

    assert_eq!(events[0].trade_id, 1);
    assert_eq!(events[0].stock_code, "600036");
    assert_eq!(events[0].signal, AlertSignal::Sell);
    assert_eq!(events[0].threshold, 101666);
    assert_eq!(events[0].observed_price, 150000);
    assert_eq!(
        events[0].message,
        "Acme(600036) reached sell target ¥10.17, current price ¥15.00"
    );

    assert_eq!(events[1].trade_id, 5);
    assert_eq!(events[1].signal, AlertSignal::Buy);
    assert_eq!(events[1].threshold, 96582);
    assert_eq!(
        events[1].message,
        "Dip Inc(000858) reached buy target ¥9.66, current price ¥9.00"
    );
}

#[test]
fn scan_portfolio_returns_the_messages() {
    let entries: Vec<(Trade, Option<u64>)> = vec![
        (trade(Some(1), "600036", "Acme", 100000, 30), Some(150000)),
        (trade(Some(2), "000001", "Hold Co", 100000, 30), Some(100000)),
    ];
    let messages = scan_portfolio(&entries, 500, 2000, NOW);
    assert_eq!(
        messages,
        vec!["Acme(600036) reached sell target ¥10.17, current price ¥15.00"]
    );
}

#[test]
fn an_empty_portfolio_scans_to_no_alerts() {
    let entries: Vec<(Trade, Option<u64>)> = Vec::new();
    assert_eq!(check_price_alerts(&entries, 500, 2000, NOW).len(), 0);
}

#[test]
fn default_settings_seed_the_two_fractions() {
    let s = default_settings();
    assert_eq!(s.len(), 8);
    assert_eq!(s[0].key, "buy_step_percentage");
    assert_eq!(s[0].value, "0.05");
    assert_eq!(s[1].key, "annual_return_rate");
    assert_eq!(s[1].value, "0.20");
    assert_eq!(s[5].key, "backup_interval");
    assert_eq!(s[5].value, "24");
    // the decimal-string defaults parse to the scaled fractions
    assert_eq!(stock_trader::numtext::parse_price_str(&s[0].value), Some(500));
    assert_eq!(stock_trader::numtext::parse_price_str(&s[1].value), Some(2000));
}

#[test]
fn derived_change_fields_recompute_from_the_stored_pair() {
    let info = stock_trader::models::StockInfo {
        code: String::from("600036"),
        name: String::from("X"),
        current_price: 355000,
        prev_close: 350000,
        open: 350000,
        high: 360000,
        low: 340000,
        volume: 0,
        turnover: 0,
        timestamp: 0,
    };
    assert_eq!(info.change(), 5000);
    // 5000 / 350000 * 100 = 1.4285...% (scaled by 10_000, truncated)
    assert_eq!(info.change_percent(), 14285);
    let down = stock_trader::models::StockPriceResponse {
        code: String::from("600036"),
        name: String::from("X"),
        price: 340000,
        prev_close: 350000,
        timestamp: 0,
    };
    assert_eq!(down.change(), -10000);
    // -10000 / 350000 * 100 = -2.857...%
    assert_eq!(down.change_percent(), -28571);
    let resp = stock_trader::models::StockPriceResponse::from_info(&info);
    assert_eq!(resp.price, 355000);
    assert_eq!(resp.prev_close, 350000);
    assert_eq!(resp.change(), 5000);
}

#[test]
fn change_percent_is_zero_without_a_previous_close() {
    let info = stock_trader::models::StockInfo {
        code: String::from("X"),
        name: String::from("X"),
        current_price: 355000,
        prev_close: 0,
        open: 0,
        high: 0,
        low: 0,
        volume: 0,
        turnover: 0,
        timestamp: 0,
    };
    assert_eq!(info.change_percent(), 0);
}
