use stock_trader::api::{AlertSignal, PriceCalculator};
use stock_trader::errors::TraderError;

// Prices and rates are fixed-point values scaled by 10_000.

#[test]
fn sell_target_thirty_day_scenario() {
    // buy 10.00, annual rate 0.20, held 30 days:
    // 10 * (1 + 0.20 / 360 * 30) = 10.16666..., floored to 10.1666
    let r = PriceCalculator::calculate_sell_target_price(100000, 2000, 30);
    assert_eq!(r, 101666);
}

#[test]
fn sell_target_floor_short_holds() {
    let at_thirty = PriceCalculator::calculate_sell_target_price(100000, 2000, 30);
    assert_eq!(PriceCalculator::calculate_sell_target_price(100000, 2000, 15), at_thirty);
    assert_eq!(PriceCalculator::calculate_sell_target_price(100000, 2000, 0), at_thirty);
    assert_eq!(PriceCalculator::calculate_sell_target_price(100000, 2000, -10), at_thirty);
}

#[test]
fn sell_target_longer_hold_grows() {
    // 10 * (1 + 0.20 / 360 * 60) = 10.33333..., floored to 10.3333
    let r = PriceCalculator::calculate_sell_target_price(100000, 2000, 60);
    assert_eq!(r, 103333);
    assert!(r > PriceCalculator::calculate_sell_target_price(100000, 2000, 30));
}

#[test]
fn buy_target_scenario() {
    // sell 15.00, step 0.05 -> 14.25
    assert_eq!(PriceCalculator::calculate_buy_target_price(150000, 500), 142500);
}

#[test]
fn buy_target_never_above_sell_target() {
    for step in [0u64, 1, 500, 5000, 9999] {
        assert!(PriceCalculator::calculate_buy_target_price(150000, step) <= 150000);
    }
}

#[test]
fn classify_buy_boundary_is_inclusive() {
    // 14.25 sits exactly on the buy-back target
    let r = PriceCalculator::check_price_target(142500, 150000, 142500);
    assert_eq!(r, AlertSignal::Buy);
}

#[test]
fn classify_sell_boundary_is_inclusive() {
    let r = PriceCalculator::check_price_target(150000, 150000, 142500);
    assert_eq!(r, AlertSignal::Sell);
}

#[test]
fn classify_buy_scenario() {
    // 11.99 against sell 15.00 / buy 12.00
    let r = PriceCalculator::check_price_target(119900, 150000, 120000);
    assert_eq!(r, AlertSignal::Buy);
}

#[test]
fn classify_hold_between_targets() {
    let r = PriceCalculator::check_price_target(130000, 150000, 120000);
    assert_eq!(r, AlertSignal::Hold);
}

#[test]
fn classify_sell_wins_on_degenerate_targets() {
    // sell target below buy target: the sell test still comes first
    let r = PriceCalculator::check_price_target(150000, 100000, 140000);
    assert_eq!(r, AlertSignal::Sell);
}

#[test]
fn sell_target_checked_rejects_zero_buy_price() {
    let r = PriceCalculator::calculate_sell_target_price_checked(0, 2000, 30);
    assert_eq!(r, Err(TraderError::InvalidInput));
}

#[test]
fn sell_target_checked_rejects_negative_rate() {
    let r = PriceCalculator::calculate_sell_target_price_checked(100000, -1, 30);
    assert_eq!(r, Err(TraderError::InvalidInput));
}

#[test]
fn sell_target_checked_accepts_ordinary_inputs() {
    let r = PriceCalculator::calculate_sell_target_price_checked(100000, 2000, 30);
    assert_eq!(r, Ok(101666));
}

#[test]
fn buy_target_checked_rejects_step_outside_unit_interval() {
    assert_eq!(
        PriceCalculator::calculate_buy_target_price_checked(150000, 10000),
        Err(TraderError::InvalidInput)
    );
    assert_eq!(
        PriceCalculator::calculate_buy_target_price_checked(150000, -1),
        Err(TraderError::InvalidInput)
    );
    assert_eq!(PriceCalculator::calculate_buy_target_price_checked(150000, 500), Ok(142500));
}

#[test]
fn classify_checked_rejects_non_positive_inputs() {
    assert_eq!(
        PriceCalculator::check_price_target_checked(0, 150000, 142500),
        Err(TraderError::InvalidInput)
    );
    assert_eq!(
        PriceCalculator::check_price_target_checked(130000, 0, 142500),
        Err(TraderError::InvalidInput)
    );
    assert_eq!(
        PriceCalculator::check_price_target_checked(130000, 150000, 0),
        Err(TraderError::InvalidInput)
    );
    assert_eq!(
        PriceCalculator::check_price_target_checked(150000, 150000, 142500),
        Ok(AlertSignal::Sell)
    );
}

#[test]
fn error_messages_name_each_failure() {
    assert_eq!(TraderError::MalformedFeed.message(), "malformed quote feed");
    assert_eq!(TraderError::EmptyQuote.message(), "quote feed carried no usable values");
    assert_eq!(TraderError::NetworkFailure.message(), "quote feed unreachable");
    assert_eq!(TraderError::InvalidInput.message(), "invalid input");
    assert_eq!(TraderError::NotFound.message(), "trade record not found");
}
