use stock_trader::codec::QuoteCodec;
use stock_trader::errors::TraderError;
use stock_trader::models::StockInfo;
use stock_trader::numtext::{format_price_2, format_price_4, parse_price_str, u64_to_string};

const FULL_BODY: &str = "var hq_str_sh600036=\"China Merchants Bank,35.00,35.00,35.50,36.00,34.00,35.49,35.51,1000000,35500000.00\";";

#[test]
fn decode_price_reads_the_fourth_field() {
    assert_eq!(QuoteCodec::decode_price(FULL_BODY), Ok(355000));
}

#[test]
fn decode_price_rejects_unquoted_text() {
    assert_eq!(QuoteCodec::decode_price("no quotes here"), Err(TraderError::MalformedFeed));
}

#[test]
fn decode_price_rejects_single_quote() {
    assert_eq!(QuoteCodec::decode_price("var x=\"abc"), Err(TraderError::MalformedFeed));
}

#[test]
fn decode_price_rejects_too_few_fields() {
    assert_eq!(QuoteCodec::decode_price("var x=\"a,b,c\";"), Err(TraderError::MalformedFeed));
}

#[test]
fn decode_price_parse_failure_is_a_hard_error() {
    // in the price-only shape a broken current-price field fails the record
    assert_eq!(
        QuoteCodec::decode_price("var x=\"name,1.0,2.0,abc\";"),
        Err(TraderError::MalformedFeed)
    );
}

#[test]
fn decode_price_zero_price_is_an_empty_quote() {
    assert_eq!(
        QuoteCodec::decode_price("var x=\"name,1.0,2.0,0.00\";"),
        Err(TraderError::EmptyQuote)
    );
}

#[test]
fn decode_info_reads_every_field() {
    let info = QuoteCodec::decode_info("600036", FULL_BODY, 1700000000).unwrap();
    assert_eq!(info.code, "600036");
    assert_eq!(info.name, "China Merchants Bank");
    assert_eq!(info.open, 350000);
    assert_eq!(info.prev_close, 350000);
    assert_eq!(info.current_price, 355000);
    assert_eq!(info.high, 360000);
    assert_eq!(info.low, 340000);
    assert_eq!(info.volume, 1000000);
    assert_eq!(info.turnover, 35500000);
    assert_eq!(info.timestamp, 1700000000);
}

#[test]
fn decode_info_defaults_broken_numeric_fields_to_zero() {
    let body = "var x=\"name,junk,x,35.50,?,-,1,2,junk,junk\";";
    let info = QuoteCodec::decode_info("000001", body, 0).unwrap();
    assert_eq!(info.open, 0);
    assert_eq!(info.prev_close, 0);
    assert_eq!(info.current_price, 355000);
    assert_eq!(info.high, 0);
    assert_eq!(info.low, 0);
    assert_eq!(info.volume, 0);
    assert_eq!(info.turnover, 0);
}

#[test]
fn decode_info_rejects_short_records() {
    let body = "var x=\"name,1,2,3,4,5,6,7,8\";";
    assert_eq!(
        QuoteCodec::decode_info("000001", body, 0).unwrap_err(),
        TraderError::MalformedFeed
    );
}

#[test]
fn decode_info_rejects_zero_price_and_empty_name() {
    let zero = "var x=\"name,1,2,0,4,5,6,7,8,9\";";
    assert_eq!(QuoteCodec::decode_info("000001", zero, 0).unwrap_err(), TraderError::EmptyQuote);
    let unnamed = "var x=\",1,2,3,4,5,6,7,8,9\";";
    assert_eq!(
        QuoteCodec::decode_info("000001", unnamed, 0).unwrap_err(),
        TraderError::EmptyQuote
    );
}

#[test]
fn feed_round_trip_reproduces_the_price() {
    let info = StockInfo {
        code: String::from("600036"),
        name: String::from("China Merchants Bank"),
        current_price: 355000,
        prev_close: 350000,
        open: 350000,
        high: 360000,
        low: 340000,
        volume: 1000000,
        turnover: 35500000,
        timestamp: 1700000000,
    };
    let csv = QuoteCodec::encode_info_csv(&info);
    let body = QuoteCodec::encode_feed_body("sh600036", csv.as_str());
    assert_eq!(QuoteCodec::decode_price(body.as_str()), Ok(355000));
    let back = QuoteCodec::decode_info("600036", body.as_str(), 1700000000).unwrap();
    assert_eq!(back.current_price, info.current_price);
    assert_eq!(back.prev_close, info.prev_close);
    assert_eq!(back.open, info.open);
    assert_eq!(back.high, info.high);
    assert_eq!(back.low, info.low);
    assert_eq!(back.volume, info.volume);
    assert_eq!(back.turnover, info.turnover);
    assert_eq!(back.name, info.name);
}

#[test]
fn encode_writes_the_vendor_shape() {
    let info = StockInfo {
        code: String::from("000001"),
        name: String::from("Ping An Bank"),
        current_price: 125000,
        prev_close: 123000,
        open: 123000,
        high: 128000,
        low: 122000,
        volume: 42,
        turnover: 7,
        timestamp: 0,
    };
    let csv = QuoteCodec::encode_info_csv(&info);
    assert_eq!(
        csv,
        "Ping An Bank,12.3000,12.3000,12.5000,12.8000,12.2000,0,0,42,7"
    );
    let body = QuoteCodec::encode_feed_body("sz000001", csv.as_str());
    assert_eq!(
        body,
        "var hq_str_sz000001=\"Ping An Bank,12.3000,12.3000,12.5000,12.8000,12.2000,0,0,42,7\";"
    );
}

#[test]
fn price_text_formatting() {
    assert_eq!(format_price_4(101666), "10.1666");
    assert_eq!(format_price_4(30000000), "3000.0000");
    assert_eq!(format_price_4(5), "0.0005");
    assert_eq!(format_price_2(101666), "10.17");
    assert_eq!(format_price_2(101640), "10.16");
    assert_eq!(format_price_2(101650), "10.17");
    assert_eq!(format_price_2(0), "0.00");
    assert_eq!(u64_to_string(0), "0");
    assert_eq!(u64_to_string(1234567890), "1234567890");
}

#[test]
fn price_text_parsing() {
    assert_eq!(parse_price_str("35.50"), Some(355000));
    assert_eq!(parse_price_str("3000"), Some(30000000));
    assert_eq!(parse_price_str("12."), Some(120000));
    assert_eq!(parse_price_str("0.00005"), Some(0));
    assert_eq!(parse_price_str("10.16669"), Some(101666));
    assert_eq!(parse_price_str(""), None);
    assert_eq!(parse_price_str("."), None);
    assert_eq!(parse_price_str(".5"), None);
    assert_eq!(parse_price_str("1.2.3"), None);
    assert_eq!(parse_price_str("-1.0"), None);
    assert_eq!(parse_price_str("12a"), None);
    assert_eq!(parse_price_str("99999999999999999999999999"), None);
}
