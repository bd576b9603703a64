use stock_trader::stock_api::StockApi;

const GOOD_BODY: &str = "var hq_str_sh600036=\"China Merchants Bank,35.00,35.00,35.50,36.00,34.00,35.49,35.51,1000000,35500000.00\";";

#[test]
fn validate_stock_code_wants_six_digits() {
    assert!(StockApi::validate_stock_code("600036"));
    assert!(StockApi::validate_stock_code("000001"));
    assert!(!StockApi::validate_stock_code("60003"));
    assert!(!StockApi::validate_stock_code("6000366"));
    assert!(!StockApi::validate_stock_code("6000a6"));
    assert!(!StockApi::validate_stock_code(""));
}

#[test]
fn codes_route_to_their_venue() {
    assert_eq!(StockApi::format_stock_code_for_sina("600036"), "sh600036");
    assert_eq!(StockApi::format_stock_code_for_sina("000001"), "sz000001");
    assert_eq!(StockApi::format_stock_code_for_sina("300750"), "sz300750");
    // any other leading digit defaults to Shanghai
    assert_eq!(StockApi::format_stock_code_for_sina("123456"), "sh123456");
    assert_eq!(StockApi::format_stock_code_for_sina(""), "sh");
}

#[test]
fn quote_url_names_the_routed_code() {
    assert_eq!(StockApi::quote_url("600036"), "https://hq.sinajs.cn/list=sh600036");
    assert_eq!(StockApi::quote_url("000001"), "https://hq.sinajs.cn/list=sz000001");
}

#[test]
fn search_url_percent_encodes_the_query() {
    let url = StockApi::search_url("A B");
    assert!(url.starts_with("https://searchapi.eastmoney.com/api/suggest/get?input=A%20B&"));
    assert!(url.ends_with("&letter="));
}

#[test]
fn market_labels() {
    assert_eq!(StockApi::market_from_code("1"), "SH");
    assert_eq!(StockApi::market_from_code("2"), "SZ");
    assert_eq!(StockApi::market_from_code("9"), "OTHER");
}

#[test]
fn mock_price_is_the_perturbed_seed() {
    // base 35.2000, factor 9500 + 12345 % 1001 = 9833:
    // 352000 * 9833 / 10000 = 346121 (floored)
    assert_eq!(StockApi::get_mock_stock_price("600036", 12345), 346121);
}

#[test]
fn mock_price_of_unknown_code_sits_in_the_band() {
    // noise 0: base 10.0000, factor 9500 -> 9.5000
    assert_eq!(StockApi::get_mock_stock_price("999999", 0), 95000);
    for noise in [1u64, 77, 50000, u64::MAX] {
        let p = StockApi::get_mock_stock_price("999999", noise);
        // base within [10, 15.0001], perturbation within five percent
        assert!(p >= 95000 && p <= 157500);
    }
}

#[test]
fn mock_info_carries_the_table_row() {
    let info = StockApi::get_mock_stock_info("000001", 0, 1700000000);
    assert_eq!(info.code, "000001");
    assert_eq!(info.name, "平安银行");
    assert_eq!(info.current_price, 125000);
    // noise 0 draws the largest downward change: -0.5000
    assert_eq!(info.prev_close, 130000);
    assert_eq!(info.open, 123000);
    assert_eq!(info.high, 128000);
    assert_eq!(info.low, 122000);
    assert_eq!(info.volume, 0);
    assert_eq!(info.turnover, 0);
    assert_eq!(info.timestamp, 1700000000);
}

#[test]
fn mock_info_of_unknown_code() {
    let info = StockApi::get_mock_stock_info("999999", 5000, 7);
    assert_eq!(info.name, "未知股票");
    assert_eq!(info.current_price, 105000);
    assert_eq!(info.open, 100000);
    assert_eq!(info.high, 110000);
    assert_eq!(info.low, 95000);
}

#[test]
fn price_from_response_prefers_the_feed() {
    assert_eq!(StockApi::price_from_response("600036", Some(GOOD_BODY), 12345), 355000);
}

#[test]
fn price_from_response_falls_back_on_malformed_feed() {
    // the malformed body never reaches the caller as an error
    let p = StockApi::price_from_response("600036", Some("no quotes here"), 12345);
    assert_eq!(p, StockApi::get_mock_stock_price("600036", 12345));
    assert!(p > 0);
}

#[test]
fn price_from_response_falls_back_on_no_response() {
    let p = StockApi::price_from_response("600036", None, 7);
    assert_eq!(p, StockApi::get_mock_stock_price("600036", 7));
}

#[test]
fn info_from_response_prefers_the_feed() {
    let info = StockApi::info_from_response("600036", Some(GOOD_BODY), 12345, 1700000000);
    assert_eq!(info.name, "China Merchants Bank");
    assert_eq!(info.current_price, 355000);
    assert_eq!(info.timestamp, 1700000000);
}

#[test]
fn info_from_response_falls_back_to_synthetic() {
    let info = StockApi::info_from_response("600036", Some("no quotes here"), 9, 1700000000);
    assert_eq!(info.name, "招商银行");
    assert_eq!(info.current_price, 352000);
    assert!(info.current_price > 0);
    let offline = StockApi::info_from_response("000858", None, 9, 5);
    assert_eq!(offline.name, "五粮液");
    assert_eq!(offline.current_price, 1685000);
}

#[test]
fn mock_search_filters_by_code() {
    let hits = StockApi::get_mock_stock_search("600");
    let codes: Vec<&str> = hits.iter().map(|h| h.code.as_str()).collect();
    assert_eq!(codes, vec!["600000", "600036", "600519", "600276"]);
}

#[test]
fn mock_search_filters_by_name() {
    let hits = StockApi::get_mock_stock_search("银行");
    let names: Vec<&str> = hits.iter().map(|h| h.name.as_str()).collect();
    assert_eq!(names, vec!["平安银行", "浦发银行", "招商银行"]);
    assert_eq!(hits[0].market, "SZ");
    assert_eq!(hits[1].market, "SH");
    assert_eq!(hits[0].stock_type.as_deref(), Some("股票"));
}

#[test]
fn mock_search_exact_code_query_returns_its_row() {
    let hits = StockApi::get_mock_stock_search("600036");
    assert_eq!(hits.len(), 1);
    assert_eq!(hits[0].code, "600036");
    assert_eq!(hits[0].name, "招商银行");
    assert_eq!(hits[0].market, "SH");
    assert_eq!(hits[0].stock_type.as_deref(), Some("股票"));
}

#[test]
fn mock_search_empty_query_returns_the_whole_table() {
    assert_eq!(StockApi::get_mock_stock_search("").len(), 8);
    assert_eq!(StockApi::get_mock_stock_search("zzz").len(), 0);
}

#[test]
fn search_from_response_prefers_nonempty_fetched_lists() {
    let fetched = StockApi::get_mock_stock_search("银行");
    let out = StockApi::search_from_response("whatever", Some(fetched.clone()));
    assert_eq!(out.len(), fetched.len());
    assert_eq!(out[0].code, fetched[0].code);
    let empty_falls_back = StockApi::search_from_response("600", Some(Vec::new()));
    assert_eq!(empty_falls_back.len(), 4);
    let none_falls_back = StockApi::search_from_response("600", None);
    assert_eq!(none_falls_back.len(), 4);
}
