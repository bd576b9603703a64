//! The quote source: code validation, venue routing, request URLs, the
//! synthetic fallback, and the decision that welds them together.
//!
//! Everything here is pure: the network call itself stays with the caller,
//! which hands the response body (or its absence) to the decision
//! functions below.

use vstd::prelude::*;
use vstd::string::{StrSliceExecFns, StringExecFns};
use vstd::arithmetic::mul::{lemma_mul_inequality, lemma_mul_upper_bound};
use vstd::arithmetic::div_mod::lemma_div_is_ordered;
use crate::numtext::all_digits;
use crate::text::{contains_sub, str_eq, str_contains};
use crate::codec::{QuoteCodec, decoded_price, full_quote_ok, quoted_payload, split_commas,
    price_or_zero, int_or_zero, turnover_or_zero};
use crate::models::{StockInfo, StockSearchResult};

verus! {

/// Is a security code well-formed: exactly six ASCII digits. Purely
/// structural; no network is involved.
pub open spec fn valid_code(code: Seq<char>) -> bool {
    code.len() == 6 && all_digits(code)
}

/// The vendor's routed form of a code: Shanghai (`sh`) for a leading `6`,
/// Shenzhen (`sz`) for a leading `0` or `3`, Shanghai for anything else.
pub open spec fn routed_code(code: Seq<char>) -> Seq<char> {
    if code.len() > 0 && (code[0] == '0' || code[0] == '3') {
        "sz"@ + code
    } else {
        "sh"@ + code
    }
}

/// The quote endpoint for a routed code.
pub open spec fn quote_url_text(code: Seq<char>) -> Seq<char> {
    "https://hq.sinajs.cn/list="@ + routed_code(code)
}

/// Name for what `urlencoding::encode` returns: it depends on the input
/// characters alone.
pub uninterp spec fn percent_encoded(s: Seq<char>) -> Seq<char>;

/// The search endpoint for a query.
pub open spec fn search_url_text(q: Seq<char>) -> Seq<char> {
    "https://searchapi.eastmoney.com/api/suggest/get?input="@ + percent_encoded(q)
        + "&type=14&token=D43BF722C8E33BDC906FB84D85E326E8&markettype=&mktnum=&jys=&classify=&securitytype=&status=&letter="@
}

/// The market label of the search feed's market code.
pub open spec fn market_label(mkt: Seq<char>) -> Seq<char> {
    if mkt == "1"@ {
        "SH"@
    } else if mkt == "2"@ {
        "SZ"@
    } else {
        "OTHER"@
    }
}

/// Relies on urlencoding::encode: percent-encodes every character other
/// than ASCII alphanumerics and `-`, `_`, `.`, `~`; the result is a
/// function of the input characters alone, and an empty input stays
/// empty.
#[verifier::external_body]
fn encode_query(s: &str) -> (r: String)
    ensures
        r@ == percent_encoded(s@),
        s@.len() == 0 ==> r@.len() == 0,
{
    urlencoding::encode(s).into_owned()
}

/// The quote source and its synthetic fallback.
pub struct StockApi;

impl StockApi {
    /// Is a security code six ASCII digits. Purely structural: contrast
    /// with acquisition, which is a separate capability.
    pub fn validate_stock_code(stock_code: &str) -> (r: bool)
        ensures
            r == valid_code(stock_code@),
    {
        let n = stock_code.unicode_len();
        if n != 6 {
            return false;
        }
        proof {
            assert(stock_code@.subrange(0, 6) =~= stock_code@);
        }
        crate::numtext::scan_digits(stock_code, 0, 6)
    }

    /// Route a code to the vendor's venue prefix.
    pub fn format_stock_code_for_sina(stock_code: &str) -> (r: String)
        ensures
            r@ == routed_code(stock_code@),
    {
        let prefix: &str = if stock_code.unicode_len() > 0 {
            let c = stock_code.get_char(0);
            if c == '0' || c == '3' {
                "sz"
            } else {
                "sh"
            }
        } else {
            "sh"
        };
        let mut s = String::from_str(prefix);
        s.append(stock_code);
        proof {
            assert(s@ =~= routed_code(stock_code@));
        }
        s
    }

    /// The URL a quote for this code is requested from.
    pub fn quote_url(stock_code: &str) -> (r: String)
        ensures
            r@ == quote_url_text(stock_code@),
    {
        let mut s = String::from_str("https://hq.sinajs.cn/list=");
        let routed = Self::format_stock_code_for_sina(stock_code);
        s.append(routed.as_str());
        proof {
            assert(s@ =~= quote_url_text(stock_code@));
        }
        s
    }

    /// The URL a security search for this query is requested from.
    pub fn search_url(query: &str) -> (r: String)
        ensures
            r@ == search_url_text(query@),
    {
        let mut s = String::from_str("https://searchapi.eastmoney.com/api/suggest/get?input=");
        let encoded = encode_query(query);
        s.append(encoded.as_str());
        s.append(
            "&type=14&token=D43BF722C8E33BDC906FB84D85E326E8&markettype=&mktnum=&jys=&classify=&securitytype=&status=&letter=",
        );
        proof {
            assert(s@ =~= search_url_text(query@));
        }
        s
    }

    /// The market label of one search hit of the vendor's search feed.
    pub fn market_from_code(market_code: &str) -> (r: &'static str)
        ensures
            r@ == market_label(market_code@),
    {
        if str_eq(market_code, "1") {
            "SH"
        } else if str_eq(market_code, "2") {
            "SZ"
        } else {
            "OTHER"
        }
    }

    /// The fixed seed price of a well-known code.
    fn seed_price_lookup(stock_code: &str) -> (r: Option<u64>)
        ensures
            r == seed_price(stock_code@),
    {
        if str_eq(stock_code, "000001") {
            Some(125000)
        } else if str_eq(stock_code, "000002") {
            Some(88000)
        } else if str_eq(stock_code, "600036") {
            Some(352000)
        } else if str_eq(stock_code, "000858") {
            Some(1685000)
        } else if str_eq(stock_code, "600519") {
            Some(16800000)
        } else if str_eq(stock_code, "002415") {
            Some(423000)
        } else if str_eq(stock_code, "600276") {
            Some(589000)
        } else {
            None
        }
    }

    /// A synthetic price: the seed of the code (or a pseudo-price for an
    /// unknown one) under a perturbation of at most five percent.
    pub fn get_mock_stock_price(stock_code: &str, noise: u64) -> (r: u64)
        ensures
            r as int == mock_price(stock_code@, noise),
            r > 0,
    {
        let base: u64 = match Self::seed_price_lookup(stock_code) {
            Some(p) => p,
            None => 100000 + noise % 50001,
        };
        let factor: u64 = 9500 + noise % 1001;
        proof {
            lemma_mul_upper_bound(base as int, 16800000, factor as int, 10500);
            lemma_mul_inequality(88000, base as int, factor as int);
            vstd::arithmetic::mul::lemma_mul_left_inequality(88000, 9500, factor as int);
            lemma_div_is_ordered(88000int * 9500, base as int * factor as int, 10000);
        }
        let prod: u64 = base * factor;
        prod / 10000
    }

    /// A synthetic full quote for a code, every field a function of the
    /// code and the noise word.
    pub fn get_mock_stock_info(stock_code: &str, noise: u64, timestamp: i64) -> (r: StockInfo)
        ensures
            is_mock_info(stock_code@, noise, timestamp, r),
            r.current_price > 0,
            r.name@.len() > 0,
    {
        let name: &str;
        let price: u64;
        let open: u64;
        let high: u64;
        let low: u64;
        if str_eq(stock_code, "000001") {
            name = "平安银行";
            price = 125000;
            open = 123000;
            high = 128000;
            low = 122000;
        } else if str_eq(stock_code, "000002") {
            name = "万科A";
            price = 88000;
            open = 87500;
            high = 89500;
            low = 87000;
        } else if str_eq(stock_code, "600036") {
            name = "招商银行";
            price = 352000;
            open = 350000;
            high = 355000;
            low = 348000;
        } else if str_eq(stock_code, "000858") {
            name = "五粮液";
            price = 1685000;
            open = 1672000;
            high = 1703000;
            low = 1668000;
        } else if str_eq(stock_code, "600519") {
            name = "贵州茅台";
            price = 16800000;
            open = 16755000;
            high = 16952000;
            low = 16703000;
        } else if str_eq(stock_code, "002415") {
            name = "海康威视";
            price = 423000;
            open = 421000;
            high = 432000;
            low = 418000;
        } else if str_eq(stock_code, "600276") {
            name = "恒瑞医药";
            price = 589000;
            open = 585000;
            high = 598000;
            low = 582000;
        } else {
            name = "未知股票";
            price = 100000 + noise % 50001;
            open = 100000;
            high = 110000;
            low = 95000;
        }
        let change: i64 = ((noise % 10001) as i64) - 5000;
        let prev_close: u64 = ((price as i64) - change) as u64;
        let volume: i64 = ((noise / 7) % 1000001) as i64;
        let turnover: i64 = ((noise / 11) % 100000001) as i64;
        proof {
            reveal_strlit("平安银行");
            reveal_strlit("万科A");
            reveal_strlit("招商银行");
            reveal_strlit("五粮液");
            reveal_strlit("贵州茅台");
            reveal_strlit("海康威视");
            reveal_strlit("恒瑞医药");
            reveal_strlit("未知股票");
        }
        StockInfo {
            code: stock_code.to_owned(),
            name: String::from_str(name),
            current_price: price,
            prev_close,
            open,
            high,
            low,
            volume,
            turnover,
            timestamp,
        }
    }

    /// The quote-source decision for one price request: the decoded feed
    /// price when the body decodes, the synthetic fallback on a missing
    /// body or on any decode failure. It never fails.
    pub fn price_from_response(stock_code: &str, body: Option<&str>, noise: u64) -> (r: u64)
        ensures
            r as int == price_decision(
                stock_code@,
                match body {
                    Some(b) => Some(b@),
                    None => None,
                },
                noise,
            ),
            r > 0,
    {
        match body {
            Some(text) => {
                match QuoteCodec::decode_price(text) {
                    Ok(p) => p,
                    Err(_) => Self::get_mock_stock_price(stock_code, noise),
                }
            },
            None => Self::get_mock_stock_price(stock_code, noise),
        }
    }

    /// The quote-source decision for one full-quote request: the decoded
    /// record when the body decodes, the synthetic record otherwise. It
    /// never fails, and the price it carries is always positive.
    pub fn info_from_response(stock_code: &str, body: Option<&str>, noise: u64, timestamp: i64) -> (r:
        StockInfo)
        ensures
            response_full_ok(body) ==> ({
                let fields = split_commas(quoted_payload(body->Some_0@)->Some_0);
                &&& r.name@ == fields[0]
                &&& r.open as int == price_or_zero(fields[1])
                &&& r.prev_close as int == price_or_zero(fields[2])
                &&& r.current_price as int == price_or_zero(fields[3])
                &&& r.high as int == price_or_zero(fields[4])
                &&& r.low as int == price_or_zero(fields[5])
                &&& r.volume == int_or_zero(fields[8])
                &&& r.turnover == turnover_or_zero(fields[9])
            }),
            !response_full_ok(body) ==> is_mock_info(stock_code@, noise, timestamp, r),
            r.code@ == stock_code@,
            r.timestamp == timestamp,
            r.current_price > 0,
            r.name@.len() > 0,
    {
        match body {
            Some(text) => {
                match QuoteCodec::decode_info(stock_code, text, timestamp) {
                    Ok(info) => info,
                    Err(_) => Self::get_mock_stock_info(stock_code, noise, timestamp),
                }
            },
            None => Self::get_mock_stock_info(stock_code, noise, timestamp),
        }
    }
}

/// Did the response body decode as a full record.
pub open spec fn response_full_ok(body: Option<&str>) -> bool {
    match body {
        Some(b) => full_quote_ok(b@),
        None => false,
    }
}

/// The fixed seed price of a well-known code, when there is one.
pub open spec fn seed_price(code: Seq<char>) -> Option<u64> {
    if code == "000001"@ {
        Some(125000u64)
    } else if code == "000002"@ {
        Some(88000u64)
    } else if code == "600036"@ {
        Some(352000u64)
    } else if code == "000858"@ {
        Some(1685000u64)
    } else if code == "600519"@ {
        Some(16800000u64)
    } else if code == "002415"@ {
        Some(423000u64)
    } else if code == "600276"@ {
        Some(589000u64)
    } else {
        None
    }
}

/// The synthetic base price: the seed of a known code, or a pseudo-price
/// between 10 and 15 currency units derived from the noise word.
pub open spec fn mock_base_price(code: Seq<char>, noise: u64) -> int {
    match seed_price(code) {
        Some(p) => p as int,
        None => 100000 + noise as int % 50001,
    }
}

/// The synthetic price: the base under a bounded perturbation of at most
/// five percent either way.
pub open spec fn mock_price(code: Seq<char>, noise: u64) -> int {
    mock_base_price(code, noise) * (9500 + noise as int % 1001) / 10000
}

/// The synthetic name of a code.
pub open spec fn mock_info_name(code: Seq<char>) -> Seq<char> {
    if code == "000001"@ {
        "平安银行"@
    } else if code == "000002"@ {
        "万科A"@
    } else if code == "600036"@ {
        "招商银行"@
    } else if code == "000858"@ {
        "五粮液"@
    } else if code == "600519"@ {
        "贵州茅台"@
    } else if code == "002415"@ {
        "海康威视"@
    } else if code == "600276"@ {
        "恒瑞医药"@
    } else {
        "未知股票"@
    }
}

/// The synthetic day-open price of a code.
pub open spec fn mock_info_open(code: Seq<char>) -> int {
    if code == "000001"@ {
        123000
    } else if code == "000002"@ {
        87500
    } else if code == "600036"@ {
        350000
    } else if code == "000858"@ {
        1672000
    } else if code == "600519"@ {
        16755000
    } else if code == "002415"@ {
        421000
    } else if code == "600276"@ {
        585000
    } else {
        100000
    }
}

/// The synthetic day-high price of a code.
pub open spec fn mock_info_high(code: Seq<char>) -> int {
    if code == "000001"@ {
        128000
    } else if code == "000002"@ {
        89500
    } else if code == "600036"@ {
        355000
    } else if code == "000858"@ {
        1703000
    } else if code == "600519"@ {
        16952000
    } else if code == "002415"@ {
        432000
    } else if code == "600276"@ {
        598000
    } else {
        110000
    }
}

/// The synthetic day-low price of a code.
pub open spec fn mock_info_low(code: Seq<char>) -> int {
    if code == "000001"@ {
        122000
    } else if code == "000002"@ {
        87000
    } else if code == "600036"@ {
        348000
    } else if code == "000858"@ {
        1668000
    } else if code == "600519"@ {
        16703000
    } else if code == "002415"@ {
        418000
    } else if code == "600276"@ {
        582000
    } else {
        95000
    }
}

/// The synthetic change since the previous close: at most half a currency
/// unit either way.
pub open spec fn mock_change(noise: u64) -> int {
    noise as int % 10001 - 5000
}

/// The synthetic cumulative volume.
pub open spec fn mock_volume(noise: u64) -> int {
    (noise as int / 7) % 1000001
}

/// The synthetic cumulative turnover, in whole currency units.
pub open spec fn mock_turnover(noise: u64) -> int {
    (noise as int / 11) % 100000001
}

/// Every field of a synthetic full quote, pinned to the code and the
/// noise word that made it.
pub open spec fn is_mock_info(code: Seq<char>, noise: u64, timestamp: i64, r: StockInfo) -> bool {
    &&& r.code@ == code
    &&& r.name@ == mock_info_name(code)
    &&& r.current_price as int == mock_base_price(code, noise)
    &&& r.prev_close as int == mock_base_price(code, noise) - mock_change(noise)
    &&& r.open as int == mock_info_open(code)
    &&& r.high as int == mock_info_high(code)
    &&& r.low as int == mock_info_low(code)
    &&& r.volume as int == mock_volume(noise)
    &&& r.turnover as int == mock_turnover(noise)
    &&& r.timestamp == timestamp
}

/// What the quote source yields for one price request: the decoded feed
/// price, or the synthetic price on a missing body or a decode failure.
pub open spec fn price_decision(code: Seq<char>, body: Option<Seq<char>>, noise: u64) -> int {
    match body {
        Some(text) => match decoded_price(text) {
            Ok(p) => p as int,
            Err(_) => mock_price(code, noise),
        },
        None => mock_price(code, noise),
    }
}

/// The codes of the synthetic search table, in table order.
pub open spec fn mock_search_codes() -> Seq<Seq<char>> {
    seq![
        "000001"@,
        "000002"@,
        "600000"@,
        "600036"@,
        "000858"@,
        "600519"@,
        "002415"@,
        "600276"@,
    ]
}

/// The names of the synthetic search table, in table order.
pub open spec fn mock_search_names() -> Seq<Seq<char>> {
    seq![
        "平安银行"@,
        "万科A"@,
        "浦发银行"@,
        "招商银行"@,
        "五粮液"@,
        "贵州茅台"@,
        "海康威视"@,
        "恒瑞医药"@,
    ]
}

/// The markets of the synthetic search table, in table order.
pub open spec fn mock_search_markets() -> Seq<Seq<char>> {
    seq!["SZ"@, "SZ"@, "SH"@, "SH"@, "SZ"@, "SH"@, "SZ"@, "SH"@]
}

/// Does table entry `i` match the query: by code or by name.
pub open spec fn search_match(q: Seq<char>, i: int) -> bool {
    contains_sub(mock_search_codes()[i], q) || contains_sub(mock_search_names()[i], q)
}

/// The matching entries among the first `n` of the table, in table order,
/// as (code, name, market) triples.
pub open spec fn mock_hits_upto(q: Seq<char>, n: int) -> Seq<(Seq<char>, Seq<char>, Seq<char>)>
    decreases n,
{
    if n <= 0 {
        Seq::empty()
    } else if search_match(q, n - 1) {
        mock_hits_upto(q, n - 1) + seq![
            (mock_search_codes()[n - 1], mock_search_names()[n - 1], mock_search_markets()[n - 1]),
        ]
    } else {
        mock_hits_upto(q, n - 1)
    }
}

/// Every entry of the synthetic search table that matches the query.
pub open spec fn mock_search_hits(q: Seq<char>) -> Seq<(Seq<char>, Seq<char>, Seq<char>)> {
    mock_hits_upto(q, 8)
}

/// Is `r` the search hit this (code, name, market) triple names.
pub open spec fn hit_is(r: StockSearchResult, e: (Seq<char>, Seq<char>, Seq<char>)) -> bool {
    &&& r.code@ == e.0
    &&& r.name@ == e.1
    &&& r.market@ == e.2
    &&& r.stock_type is Some
    &&& r.stock_type->0@ == "股票"@
}

/// Are `rs` exactly the synthetic hits of the query, in table order.
pub open spec fn is_mock_search(q: Seq<char>, rs: Seq<StockSearchResult>) -> bool {
    &&& rs.len() == mock_search_hits(q).len()
    &&& forall|j: int| 0 <= j < rs.len() ==> hit_is(#[trigger] rs[j], mock_search_hits(q)[j])
}

/// One table step keeps the hit list aligned with the table.
proof fn lemma_push_step(
    q: Seq<char>,
    k: int,
    v0: Seq<StockSearchResult>,
    v1: Seq<StockSearchResult>,
)
    requires
        0 <= k < 8,
        v0.len() == mock_hits_upto(q, k).len(),
        forall|j: int| 0 <= j < v0.len() ==> hit_is(#[trigger] v0[j], mock_hits_upto(q, k)[j]),
        search_match(q, k) ==> v1.len() == v0.len() + 1 && v1.subrange(0, v0.len() as int) == v0
            && hit_is(
            v1.last(),
            (mock_search_codes()[k], mock_search_names()[k], mock_search_markets()[k]),
        ),
        !search_match(q, k) ==> v1 == v0,
    ensures
        v1.len() == mock_hits_upto(q, k + 1).len(),
        forall|j: int| 0 <= j < v1.len() ==> hit_is(#[trigger] v1[j], mock_hits_upto(q, k + 1)[j]),
{
    if search_match(q, k) {
        let e = (mock_search_codes()[k], mock_search_names()[k], mock_search_markets()[k]);
        assert(mock_hits_upto(q, k + 1) == mock_hits_upto(q, k) + seq![e]);
        assert forall|j: int| 0 <= j < v1.len() implies hit_is(
            #[trigger] v1[j],
            mock_hits_upto(q, k + 1)[j],
        ) by {
            if j < v0.len() {
                assert(v1.subrange(0, v0.len() as int)[j] == v1[j]);
                assert(hit_is(v0[j], mock_hits_upto(q, k)[j]));
                assert(mock_hits_upto(q, k + 1)[j] == mock_hits_upto(q, k)[j]);
            } else {
                assert(v1[j] == v1.last());
                assert(mock_hits_upto(q, k + 1)[j] == e);
            }
        }
    } else {
        assert(mock_hits_upto(q, k + 1) == mock_hits_upto(q, k));
    }
}

impl StockApi {
    /// Append the table entry to the hits when it matches the query.
    fn push_hit(
        v: &mut Vec<StockSearchResult>,
        code: &str,
        name: &str,
        market: &str,
        query: &str,
    )
        ensures
            (contains_sub(code@, query@) || contains_sub(name@, query@)) ==> final(v)@.len()
                == old(v)@.len() + 1 && final(v)@.subrange(0, old(v)@.len() as int) == old(v)@
                && hit_is(final(v)@.last(), (code@, name@, market@)),
            !(contains_sub(code@, query@) || contains_sub(name@, query@)) ==> final(v)@ == old(
                v,
            )@,
    {
        if str_contains(code, query) || str_contains(name, query) {
            let hit = StockSearchResult {
                code: code.to_owned(),
                name: name.to_owned(),
                market: market.to_owned(),
                stock_type: Some(String::from_str("股票")),
            };
            v.push(hit);
            proof {
                assert(v@.subrange(0, old(v)@.len() as int) =~= old(v)@);
            }
        }
    }

    /// The synthetic search: every table entry whose code or name holds
    /// the query, in table order. The table holds eight entries, so the
    /// vendor's limit of ten hits never binds here.
    pub fn get_mock_stock_search(query: &str) -> (r: Vec<StockSearchResult>)
        ensures
            is_mock_search(query@, r@),
    {
        let mut v: Vec<StockSearchResult> = Vec::new();
        let ghost v0 = v@;
        Self::push_hit(&mut v, "000001", "平安银行", "SZ", query);
        proof {
            lemma_push_step(query@, 0, v0, v@);
        }
        let ghost v1 = v@;
        Self::push_hit(&mut v, "000002", "万科A", "SZ", query);
        proof {
            lemma_push_step(query@, 1, v1, v@);
        }
        let ghost v2 = v@;
        Self::push_hit(&mut v, "600000", "浦发银行", "SH", query);
        proof {
            lemma_push_step(query@, 2, v2, v@);
        }
        let ghost v3 = v@;
        Self::push_hit(&mut v, "600036", "招商银行", "SH", query);
        proof {
            lemma_push_step(query@, 3, v3, v@);
        }
        let ghost v4 = v@;
        Self::push_hit(&mut v, "000858", "五粮液", "SZ", query);
        proof {
            lemma_push_step(query@, 4, v4, v@);
        }
        let ghost v5 = v@;
        Self::push_hit(&mut v, "600519", "贵州茅台", "SH", query);
        proof {
            lemma_push_step(query@, 5, v5, v@);
        }
        let ghost v6 = v@;
        Self::push_hit(&mut v, "002415", "海康威视", "SZ", query);
        proof {
            lemma_push_step(query@, 6, v6, v@);
        }
        let ghost v7 = v@;
        Self::push_hit(&mut v, "600276", "恒瑞医药", "SH", query);
        proof {
            lemma_push_step(query@, 7, v7, v@);
        }
        v
    }

    /// The search decision: the fetched hits when the live search returned
    /// any, the synthetic table otherwise.
    pub fn search_from_response(query: &str, fetched: Option<Vec<StockSearchResult>>) -> (r: Vec<
        StockSearchResult,
    >)
        ensures
            (fetched matches Some(list) && list@.len() > 0) ==> r@ == fetched->0@,
            !(fetched matches Some(list) && list@.len() > 0) ==> is_mock_search(query@, r@),
    {
        match fetched {
            Some(list) => {
                if list.len() > 0 {
                    list
                } else {
                    Self::get_mock_stock_search(query)
                }
            },
            None => Self::get_mock_stock_search(query),
        }
    }
}

/// Law: the synthetic price stays within five percent of its base either
/// way, and is always positive.
pub proof fn lemma_mock_price_band(code: Seq<char>, noise: u64)
    ensures
        mock_price(code, noise) >= mock_base_price(code, noise) * 9500 / 10000,
        mock_price(code, noise) <= mock_base_price(code, noise) * 10500 / 10000,
        mock_price(code, noise) > 0,
{
    let base = mock_base_price(code, noise);
    let factor = 9500 + noise as int % 1001;
    assert(9500 <= factor <= 10500);
    assert(88000 <= base <= 16800000);
    vstd::arithmetic::mul::lemma_mul_left_inequality(base, 9500, factor);
    vstd::arithmetic::mul::lemma_mul_left_inequality(base, factor, 10500);
    lemma_div_is_ordered(base * 9500, base * factor, 10000);
    lemma_div_is_ordered(base * factor, base * 10500, 10000);
    lemma_mul_inequality(88000, base, 9500);
    lemma_div_is_ordered(88000int * 9500, base * 9500, 10000);
}

} // verus!
