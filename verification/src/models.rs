//! Data model: trades, quotes and evaluation results.
//!
//! Prices are fixed-point values scaled by [`crate::api::PRICE_SCALE`];
//! timestamps are Unix seconds.

use vstd::prelude::*;
use vstd::string::StringExecFns;
use crate::api::AlertSignal;

verus! {

/// One recorded purchase the user is tracking.
#[derive(Clone, Debug)]
pub struct Trade {
    pub id: Option<i64>,
    pub stock_code: String,
    pub stock_name: String,
    pub buy_price: u64,
    pub buy_time: i64,
    pub quantity: i32,
    pub notes: Option<String>,
    pub created_at: Option<i64>,
}

/// One user setting as the repository stores it.
#[derive(Clone, Debug)]
pub struct Settings {
    pub key: String,
    pub value: String,
}

/// One hit of a security search.
#[derive(Clone, Debug)]
pub struct StockSearchResult {
    pub code: String,
    pub name: String,
    pub market: String,
    pub stock_type: Option<String>,
}

/// The settings a fresh repository is seeded with: the buy-step fraction
/// and the annual return rate as decimal strings, and the feature
/// switches.
pub fn default_settings() -> (r: Vec<Settings>)
    ensures
        r@.len() == 8,
        r@[0].key@ == "buy_step_percentage"@ && r@[0].value@ == "0.05"@,
        r@[1].key@ == "annual_return_rate"@ && r@[1].value@ == "0.20"@,
        r@[2].key@ == "notification_enabled"@ && r@[2].value@ == "true"@,
        r@[3].key@ == "sound_enabled"@ && r@[3].value@ == "true"@,
        r@[4].key@ == "auto_backup_enabled"@ && r@[4].value@ == "false"@,
        r@[5].key@ == "backup_interval"@ && r@[5].value@ == "24"@,
        r@[6].key@ == "onedrive_enabled"@ && r@[6].value@ == "false"@,
        r@[7].key@ == "webdav_enabled"@ && r@[7].value@ == "false"@,
{
    let mut v: Vec<Settings> = Vec::new();
    v.push(
        Settings {
            key: String::from_str("buy_step_percentage"),
            value: String::from_str("0.05"),
        },
    );
    v.push(
        Settings { key: String::from_str("annual_return_rate"), value: String::from_str("0.20") },
    );
    v.push(
        Settings {
            key: String::from_str("notification_enabled"),
            value: String::from_str("true"),
        },
    );
    v.push(Settings { key: String::from_str("sound_enabled"), value: String::from_str("true") });
    v.push(
        Settings {
            key: String::from_str("auto_backup_enabled"),
            value: String::from_str("false"),
        },
    );
    v.push(Settings { key: String::from_str("backup_interval"), value: String::from_str("24") });
    v.push(Settings { key: String::from_str("onedrive_enabled"), value: String::from_str("false") });
    v.push(Settings { key: String::from_str("webdav_enabled"), value: String::from_str("false") });
    v
}

/// Signed change of a price against its previous close.
pub open spec fn change_value(current: int, prev_close: int) -> int {
    current - prev_close
}

/// Percentage change against the previous close, scaled by
/// [`crate::api::PRICE_SCALE`] and truncated toward zero; zero whenever
/// the previous close is not positive.
pub open spec fn change_percent_value(current: int, prev_close: int) -> int {
    if prev_close <= 0 {
        0
    } else if current >= prev_close {
        (current - prev_close) * 1000000 / prev_close
    } else {
        -((prev_close - current) * 1000000 / prev_close)
    }
}

/// A full market quote. The change and its percentage are derived, never
/// stored: they are recomputed from the stored prices, so they can never
/// drift from their inputs.
#[derive(Clone, Debug)]
pub struct StockInfo {
    pub code: String,
    pub name: String,
    pub current_price: u64,
    pub prev_close: u64,
    pub open: u64,
    pub high: u64,
    pub low: u64,
    pub volume: i64,
    pub turnover: i64,
    pub timestamp: i64,
}

impl StockInfo {
    /// Signed price change since the previous close.
    pub fn change(&self) -> (r: i128)
        ensures
            r == change_value(self.current_price as int, self.prev_close as int),
    {
        (self.current_price as i128) - (self.prev_close as i128)
    }

    /// Percentage change since the previous close, scaled by
    /// [`crate::api::PRICE_SCALE`].
    pub fn change_percent(&self) -> (r: i128)
        ensures
            r == change_percent_value(self.current_price as int, self.prev_close as int),
    {
        change_percent_of(self.current_price, self.prev_close)
    }
}

/// A trimmed quote: just the price against its previous close.
#[derive(Clone, Debug)]
pub struct StockPriceResponse {
    pub code: String,
    pub name: String,
    pub price: u64,
    pub prev_close: u64,
    pub timestamp: i64,
}

impl StockPriceResponse {
    /// Signed price change since the previous close.
    pub fn change(&self) -> (r: i128)
        ensures
            r == change_value(self.price as int, self.prev_close as int),
    {
        (self.price as i128) - (self.prev_close as i128)
    }

    /// Percentage change since the previous close, scaled by
    /// [`crate::api::PRICE_SCALE`].
    pub fn change_percent(&self) -> (r: i128)
        ensures
            r == change_percent_value(self.price as int, self.prev_close as int),
    {
        change_percent_of(self.price, self.prev_close)
    }

    /// The trimmed view of a full quote.
    pub fn from_info(info: &StockInfo) -> (r: StockPriceResponse)
        ensures
            r.code@ == info.code@,
            r.name@ == info.name@,
            r.price == info.current_price,
            r.prev_close == info.prev_close,
            r.timestamp == info.timestamp,
    {
        StockPriceResponse {
            code: info.code.clone(),
            name: info.name.clone(),
            price: info.current_price,
            prev_close: info.prev_close,
            timestamp: info.timestamp,
        }
    }
}

/// Shared computation under the two quote types.
fn change_percent_of(current: u64, prev_close: u64) -> (r: i128)
    ensures
        r == change_percent_value(current as int, prev_close as int),
{
    if prev_close == 0 {
        0
    } else if current >= prev_close {
        let diff: u128 = ((current - prev_close) as u128) * 1000000;
        (diff / (prev_close as u128)) as i128
    } else {
        let diff: u128 = ((prev_close - current) as u128) * 1000000;
        -((diff / (prev_close as u128)) as i128)
    }
}

/// What evaluating one position against a live price yields.
#[derive(Clone, Debug)]
pub struct PriceCalculation {
    pub sell_target_price: u64,
    pub buy_target_price: u64,
    pub days_since_purchase: i64,
    pub current_price: Option<u64>,
    pub price_reached: AlertSignal,
}

/// One alert raised by a portfolio scan.
#[derive(Clone, Debug)]
pub struct AlertEvent {
    pub trade_id: i64,
    pub stock_code: String,
    pub stock_name: String,
    pub signal: AlertSignal,
    pub threshold: u64,
    pub observed_price: u64,
    pub message: String,
}

} // verus!
