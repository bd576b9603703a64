//! Verified core of a small equity-tracking tool.
//!
//! The crate covers the quote feed codec, the synthetic-quote fallback,
//! the target-price arithmetic with its threshold classification, and the
//! portfolio scan that turns positions and live prices into alert events.
//! Network and storage stay with the caller; every function here is pure
//! with respect to its arguments, except for the few trusted wrappers that
//! read the clock or call an outside encoder.

pub mod api;
pub mod clock;
pub mod codec;
pub mod errors;
pub mod models;
pub mod numtext;
pub mod scan;
pub mod stock_api;
pub mod text;
