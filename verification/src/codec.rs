//! Codec for the vendor quote feed.
//!
//! A feed body looks like `var hq_str_sh600000="name,open,prev,cur,...";`.
//! Decoding reads the text between the first and the last double quote and
//! splits it on commas: at least four fields give a price-only record, at
//! least ten a full record (name, open, previous close, current, high,
//! low, bid, ask, volume, turnover). A numeric field must be a plain
//! `.`-separated decimal as the wire format sends it (see
//! [`crate::numtext`]); a field in any other shape counts as unparseable —
//! zero in the full record, a hard `MalformedFeed` for the current-price
//! field of the price-only shape. Encoding writes the same shape back for
//! the synthetic path and for tests.

use vstd::prelude::*;
use vstd::string::{StrSliceExecFns, StringExecFns};
use crate::errors::TraderError;
use crate::models::StockInfo;
use crate::numtext::{
    find_first, find_last, find_first_in_str, find_last_in_str, price_of_text, int64_of_text,
    turnover_of_text, parse_price_str, parse_int64_str, parse_turnover_str,
    lemma_find_first_props, lemma_find_first_at, lemma_find_last_at, price_str_4, dec_str,
    format_price_4, u64_to_string, all_digits, is_digit_char, lemma_dec_str_wf, lemma_pad4_val,
    lemma_price_text_roundtrip,
};
use vstd::arithmetic::div_mod::lemma_div_pos_is_pos;

verus! {

/// The text between the first and the last double quote of a feed body,
/// when the two are distinct characters.
pub open spec fn quoted_payload(text: Seq<char>) -> Option<Seq<char>> {
    let a = find_first(text, '"');
    let b = find_last(text, '"');
    if a < 0 || b <= a {
        None
    } else {
        Some(text.subrange(a + 1, b))
    }
}

/// `s` split on commas: one more piece than there are commas, and no
/// piece holds a comma.
pub open spec fn split_commas(s: Seq<char>) -> Seq<Seq<char>>
    decreases s.len(),
    via split_commas_decreases
{
    let i = find_first(s, ',');
    if i < 0 {
        seq![s]
    } else {
        seq![s.take(i)] + split_commas(s.skip(i + 1))
    }
}

#[via_fn]
proof fn split_commas_decreases(s: Seq<char>) {
    lemma_find_first_props(s, ',');
}

/// A price field that fails to parse falls back to zero.
pub open spec fn price_or_zero(s: Seq<char>) -> u64 {
    match price_of_text(s) {
        Some(v) => v,
        None => 0,
    }
}

/// An integer field that fails to parse falls back to zero.
pub open spec fn int_or_zero(s: Seq<char>) -> i64 {
    match int64_of_text(s) {
        Some(v) => v,
        None => 0,
    }
}

/// A turnover field that fails to parse falls back to zero.
pub open spec fn turnover_or_zero(s: Seq<char>) -> i64 {
    match turnover_of_text(s) {
        Some(v) => v,
        None => 0,
    }
}

/// What decoding a feed body in the price-only shape yields: the fourth
/// field as a positive price, `MalformedFeed` when the shape or that
/// field is broken, `EmptyQuote` when the price is zero.
pub open spec fn decoded_price(text: Seq<char>) -> Result<u64, TraderError> {
    match quoted_payload(text) {
        None => Err(TraderError::MalformedFeed),
        Some(payload) => {
            let fields = split_commas(payload);
            if fields.len() < 4 {
                Err(TraderError::MalformedFeed)
            } else {
                match price_of_text(fields[3]) {
                    None => Err(TraderError::MalformedFeed),
                    Some(p) => if p > 0 {
                        Ok(p)
                    } else {
                        Err(TraderError::EmptyQuote)
                    },
                }
            }
        },
    }
}

/// Does a feed body decode as a full record: a quoted payload of at least
/// ten fields, a positive current price and a non-empty name.
pub open spec fn full_quote_ok(text: Seq<char>) -> bool {
    match quoted_payload(text) {
        None => false,
        Some(payload) => {
            let fields = split_commas(payload);
            &&& fields.len() >= 10
            &&& price_or_zero(fields[3]) > 0
            &&& fields[0].len() > 0
        },
    }
}

/// The error of a failing full-record decode: `MalformedFeed` for a
/// broken shape, `EmptyQuote` for sentinel values.
pub open spec fn full_quote_err(text: Seq<char>) -> TraderError {
    match quoted_payload(text) {
        None => TraderError::MalformedFeed,
        Some(payload) => {
            if split_commas(payload).len() < 10 {
                TraderError::MalformedFeed
            } else {
                TraderError::EmptyQuote
            }
        },
    }
}

/// Stateless codec for the vendor feed.
pub struct QuoteCodec;

impl QuoteCodec {
    /// The quoted payload of a feed body, when one exists.
    pub fn extract_payload<'a>(text: &'a str) -> (r: Option<&'a str>)
        ensures
            r is Some ==> quoted_payload(text@) == Some(r->Some_0@),
            r is None ==> quoted_payload(text@) is None,
    {
        let a = match find_first_in_str(text, '"') {
            Some(i) => i,
            None => {
                return None;
            },
        };
        let b = match find_last_in_str(text, '"') {
            Some(j) => j,
            None => {
                return None;
            },
        };
        if b <= a {
            return None;
        }
        Some(text.substring_char(a + 1, b))
    }

    /// A payload split on commas into owned fields.
    pub fn split_fields(payload: &str) -> (r: Vec<String>)
        ensures
            r.deep_view() == split_commas(payload@),
        decreases payload@.len(),
    {
        let mut v: Vec<String> = Vec::new();
        match find_first_in_str(payload, ',') {
            None => {
                v.push(payload.to_owned());
                proof {
                    assert(v.deep_view() =~= split_commas(payload@));
                }
            },
            Some(i) => {
                let n = payload.unicode_len();
                let head = payload.substring_char(0, i);
                let tail = payload.substring_char(i + 1, n);
                proof {
                    assert(head@ =~= payload@.take(i as int));
                    assert(tail@ =~= payload@.skip(i as int + 1));
                }
                let mut rest = Self::split_fields(tail);
                v.push(head.to_owned());
                v.append(&mut rest);
                proof {
                    assert(v.deep_view() =~= split_commas(payload@));
                }
            },
        }
        v
    }

    /// Decode a feed body in the price-only shape.
    pub fn decode_price(text: &str) -> (r: Result<u64, TraderError>)
        ensures
            r == decoded_price(text@),
    {
        let payload = match Self::extract_payload(text) {
            Some(p) => p,
            None => {
                return Err(TraderError::MalformedFeed);
            },
        };
        let fields = Self::split_fields(payload);
        if fields.len() < 4 {
            return Err(TraderError::MalformedFeed);
        }
        proof {
            assert(fields.deep_view()[3] == fields@[3]@);
        }
        match parse_price_str(fields[3].as_str()) {
            None => Err(TraderError::MalformedFeed),
            Some(p) => {
                if p > 0 {
                    Ok(p)
                } else {
                    Err(TraderError::EmptyQuote)
                }
            },
        }
    }

    /// Decode a feed body as a full record. The caller passes the security
    /// code it asked for and the observation time; every field of the
    /// result is pinned to the corresponding payload field.
    pub fn decode_info(code: &str, text: &str, timestamp: i64) -> (r: Result<
        StockInfo,
        TraderError,
    >)
        ensures
            r is Ok <==> full_quote_ok(text@),
            r is Err ==> r->Err_0 == full_quote_err(text@),
            r is Ok ==> {
                let fields = split_commas(quoted_payload(text@)->Some_0);
                &&& r->Ok_0.code@ == code@
                &&& r->Ok_0.name@ == fields[0]
                &&& r->Ok_0.open == price_or_zero(fields[1])
                &&& r->Ok_0.prev_close == price_or_zero(fields[2])
                &&& r->Ok_0.current_price == price_or_zero(fields[3])
                &&& r->Ok_0.high == price_or_zero(fields[4])
                &&& r->Ok_0.low == price_or_zero(fields[5])
                &&& r->Ok_0.volume == int_or_zero(fields[8])
                &&& r->Ok_0.turnover == turnover_or_zero(fields[9])
                &&& r->Ok_0.timestamp == timestamp
            },
    {
        let payload = match Self::extract_payload(text) {
            Some(p) => p,
            None => {
                return Err(TraderError::MalformedFeed);
            },
        };
        let fields = Self::split_fields(payload);
        if fields.len() < 10 {
            return Err(TraderError::MalformedFeed);
        }
        proof {
            assert(fields.deep_view()[0] == fields@[0]@);
            assert(fields.deep_view()[1] == fields@[1]@);
            assert(fields.deep_view()[2] == fields@[2]@);
            assert(fields.deep_view()[3] == fields@[3]@);
            assert(fields.deep_view()[4] == fields@[4]@);
            assert(fields.deep_view()[5] == fields@[5]@);
            assert(fields.deep_view()[8] == fields@[8]@);
            assert(fields.deep_view()[9] == fields@[9]@);
        }
        let current_price = Self::price_field(&fields, 3);
        if current_price == 0 {
            return Err(TraderError::EmptyQuote);
        }
        if fields[0].as_str().is_empty() {
            return Err(TraderError::EmptyQuote);
        }
        let volume: i64 = match parse_int64_str(fields[8].as_str()) {
            Some(v) => v,
            None => 0,
        };
        let turnover: i64 = match parse_turnover_str(fields[9].as_str()) {
            Some(v) => v,
            None => 0,
        };
        Ok(
            StockInfo {
                code: code.to_owned(),
                name: fields[0].clone(),
                current_price,
                prev_close: Self::price_field(&fields, 2),
                open: Self::price_field(&fields, 1),
                high: Self::price_field(&fields, 4),
                low: Self::price_field(&fields, 5),
                volume,
                turnover,
                timestamp,
            },
        )
    }

    /// One price field of a split payload, zero when it does not parse.
    fn price_field(fields: &Vec<String>, i: usize) -> (r: u64)
        requires
            i < fields@.len(),
        ensures
            r == price_or_zero(fields.deep_view()[i as int]),
    {
        proof {
            assert(fields.deep_view()[i as int] == fields@[i as int]@);
        }
        match parse_price_str(fields[i].as_str()) {
            Some(v) => v,
            None => 0,
        }
    }

    /// Render the CSV payload of a quote, bid and ask written as zero.
    pub fn encode_info_csv(info: &StockInfo) -> (r: String)
        requires
            info.volume >= 0,
            info.turnover >= 0,
        ensures
            r@ == info_csv_text(
                info.name@,
                info.open as int,
                info.prev_close as int,
                info.current_price as int,
                info.high as int,
                info.low as int,
                info.volume as int,
                info.turnover as int,
            ),
    {
        let mut s = info.name.clone();
        s.append(",");
        s.append(format_price_4(info.open).as_str());
        s.append(",");
        s.append(format_price_4(info.prev_close).as_str());
        s.append(",");
        s.append(format_price_4(info.current_price).as_str());
        s.append(",");
        s.append(format_price_4(info.high).as_str());
        s.append(",");
        s.append(format_price_4(info.low).as_str());
        s.append(",");
        s.append("0");
        s.append(",");
        s.append("0");
        s.append(",");
        s.append(u64_to_string(info.volume as u64).as_str());
        s.append(",");
        s.append(u64_to_string(info.turnover as u64).as_str());
        proof {
            reveal_strlit(",");
            reveal_strlit("0");
            assert(s@ =~= info_csv_text(
                info.name@,
                info.open as int,
                info.prev_close as int,
                info.current_price as int,
                info.high as int,
                info.low as int,
                info.volume as int,
                info.turnover as int,
            ));
        }
        s
    }

    /// Wrap a CSV payload in the feed body shape for a routed code.
    pub fn encode_feed_body(routed_code: &str, payload: &str) -> (r: String)
        ensures
            r@ == feed_body_text(routed_code@, payload@),
    {
        let mut s = String::from_str("var hq_str_");
        s.append(routed_code);
        s.append("=\"");
        s.append(payload);
        s.append("\";");
        proof {
            reveal_strlit("var hq_str_");
            reveal_strlit("=\"");
            reveal_strlit("\";");
            reveal_strlit("=");
            assert(s@ =~= feed_body_text(routed_code@, payload@));
        }
        s
    }
}

/// The vendor CSV payload of a quote: the ten standard fields, prices
/// carrying all four fraction digits, bid and ask written as zero, the
/// turnover as whole currency units.
pub open spec fn info_csv_text(
    name: Seq<char>,
    open: int,
    prev_close: int,
    current: int,
    high: int,
    low: int,
    volume: int,
    turnover: int,
) -> Seq<char> {
    name + seq![','] + price_str_4(open) + seq![','] + price_str_4(prev_close) + seq![',']
        + price_str_4(current) + seq![','] + price_str_4(high) + seq![','] + price_str_4(low)
        + seq![','] + seq!['0'] + seq![','] + seq!['0'] + seq![','] + dec_str(volume) + seq![',']
        + dec_str(turnover)
}

/// A whole feed body around a payload, as the vendor writes it.
pub open spec fn feed_body_text(routed_code: Seq<char>, payload: Seq<char>) -> Seq<char> {
    "var hq_str_"@ + routed_code + "="@ + seq!['"'] + payload + seq!['"'] + seq![';']
}

/// Splitting text that opens with a comma-free piece peels that piece.
pub proof fn lemma_split_first(a: Seq<char>, rest: Seq<char>)
    requires
        forall|i: int| 0 <= i < a.len() ==> a[i] != ',',
    ensures
        split_commas(a + seq![','] + rest) == seq![a] + split_commas(rest),
{
    let s = a + seq![','] + rest;
    assert(s[a.len() as int] == ',');
    assert forall|i: int| 0 <= i < a.len() implies s[i] != ',' by {
        assert(s[i] == a[i]);
    }
    lemma_find_first_at(s, ',', a.len() as int);
    assert(s.take(a.len() as int) =~= a);
    assert(s.skip(a.len() as int + 1) =~= rest);
}

/// Digit runs hold neither comma nor quote.
pub proof fn lemma_digits_clean(s: Seq<char>)
    requires
        all_digits(s),
    ensures
        forall|i: int| 0 <= i < s.len() ==> s[i] != ',' && s[i] != '"',
{
    assert forall|i: int| 0 <= i < s.len() implies s[i] != ',' && s[i] != '"' by {
        assert(is_digit_char(s[i]));
    }
}

/// Rendered prices hold neither comma nor quote.
pub proof fn lemma_price_str_4_clean(p: int)
    requires
        0 <= p,
    ensures
        forall|i: int| 0 <= i < price_str_4(p).len() ==> price_str_4(p)[i] != ','
            && price_str_4(p)[i] != '"',
{
    lemma_div_pos_is_pos(p, 10000);
    lemma_dec_str_wf(p / 10000);
    lemma_pad4_val(p % 10000);
    let a = dec_str(p / 10000);
    let q = crate::numtext::pad4(p % 10000);
    let w = price_str_4(p);
    assert(w =~= a + seq!['.'] + q);
    assert forall|i: int| 0 <= i < w.len() implies w[i] != ',' && w[i] != '"' by {
        if i < a.len() {
            assert(w[i] == a[i]);
            assert(is_digit_char(a[i]));
        } else if i == a.len() {
            assert(w[i] == '.');
        } else {
            assert(w[i] == q[i - a.len() - 1]);
            assert(is_digit_char(q[i - a.len() - 1]));
        }
    }
}

/// A comma-free text is one whole piece.
pub proof fn lemma_split_single(a: Seq<char>)
    requires
        forall|i: int| 0 <= i < a.len() ==> a[i] != ',',
    ensures
        split_commas(a) == seq![a],
{
    lemma_find_first_props(a, ',');
}

/// An encoded feed body carries exactly its CSV payload between its two
/// quotes, and that payload splits back into the ten encoded fields. The
/// name may not hold a comma or a quote, and the routed code may not hold
/// a quote, as real codes and names do not.
#[verifier::rlimit(100)]
#[verifier::spinoff_prover]
pub proof fn lemma_encoded_fields(
    code: Seq<char>,
    name: Seq<char>,
    open: u64,
    prev_close: u64,
    current: u64,
    high: u64,
    low: u64,
    volume: i64,
    turnover: i64,
)
    requires
        volume >= 0,
        turnover >= 0,
        forall|i: int| 0 <= i < code.len() ==> code[i] != '"',
        forall|i: int| 0 <= i < name.len() ==> name[i] != ',' && name[i] != '"',
    ensures
        ({
            let csv = info_csv_text(
                name,
                open as int,
                prev_close as int,
                current as int,
                high as int,
                low as int,
                volume as int,
                turnover as int,
            );
            &&& quoted_payload(feed_body_text(code, csv)) == Some(csv)
            &&& split_commas(csv) == seq![
                name,
                price_str_4(open as int),
                price_str_4(prev_close as int),
                price_str_4(current as int),
                price_str_4(high as int),
                price_str_4(low as int),
                seq!['0'],
                seq!['0'],
                dec_str(volume as int),
                dec_str(turnover as int),
            ]
        }),
{
    let csv = info_csv_text(
        name,
        open as int,
        prev_close as int,
        current as int,
        high as int,
        low as int,
        volume as int,
        turnover as int,
    );
    let body = feed_body_text(code, csv);
    reveal_strlit("var hq_str_");
    reveal_strlit("=");
    let head = "var hq_str_"@ + code + "="@;
    assert(body =~= head + seq!['"'] + csv + seq!['"'] + seq![';']);

    // every csv character is clean of quotes
    let comma = seq![','];
    let zero = seq!['0'];
    let f_open = price_str_4(open as int);
    let f_prev = price_str_4(prev_close as int);
    let f_cur = price_str_4(current as int);
    let f_high = price_str_4(high as int);
    let f_low = price_str_4(low as int);
    let f_vol = dec_str(volume as int);
    let f_turn = dec_str(turnover as int);
    lemma_price_str_4_clean(open as int);
    lemma_price_str_4_clean(prev_close as int);
    lemma_price_str_4_clean(current as int);
    lemma_price_str_4_clean(high as int);
    lemma_price_str_4_clean(low as int);
    lemma_dec_str_wf(volume as int);
    lemma_dec_str_wf(turnover as int);
    lemma_digits_clean(f_vol);
    lemma_digits_clean(f_turn);

    let tail3 = f_vol + comma + f_turn;
    let tail4 = zero + comma + tail3;
    let tail5 = zero + comma + tail4;
    let tail6 = f_low + comma + tail5;
    let tail7 = f_high + comma + tail6;
    let tail8 = f_cur + comma + tail7;
    let tail9 = f_prev + comma + tail8;
    let tail10 = f_open + comma + tail9;
    assert(csv =~= name + comma + tail10);

    assert forall|i: int| 0 <= i < csv.len() implies csv[i] != '"' by {
        lemma_csv_chunk_index(name, f_open, f_prev, f_cur, f_high, f_low, f_vol, f_turn, csv, i);
    }

    // the two wrapping quotes are the first and the last quote of the body
    let a = head.len() as int;
    let b = head.len() + 1 + csv.len() as int;
    assert(body[a] == '"');
    assert(body[b] == '"');
    assert forall|i: int| 0 <= i < a implies body[i] != '"' by {
        if i < "var hq_str_"@.len() {
            assert(body[i] == "var hq_str_"@[i]);
        } else if i < "var hq_str_"@.len() + code.len() {
            assert(body[i] == code[i - "var hq_str_"@.len()]);
        } else {
            assert(body[i] == '=');
        }
    }
    assert forall|i: int| a < i < b implies body[i] != '"' by {
        assert(body[i] == csv[i - a - 1]);
    }
    assert forall|i: int| b < i < body.len() implies body[i] != '"' by {
        assert(body[i] == ';');
    }
    lemma_find_first_at(body, '"', a);
    lemma_find_last_at(body, '"', b);
    assert(body.subrange(a + 1, b) =~= csv);
    assert(quoted_payload(body) == Some(csv));

    // peel the ten fields, one leading comma-free piece at a time
    assert(forall|i: int| 0 <= i < zero.len() ==> zero[i] != ',');
    lemma_split_first(name, tail10);
    lemma_split_first(f_open, tail9);
    lemma_split_first(f_prev, tail8);
    lemma_split_first(f_cur, tail7);
    lemma_split_first(f_high, tail6);
    lemma_split_first(f_low, tail5);
    lemma_split_first(zero, tail4);
    lemma_split_first(zero, tail3);
    lemma_split_first(f_vol, f_turn);
    lemma_split_single(f_turn);
    let fields = split_commas(csv);
    assert(fields =~= seq![
        name,
        f_open,
        f_prev,
        f_cur,
        f_high,
        f_low,
        zero,
        zero,
        f_vol,
        f_turn,
    ]);
}

/// Law (round trip): a feed body written by the encoder around a quote's
/// fields decodes, on the price-only path, back to the same current
/// price.
pub proof fn lemma_feed_roundtrip_price(
    code: Seq<char>,
    name: Seq<char>,
    open: u64,
    prev_close: u64,
    current: u64,
    high: u64,
    low: u64,
    volume: i64,
    turnover: i64,
)
    requires
        current > 0,
        volume >= 0,
        turnover >= 0,
        forall|i: int| 0 <= i < code.len() ==> code[i] != '"',
        forall|i: int| 0 <= i < name.len() ==> name[i] != ',' && name[i] != '"',
    ensures
        decoded_price(
            feed_body_text(
                code,
                info_csv_text(
                    name,
                    open as int,
                    prev_close as int,
                    current as int,
                    high as int,
                    low as int,
                    volume as int,
                    turnover as int,
                ),
            ),
        ) == Ok::<u64, TraderError>(current),
{
    lemma_encoded_fields(code, name, open, prev_close, current, high, low, volume, turnover);
    lemma_price_text_roundtrip(current);
}

/// Law (round trip, full record): a feed body written by the encoder
/// decodes as a full record, and every encoded field — name, the five
/// prices, the volume and the whole-unit turnover — parses back to the
/// value it was written from. Together with `QuoteCodec::decode_info`'s
/// contract this pins the decoded quote to the encoded one.
pub proof fn lemma_feed_roundtrip_info(
    code: Seq<char>,
    name: Seq<char>,
    open: u64,
    prev_close: u64,
    current: u64,
    high: u64,
    low: u64,
    volume: i64,
    turnover: i64,
)
    requires
        current > 0,
        name.len() > 0,
        volume >= 0,
        0 <= turnover <= crate::numtext::MAX_WHOLE_TURNOVER,
        forall|i: int| 0 <= i < code.len() ==> code[i] != '"',
        forall|i: int| 0 <= i < name.len() ==> name[i] != ',' && name[i] != '"',
    ensures
        ({
            let body = feed_body_text(
                code,
                info_csv_text(
                    name,
                    open as int,
                    prev_close as int,
                    current as int,
                    high as int,
                    low as int,
                    volume as int,
                    turnover as int,
                ),
            );
            let fields = split_commas(quoted_payload(body)->Some_0);
            &&& full_quote_ok(body)
            &&& fields[0] == name
            &&& price_or_zero(fields[1]) == open
            &&& price_or_zero(fields[2]) == prev_close
            &&& price_or_zero(fields[3]) == current
            &&& price_or_zero(fields[4]) == high
            &&& price_or_zero(fields[5]) == low
            &&& int_or_zero(fields[8]) == volume
            &&& turnover_or_zero(fields[9]) == turnover
        }),
{
    lemma_encoded_fields(code, name, open, prev_close, current, high, low, volume, turnover);
    lemma_price_text_roundtrip(open);
    lemma_price_text_roundtrip(prev_close);
    lemma_price_text_roundtrip(current);
    lemma_price_text_roundtrip(high);
    lemma_price_text_roundtrip(low);
    crate::numtext::lemma_int_text_roundtrip(volume);
    crate::numtext::lemma_turnover_text_roundtrip(turnover);
}

/// Any character of the assembled CSV payload comes from one of its
/// chunks: a field, a separating comma, or a zero placeholder.
proof fn lemma_csv_chunk_index(
    name: Seq<char>,
    f_open: Seq<char>,
    f_prev: Seq<char>,
    f_cur: Seq<char>,
    f_high: Seq<char>,
    f_low: Seq<char>,
    f_vol: Seq<char>,
    f_turn: Seq<char>,
    csv: Seq<char>,
    i: int,
)
    requires
        csv =~= name + seq![','] + f_open + seq![','] + f_prev + seq![','] + f_cur + seq![',']
            + f_high + seq![','] + f_low + seq![','] + seq!['0'] + seq![','] + seq!['0']
            + seq![','] + f_vol + seq![','] + f_turn,
        0 <= i < csv.len(),
        forall|j: int| 0 <= j < name.len() ==> name[j] != '"',
        forall|j: int| 0 <= j < f_open.len() ==> f_open[j] != '"',
        forall|j: int| 0 <= j < f_prev.len() ==> f_prev[j] != '"',
        forall|j: int| 0 <= j < f_cur.len() ==> f_cur[j] != '"',
        forall|j: int| 0 <= j < f_high.len() ==> f_high[j] != '"',
        forall|j: int| 0 <= j < f_low.len() ==> f_low[j] != '"',
        forall|j: int| 0 <= j < f_vol.len() ==> f_vol[j] != '"',
        forall|j: int| 0 <= j < f_turn.len() ==> f_turn[j] != '"',
    ensures
        csv[i] != '"',
{
}

} // verus!
