//! Decimal numerals as text: the pure core under the quote codec.
//!
//! The vendor wire format carries numbers as plain `.`-separated decimals,
//! and that shape is exactly the numeral grammar here: a price field is
//! one or more digits, optionally a dot and a run of digits — no sign, no
//! exponent, nothing else. Fraction digits beyond the fourth are
//! truncated, so a price below `0.0001` currency units reads as zero; a
//! volume or turnover field may open with a minus sign. This module gives
//! that grammar an exact meaning over `Seq<char>`, parses numerals into
//! fixed-point prices (scaled by `10_000`, see
//! [`crate::api::PRICE_SCALE`]), renders prices back to text — four exact
//! fraction digits for the wire, two rounded half-up for display — and
//! proves the two directions inverse to each other.

use vstd::prelude::*;
use vstd::arithmetic::div_mod::{lemma_fundamental_div_mod, lemma_div_pos_is_pos};
use vstd::arithmetic::mul::lemma_mul_inequality;
use vstd::string::{StrSliceExecFns, StringExecFns};

verus! {

/// Ten to the `k`.
pub open spec fn pow10(k: nat) -> int
    decreases k,
{
    if k == 0 {
        1
    } else {
        10 * pow10((k - 1) as nat)
    }
}

/// Is `c` an ASCII digit.
pub open spec fn is_digit_char(c: char) -> bool {
    48 <= c as int && c as int <= 57
}

/// Numeric value of an ASCII digit.
pub open spec fn digit_val(c: char) -> int {
    c as int - 48
}

/// The ASCII digit with value `d`.
pub open spec fn digit_char(d: int) -> char {
    if d == 0 {
        '0'
    } else if d == 1 {
        '1'
    } else if d == 2 {
        '2'
    } else if d == 3 {
        '3'
    } else if d == 4 {
        '4'
    } else if d == 5 {
        '5'
    } else if d == 6 {
        '6'
    } else if d == 7 {
        '7'
    } else if d == 8 {
        '8'
    } else {
        '9'
    }
}

/// Every character of `s` is an ASCII digit.
pub open spec fn all_digits(s: Seq<char>) -> bool {
    forall|i: int| 0 <= i < s.len() ==> is_digit_char(#[trigger] s[i])
}

/// Value of a digit string, most significant digit first; base ten.
pub open spec fn digits_val(s: Seq<char>) -> int
    decreases s.len(),
{
    if s.len() == 0 {
        0
    } else {
        digits_val(s.drop_last()) * 10 + digit_val(s.last())
    }
}

/// Index of the first occurrence of `c` in `s`, or `-1` when absent.
pub open spec fn find_first(s: Seq<char>, c: char) -> int
    decreases s.len(),
{
    if s.len() == 0 {
        -1
    } else if s[0] == c {
        0
    } else if find_first(s.drop_first(), c) == -1 {
        -1
    } else {
        1 + find_first(s.drop_first(), c)
    }
}

/// Index of the last occurrence of `c` in `s`, or `-1` when absent.
pub open spec fn find_last(s: Seq<char>, c: char) -> int
    decreases s.len(),
{
    if s.len() == 0 {
        -1
    } else if s.last() == c {
        s.len() - 1
    } else {
        find_last(s.drop_last(), c)
    }
}

pub proof fn lemma_find_first_props(s: Seq<char>, c: char)
    ensures
        find_first(s, c) == -1 ==> (forall|i: int| 0 <= i < s.len() ==> s[i] != c),
        find_first(s, c) != -1 ==> 0 <= find_first(s, c) < s.len(),
        find_first(s, c) != -1 ==> s[find_first(s, c)] == c,
        find_first(s, c) != -1 ==> (forall|i: int| 0 <= i < find_first(s, c) ==> s[i] != c),
    decreases s.len(),
{
    if s.len() > 0 && s[0] != c {
        lemma_find_first_props(s.drop_first(), c);
        let f = find_first(s.drop_first(), c);
        if f == -1 {
            assert forall|i: int| 0 <= i < s.len() implies s[i] != c by {
                if i > 0 {
                    assert(s.drop_first()[i - 1] != c);
                    assert(s.drop_first()[i - 1] == s[i]);
                }
            }
        } else {
            assert(s[1 + f] == s.drop_first()[f]);
            assert forall|i: int| 0 <= i < 1 + f implies s[i] != c by {
                if i > 0 {
                    assert(s.drop_first()[i - 1] != c);
                    assert(s.drop_first()[i - 1] == s[i]);
                }
            }
        }
    }
}

/// `find_first` returns the one index whose prefix is clean of `c`.
pub proof fn lemma_find_first_at(s: Seq<char>, c: char, k: int)
    requires
        0 <= k < s.len(),
        s[k] == c,
        forall|i: int| 0 <= i < k ==> s[i] != c,
    ensures
        find_first(s, c) == k,
    decreases s.len(),
{
    if k > 0 {
        assert(forall|i: int| 0 <= i < s.drop_first().len() ==> s.drop_first()[i] == s[i + 1]);
        lemma_find_first_at(s.drop_first(), c, k - 1);
    }
}

pub proof fn lemma_find_last_props(s: Seq<char>, c: char)
    ensures
        find_last(s, c) == -1 ==> (forall|i: int| 0 <= i < s.len() ==> s[i] != c),
        find_last(s, c) != -1 ==> 0 <= find_last(s, c) < s.len(),
        find_last(s, c) != -1 ==> s[find_last(s, c)] == c,
        find_last(s, c) != -1 ==> (forall|i: int| find_last(s, c) < i < s.len() ==> s[i] != c),
    decreases s.len(),
{
    if s.len() > 0 && s.last() != c {
        lemma_find_last_props(s.drop_last(), c);
        assert(forall|i: int| 0 <= i < s.drop_last().len() ==> s.drop_last()[i] == s[i]);
    }
}

/// `find_last` returns the one index whose suffix is clean of `c`.
pub proof fn lemma_find_last_at(s: Seq<char>, c: char, k: int)
    requires
        0 <= k < s.len(),
        s[k] == c,
        forall|i: int| k < i < s.len() ==> s[i] != c,
    ensures
        find_last(s, c) == k,
    decreases s.len(),
{
    if k < s.len() - 1 {
        assert(forall|i: int| 0 <= i < s.drop_last().len() ==> s.drop_last()[i] == s[i]);
        lemma_find_last_at(s.drop_last(), c, k);
    }
}

/// Is `s` an unsigned decimal numeral: one or more digits, optionally
/// followed by a dot and any run of digits (possibly none).
pub open spec fn is_decimal(s: Seq<char>) -> bool {
    let dot = find_first(s, '.');
    if dot == -1 {
        s.len() > 0 && all_digits(s)
    } else {
        dot > 0 && all_digits(s.take(dot)) && all_digits(s.skip(dot + 1))
    }
}

/// Fixed-point value of a run of fraction digits: the first four digits
/// are kept (padded with zeros on the right), the rest are truncated.
pub open spec fn frac_scaled(fr: Seq<char>) -> int {
    if fr.len() >= 4 {
        digits_val(fr.take(4))
    } else if fr.len() == 3 {
        digits_val(fr) * 10
    } else if fr.len() == 2 {
        digits_val(fr) * 100
    } else if fr.len() == 1 {
        digits_val(fr) * 1000
    } else {
        0
    }
}

/// Fixed-point value of a decimal numeral (scaled by ten thousand).
pub open spec fn decimal_value(s: Seq<char>) -> int {
    let dot = find_first(s, '.');
    if dot == -1 {
        digits_val(s) * 10000
    } else {
        digits_val(s.take(dot)) * 10000 + frac_scaled(s.skip(dot + 1))
    }
}

/// What parsing a price field yields: the fixed-point value when the text
/// is a decimal numeral whose value fits, and nothing otherwise.
pub open spec fn price_of_text(s: Seq<char>) -> Option<u64> {
    if is_decimal(s) && decimal_value(s) <= u64::MAX as int {
        Some(decimal_value(s) as u64)
    } else {
        None
    }
}

/// The shortest decimal numeral of a nonnegative integer.
pub open spec fn dec_str(n: int) -> Seq<char>
    recommends
        0 <= n,
    decreases n,
{
    if n < 10 {
        seq![digit_char(n)]
    } else {
        dec_str(n / 10).push(digit_char(n % 10))
    }
}

/// A digit character carries the value it was made from.
pub proof fn lemma_digit_roundtrip(d: int)
    requires
        0 <= d <= 9,
    ensures
        is_digit_char(digit_char(d)),
        digit_val(digit_char(d)) == d,
{
}

/// A rendered integer is a digit string carrying the integer back.
pub proof fn lemma_dec_str_wf(n: int)
    requires
        0 <= n,
    ensures
        dec_str(n).len() >= 1,
        all_digits(dec_str(n)),
        digits_val(dec_str(n)) == n,
    decreases n,
{
    if n < 10 {
        lemma_digit_roundtrip(n);
        let w = dec_str(n);
        assert(w =~= seq![digit_char(n)]);
        assert(w.drop_last() =~= Seq::<char>::empty());
        assert(w.last() == digit_char(n));
        assert(digits_val(w) == digits_val(Seq::<char>::empty()) * 10 + digit_val(digit_char(n)));
    } else {
        vstd::arithmetic::div_mod::lemma_div_decreases(n, 10);
        lemma_div_pos_is_pos(n, 10);
        lemma_dec_str_wf(n / 10);
        lemma_digit_roundtrip(n % 10);
        lemma_fundamental_div_mod(n, 10);
        let s = dec_str(n / 10);
        let w = s.push(digit_char(n % 10));
        assert(w.drop_last() =~= s);
        assert(w.last() == digit_char(n % 10));
        assert forall|i: int| 0 <= i < w.len() implies is_digit_char(w[i]) by {
            if i < s.len() {
                assert(w[i] == s[i]);
            }
        }
    }
}

/// Digit strings value nonnegatively.
pub proof fn lemma_digits_val_nonneg(s: Seq<char>)
    requires
        all_digits(s),
    ensures
        digits_val(s) >= 0,
    decreases s.len(),
{
    if s.len() > 0 {
        assert(forall|i: int| 0 <= i < s.drop_last().len() ==> s.drop_last()[i] == s[i]);
        lemma_digits_val_nonneg(s.drop_last());
        lemma_mul_inequality(0, digits_val(s.drop_last()), 10);
    }
}

/// Exactly four fraction digits, zero-padded on the left.
pub open spec fn pad4(f: int) -> Seq<char> {
    seq![
        digit_char(f / 1000 % 10),
        digit_char(f / 100 % 10),
        digit_char(f / 10 % 10),
        digit_char(f % 10),
    ]
}

/// Exactly two digits, zero-padded on the left.
pub open spec fn pad2(f: int) -> Seq<char> {
    seq![digit_char(f / 10 % 10), digit_char(f % 10)]
}

/// A price as a numeral carrying all four fraction digits.
pub open spec fn price_str_4(p: int) -> Seq<char> {
    dec_str(p / 10000) + seq!['.'] + pad4(p % 10000)
}

/// A price rounded half-up to two decimals, as alert messages show it.
pub open spec fn price_str_2(p: int) -> Seq<char> {
    dec_str((p + 50) / 100 / 100) + seq!['.'] + pad2((p + 50) / 100 % 100)
}

/// The one-character numeral of a digit value.
pub fn digit_str(d: u64) -> (r: &'static str)
    requires
        d <= 9,
    ensures
        r@ == seq![digit_char(d as int)],
{
    proof {
        reveal_strlit("0");
        reveal_strlit("1");
        reveal_strlit("2");
        reveal_strlit("3");
        reveal_strlit("4");
        reveal_strlit("5");
        reveal_strlit("6");
        reveal_strlit("7");
        reveal_strlit("8");
        reveal_strlit("9");
    }
    let r: &'static str = if d == 0 {
        "0"
    } else if d == 1 {
        "1"
    } else if d == 2 {
        "2"
    } else if d == 3 {
        "3"
    } else if d == 4 {
        "4"
    } else if d == 5 {
        "5"
    } else if d == 6 {
        "6"
    } else if d == 7 {
        "7"
    } else if d == 8 {
        "8"
    } else {
        "9"
    };
    proof {
        assert(r@ =~= seq![digit_char(d as int)]);
    }
    r
}

/// Render an integer as its shortest decimal numeral.
pub fn u64_to_string(n: u64) -> (r: String)
    ensures
        r@ == dec_str(n as int),
    decreases n,
{
    if n < 10 {
        String::from_str(digit_str(n))
    } else {
        proof {
            vstd::arithmetic::div_mod::lemma_div_decreases(n as int, 10);
            lemma_div_pos_is_pos(n as int, 10);
        }
        let mut s = u64_to_string(n / 10);
        s.append(digit_str(n % 10));
        proof {
            assert(s@ =~= dec_str(n as int));
        }
        s
    }
}

/// Render a price with all four fraction digits, ready for the feed shape.
pub fn format_price_4(p: u64) -> (r: String)
    ensures
        r@ == price_str_4(p as int),
{
    let mut s = u64_to_string(p / 10000);
    s.append(".");
    let f: u64 = p % 10000;
    s.append(digit_str(f / 1000 % 10));
    s.append(digit_str(f / 100 % 10));
    s.append(digit_str(f / 10 % 10));
    s.append(digit_str(f % 10));
    proof {
        reveal_strlit(".");
        assert(s@ =~= price_str_4(p as int));
    }
    s
}

/// Render a price rounded half-up to two decimals, for display.
pub fn format_price_2(p: u64) -> (r: String)
    ensures
        r@ == price_str_2(p as int),
{
    let hundredths: u64 = (((p as u128) + 50) / 100) as u64;
    let mut s = u64_to_string(hundredths / 100);
    s.append(".");
    let f: u64 = hundredths % 100;
    s.append(digit_str(f / 10 % 10));
    s.append(digit_str(f % 10));
    proof {
        reveal_strlit(".");
        assert(s@ =~= price_str_2(p as int));
    }
    s
}

/// Extending a digit prefix never shrinks its value.
pub proof fn lemma_digits_val_take_mono(s: Seq<char>, i: int, j: int)
    requires
        all_digits(s),
        0 <= i <= j <= s.len(),
    ensures
        digits_val(s.take(i)) <= digits_val(s.take(j)),
    decreases j - i,
{
    if i < j {
        lemma_digits_val_take_mono(s, i, j - 1);
        let a = s.take(j - 1);
        let b = s.take(j);
        assert(b.drop_last() =~= a);
        assert(forall|k: int| 0 <= k < a.len() ==> a[k] == s[k]);
        lemma_digits_val_nonneg(a);
        lemma_mul_inequality(1, 10, digits_val(a));
    }
}

/// A digit string values below ten to its length.
pub proof fn lemma_digits_val_upper(s: Seq<char>)
    requires
        all_digits(s),
    ensures
        digits_val(s) < pow10(s.len()),
    decreases s.len(),
{
    if s.len() == 0 {
    } else {
        assert(forall|i: int| 0 <= i < s.drop_last().len() ==> s.drop_last()[i] == s[i]);
        lemma_digits_val_upper(s.drop_last());
        lemma_mul_inequality(digits_val(s.drop_last()), pow10(s.drop_last().len()) - 1, 10);
    }
}

/// First index of `c` in `s`, as [`find_first`] names it.
pub fn find_first_in_str(s: &str, c: char) -> (r: Option<usize>)
    ensures
        r is Some ==> r->Some_0 as int == find_first(s@, c) && r->Some_0 < s@.len(),
        r is None ==> find_first(s@, c) == -1,
{
    let n = s.unicode_len();
    let mut i: usize = 0;
    while i < n
        invariant
            i <= n,
            n == s@.len(),
            forall|j: int| 0 <= j < i ==> s@[j] != c,
        decreases n - i,
    {
        if s.get_char(i) == c {
            proof {
                lemma_find_first_at(s@, c, i as int);
            }
            return Some(i);
        }
        i += 1;
    }
    proof {
        lemma_find_first_props(s@, c);
    }
    None
}

/// Last index of `c` in `s`, as [`find_last`] names it.
pub fn find_last_in_str(s: &str, c: char) -> (r: Option<usize>)
    ensures
        r is Some ==> r->Some_0 as int == find_last(s@, c) && r->Some_0 < s@.len(),
        r is None ==> find_last(s@, c) == -1,
{
    let n = s.unicode_len();
    let mut i: usize = n;
    while i > 0
        invariant
            i <= n,
            n == s@.len(),
            forall|j: int| i <= j < n ==> s@[j] != c,
        decreases i,
    {
        i -= 1;
        if s.get_char(i) == c {
            proof {
                lemma_find_last_at(s@, c, i as int);
            }
            return Some(i);
        }
    }
    proof {
        lemma_find_last_props(s@, c);
    }
    None
}

/// Are the characters of `s` between `from` and `to` all digits.
pub fn scan_digits(s: &str, from: usize, to: usize) -> (r: bool)
    requires
        from <= to <= s@.len(),
    ensures
        r == all_digits(s@.subrange(from as int, to as int)),
{
    let ghost t = s@.subrange(from as int, to as int);
    let mut i: usize = from;
    while i < to
        invariant
            from <= i <= to <= s@.len(),
            t == s@.subrange(from as int, to as int),
            forall|j: int| 0 <= j < i - from ==> is_digit_char(#[trigger] t[j]),
        decreases to - i,
    {
        let c = s.get_char(i);
        proof {
            assert(t[i - from] == s@[i as int]);
        }
        let u: u32 = c as u32;
        if u < 48 || u > 57 {
            proof {
                assert(!is_digit_char(t[i - from]));
            }
            return false;
        }
        i += 1;
    }
    true
}

/// Value of a digit run, unless it exceeds the largest fixed-point price.
pub fn digits_value(s: &str, from: usize, to: usize) -> (r: Option<u64>)
    requires
        from <= to <= s@.len(),
        all_digits(s@.subrange(from as int, to as int)),
    ensures
        r is Some ==> r->Some_0 as int == digits_val(s@.subrange(from as int, to as int)),
        r is None ==> digits_val(s@.subrange(from as int, to as int)) > u64::MAX,
{
    let ghost t = s@.subrange(from as int, to as int);
    let mut acc: u64 = 0;
    let mut i: usize = from;
    while i < to
        invariant
            from <= i <= to <= s@.len(),
            t == s@.subrange(from as int, to as int),
            all_digits(t),
            acc as int == digits_val(t.take(i - from)),
        decreases to - i,
    {
        let c = s.get_char(i);
        proof {
            assert(t[i - from] == s@[i as int]);
            assert(is_digit_char(t[i - from]));
        }
        let d: u64 = (c as u32 - 48) as u64;
        let big: u128 = (acc as u128) * 10 + (d as u128);
        proof {
            let k = i - from;
            assert(t.take(k + 1).drop_last() =~= t.take(k));
            assert(t.take(k + 1).last() == t[k]);
            assert(digits_val(t.take(k + 1)) == digits_val(t.take(k)) * 10 + digit_val(t[k]));
        }
        if big > u64::MAX as u128 {
            proof {
                lemma_digits_val_take_mono(t, i - from + 1, t.len() as int);
                assert(t.take(t.len() as int) =~= t);
            }
            return None;
        }
        acc = big as u64;
        i += 1;
    }
    proof {
        assert(t.take(i - from) =~= t);
    }
    Some(acc)
}

/// Parse a price field: the fixed-point value of a decimal numeral.
pub fn parse_price_str(s: &str) -> (r: Option<u64>)
    ensures
        r == price_of_text(s@),
{
    let n = s.unicode_len();
    let dot = find_first_in_str(s, '.');
    let int_end: usize;
    let frac_begin: usize;
    match dot {
        Some(d) => {
            if d == 0 {
                return None;
            }
            int_end = d;
            frac_begin = d + 1;
        },
        None => {
            if n == 0 {
                return None;
            }
            int_end = n;
            frac_begin = n;
        },
    }
    if !scan_digits(s, 0, int_end) {
        proof {
            assert(s@.subrange(0, int_end as int) =~= s@.take(int_end as int));
            assert(dot is None ==> s@.take(int_end as int) =~= s@);
        }
        return None;
    }
    if !scan_digits(s, frac_begin, n) {
        proof {
            assert(s@.subrange(frac_begin as int, n as int) =~= s@.skip(frac_begin as int));
        }
        return None;
    }
    let ghost ip = s@.subrange(0, int_end as int);
    let ghost fr = s@.subrange(frac_begin as int, n as int);
    proof {
        assert(ip =~= s@.take(int_end as int));
        assert(fr =~= s@.skip(frac_begin as int));
        assert(dot is None ==> ip =~= s@);
        assert(is_decimal(s@));
    }
    let int_val: u64 = match digits_value(s, 0, int_end) {
        Some(v) => v,
        None => {
            proof {
                lemma_frac_scaled_nonneg(fr);
                lemma_mul_inequality(1, 10000, digits_val(ip));
            }
            return None;
        },
    };
    let frac_count: usize = n - frac_begin;
    let frac_take: usize = if frac_count >= 4 {
        frac_begin + 4
    } else {
        n
    };
    proof {
        assert(s@.subrange(frac_begin as int, frac_take as int) =~= fr.take(
            frac_take - frac_begin,
        ));
        assert(forall|j: int| 0 <= j < frac_take - frac_begin ==> fr.take(
            frac_take - frac_begin,
        )[j] == fr[j]);
        lemma_digits_val_upper(fr.take(frac_take - frac_begin));
        lemma_pow10_small();
    }
    let frac_val: u64 = match digits_value(s, frac_begin, frac_take) {
        Some(v) => v,
        None => {
            proof {
                assert(false);
            }
            0
        },
    };
    let frac_scaled_val: u64 = if frac_count == 0 {
        0
    } else if frac_count == 1 {
        frac_val * 1000
    } else if frac_count == 2 {
        frac_val * 100
    } else if frac_count == 3 {
        frac_val * 10
    } else {
        frac_val
    };
    proof {
        if frac_count >= 4 {
            assert(fr.take(4) =~= fr.take(frac_take - frac_begin));
        } else {
            assert(fr.take(frac_take - frac_begin) =~= fr);
        }
        assert(frac_scaled_val as int == frac_scaled(fr));
        if dot is None {
            assert(frac_scaled(fr) == 0);
        }
    }
    let total: u128 = (int_val as u128) * 10000 + (frac_scaled_val as u128);
    if total > u64::MAX as u128 {
        return None;
    }
    proof {
        if dot is None {
            assert(decimal_value(s@) == digits_val(ip) * 10000);
        }
        assert(decimal_value(s@) == total as int);
    }
    Some(total as u64)
}

/// Is `s` a signed integer numeral: an optional minus sign, then digits.
pub open spec fn is_int_numeral(s: Seq<char>) -> bool {
    if s.len() > 0 && s[0] == '-' {
        s.len() > 1 && all_digits(s.skip(1))
    } else {
        s.len() > 0 && all_digits(s)
    }
}

/// Value of a signed integer numeral.
pub open spec fn int_numeral_value(s: Seq<char>) -> int {
    if s.len() > 0 && s[0] == '-' {
        -digits_val(s.skip(1))
    } else {
        digits_val(s)
    }
}

/// What parsing an integer field yields: the value when the text is a
/// signed numeral that fits a 64-bit integer, nothing otherwise.
pub open spec fn int64_of_text(s: Seq<char>) -> Option<i64> {
    if is_int_numeral(s) && i64::MIN <= int_numeral_value(s) <= i64::MAX {
        Some(int_numeral_value(s) as i64)
    } else {
        None
    }
}

/// What parsing a turnover field yields: the whole-unit part of a signed
/// decimal numeral, truncated toward zero, when the text is one whose
/// magnitude fits, and nothing otherwise.
pub open spec fn turnover_of_text(s: Seq<char>) -> Option<i64> {
    if s.len() > 0 && s[0] == '-' {
        match price_of_text(s.skip(1)) {
            Some(v) => Some((-(v as int / 10000)) as i64),
            None => None,
        }
    } else {
        match price_of_text(s) {
            Some(v) => Some((v as int / 10000) as i64),
            None => None,
        }
    }
}

/// Parse an integer field: the value of a signed numeral.
pub fn parse_int64_str(s: &str) -> (r: Option<i64>)
    ensures
        r == int64_of_text(s@),
{
    let n = s.unicode_len();
    if n == 0 {
        return None;
    }
    let neg: bool = s.get_char(0) == '-';
    let start: usize = if neg {
        1
    } else {
        0
    };
    if start == n {
        return None;
    }
    proof {
        if neg {
            assert(s@.subrange(1, n as int) =~= s@.skip(1));
        } else {
            assert(s@.subrange(0, n as int) =~= s@);
        }
    }
    if !scan_digits(s, start, n) {
        return None;
    }
    let mag: u64 = match digits_value(s, start, n) {
        Some(v) => v,
        None => {
            return None;
        },
    };
    if neg {
        if mag > 9223372036854775808u64 {
            None
        } else if mag == 9223372036854775808u64 {
            Some(i64::MIN)
        } else {
            Some(-(mag as i64))
        }
    } else {
        if mag > 9223372036854775807u64 {
            None
        } else {
            Some(mag as i64)
        }
    }
}

/// Parse a turnover field: a signed decimal numeral truncated to whole
/// currency units.
pub fn parse_turnover_str(s: &str) -> (r: Option<i64>)
    ensures
        r == turnover_of_text(s@),
{
    let n = s.unicode_len();
    let neg: bool = n > 0 && s.get_char(0) == '-';
    if neg {
        let rest = s.substring_char(1, n);
        proof {
            assert(rest@ =~= s@.skip(1));
        }
        match parse_price_str(rest) {
            Some(v) => {
                let whole: u64 = v / 10000;
                Some(-(whole as i64))
            },
            None => None,
        }
    } else {
        match parse_price_str(s) {
            Some(v) => Some((v / 10000) as i64),
            None => None,
        }
    }
}

/// Ten to the small powers used by the fraction cases.
pub proof fn lemma_pow10_small()
    ensures
        pow10(0) == 1,
        pow10(1) == 10,
        pow10(2) == 100,
        pow10(3) == 1000,
        pow10(4) == 10000,
{
    assert(pow10(0) == 1);
    assert(pow10(1) == 10);
    assert(pow10(2) == 100);
    assert(pow10(3) == 1000);
    assert(pow10(4) == 10000);
}

/// The scaled fraction of a digit run is never negative.
pub proof fn lemma_frac_scaled_nonneg(fr: Seq<char>)
    requires
        all_digits(fr),
    ensures
        frac_scaled(fr) >= 0,
{
    if fr.len() >= 4 {
        assert(forall|i: int| 0 <= i < fr.take(4).len() ==> fr.take(4)[i] == fr[i]);
        lemma_digits_val_nonneg(fr.take(4));
    } else {
        lemma_digits_val_nonneg(fr);
        lemma_mul_inequality(0, digits_val(fr), 1000);
        lemma_mul_inequality(0, digits_val(fr), 100);
        lemma_mul_inequality(0, digits_val(fr), 10);
    }
}

/// The four padded fraction digits carry their value back.
pub proof fn lemma_pad4_val(f: int)
    requires
        0 <= f < 10000,
    ensures
        all_digits(pad4(f)),
        pad4(f).len() == 4,
        digits_val(pad4(f)) == f,
{
    let d3 = f / 1000 % 10;
    let d2 = f / 100 % 10;
    let d1 = f / 10 % 10;
    let d0 = f % 10;
    lemma_digit_roundtrip(d3);
    lemma_digit_roundtrip(d2);
    lemma_digit_roundtrip(d1);
    lemma_digit_roundtrip(d0);
    let q = pad4(f);
    assert(all_digits(q)) by {
        assert(q[0] == digit_char(d3));
        assert(q[1] == digit_char(d2));
        assert(q[2] == digit_char(d1));
        assert(q[3] == digit_char(d0));
    }
    // expose digits_val(q) as the nested base-ten sum
    let q1 = seq![digit_char(d3)];
    let q2 = seq![digit_char(d3), digit_char(d2)];
    let q3 = seq![digit_char(d3), digit_char(d2), digit_char(d1)];
    assert(q1.drop_last() =~= Seq::<char>::empty());
    assert(q2.drop_last() =~= q1);
    assert(q3.drop_last() =~= q2);
    assert(q.drop_last() =~= q3);
    assert(digits_val(Seq::<char>::empty()) == 0);
    assert(digits_val(q1) == d3);
    assert(digits_val(q2) == d3 * 10 + d2);
    assert(digits_val(q3) == (d3 * 10 + d2) * 10 + d1);
    assert(digits_val(q) == ((d3 * 10 + d2) * 10 + d1) * 10 + d0);
    // decompose f into those digits
    lemma_fundamental_div_mod(f, 10);
    lemma_fundamental_div_mod(f / 10, 10);
    lemma_fundamental_div_mod(f / 100, 10);
    vstd::arithmetic::div_mod::lemma_div_denominator(f, 10, 10);
    vstd::arithmetic::div_mod::lemma_div_denominator(f, 100, 10);
    assert(f / 1000 <= 9) by {
        vstd::arithmetic::div_mod::lemma_div_is_ordered(f, 9999, 1000);
    }
    lemma_div_pos_is_pos(f, 1000);
    vstd::arithmetic::div_mod::lemma_small_mod((f / 1000) as nat, 10);
}

/// The largest whole-unit turnover whose fixed-point value still fits,
/// `u64::MAX / 10_000`.
pub const MAX_WHOLE_TURNOVER: i64 = 1_844_674_407_370_955;

/// A digit string holds no dot.
pub proof fn lemma_digits_have_no_dot(s: Seq<char>)
    requires
        all_digits(s),
    ensures
        find_first(s, '.') == -1,
{
    lemma_find_first_props(s, '.');
    if find_first(s, '.') != -1 {
        assert(is_digit_char(s[find_first(s, '.')]));
    }
}

/// Law: rendering a nonnegative integer and parsing the text back as an
/// integer field yields the same value.
pub proof fn lemma_int_text_roundtrip(v: i64)
    requires
        0 <= v,
    ensures
        int64_of_text(dec_str(v as int)) == Some(v),
{
    lemma_dec_str_wf(v as int);
    let s = dec_str(v as int);
    assert(is_digit_char(s[0]));
    assert(s[0] != '-');
}

/// Law: rendering a whole-unit turnover and parsing the text back as a
/// turnover field yields the same value.
pub proof fn lemma_turnover_text_roundtrip(t: i64)
    requires
        0 <= t <= MAX_WHOLE_TURNOVER,
    ensures
        turnover_of_text(dec_str(t as int)) == Some(t),
{
    lemma_dec_str_wf(t as int);
    let s = dec_str(t as int);
    assert(is_digit_char(s[0]));
    assert(s[0] != '-');
    lemma_digits_have_no_dot(s);
    assert(is_decimal(s));
    assert(decimal_value(s) == t as int * 10000);
    assert(price_of_text(s) == Some((t as int * 10000) as u64));
    vstd::arithmetic::div_mod::lemma_div_multiples_vanish(t as int, 10000);
}

/// Law: rendering a price with all four fraction digits and parsing the
/// text back yields the same price.
pub proof fn lemma_price_text_roundtrip(p: u64)
    ensures
        price_of_text(price_str_4(p as int)) == Some(p),
{
    let n = p as int;
    let a = dec_str(n / 10000);
    let f = n % 10000;
    let s = price_str_4(n);
    lemma_div_pos_is_pos(n, 10000);
    lemma_dec_str_wf(n / 10000);
    lemma_pad4_val(f);
    // the first dot stands right after the integer digits
    assert(s[a.len() as int] == '.');
    assert forall|i: int| 0 <= i < a.len() implies s[i] != '.' by {
        assert(s[i] == a[i]);
        assert(is_digit_char(a[i]));
    }
    lemma_find_first_at(s, '.', a.len() as int);
    assert(s.take(a.len() as int) =~= a);
    assert(s.skip(a.len() as int + 1) =~= pad4(f));
    assert(pad4(f).take(4) =~= pad4(f));
    assert(is_decimal(s));
    assert(decimal_value(s) == digits_val(a) * 10000 + f);
    lemma_fundamental_div_mod(n, 10000);
}

} // verus!
