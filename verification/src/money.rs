//! Money as integer minor units (cents).
//!
//! Every amount in memory is a whole number of minor units, so sums and
//! products of amounts are exact. Text is turned into minor units and back
//! only here. Not every currency has two decimal places, and
//! `decimal_places_for` is the one place that knows which has how many.

use crate::text::{
    all_ascii, all_digits, ascii_upper, decimal, digit_char, digits_value, find, find_from, i64_text, is_digit, is_white, magnitude,
    push_decimal, range_is_digits, range_value, remove_char, signed_decimal, ten_to, to_chars, to_uppercase, trim,
    trim_end, trim_start, trimmed, uppercase, without,
};
use vstd::prelude::*;

verus! {

/// Currencies without a minor unit.
pub open spec fn zero_decimal(code: Seq<char>) -> bool {
    ||| code == "JPY"@
    ||| code == "KRW"@
    ||| code == "VND"@
    ||| code == "UGX"@
    ||| code == "RWF"@
    ||| code == "XOF"@
    ||| code == "XAF"@
    ||| code == "BIF"@
    ||| code == "DJF"@
    ||| code == "GNF"@
    ||| code == "KMF"@
    ||| code == "MGA"@
    ||| code == "PYG"@
    ||| code == "VUV"@
    ||| code == "CLP"@
}

/// Currencies whose minor unit is a thousandth.
pub open spec fn three_decimal(code: Seq<char>) -> bool {
    ||| code == "BHD"@
    ||| code == "IQD"@
    ||| code == "JOD"@
    ||| code == "KWD"@
    ||| code == "OMR"@
    ||| code == "TND"@
}

/// The decimal places of a currency whose code is already in upper case.
pub open spec fn places_of_upper(code: Seq<char>) -> nat {
    if zero_decimal(code) {
        0
    } else if three_decimal(code) {
        3
    } else {
        2
    }
}

/// The decimal places of a currency; the case of the code does not matter.
pub open spec fn places_of(code: Seq<char>) -> nat {
    places_of_upper(uppercase(code))
}

/// Whether `s` is one of `list`.
fn one_of(s: &String, list: &[&str]) -> (b: bool)
    ensures
        b == exists|i: int| 0 <= i < list@.len() && s@ == (#[trigger] list@[i])@,
{
    let mut i: usize = 0;
    while i < list.len()
        invariant
            i <= list@.len(),
            forall|k: int| 0 <= k < i ==> s@ != (#[trigger] list@[k])@,
        decreases list@.len() - i,
    {
        if *s == list[i].to_owned() {
            return true;
        }
        i = i + 1;
    }
    false
}

/// The decimal places of a currency whose code is already in upper case.
pub fn decimal_places_for_upper(code: &String) -> (places: u32)
    ensures
        places == places_of_upper(code@),
{
    let zero = [
        "JPY", "KRW", "VND", "UGX", "RWF", "XOF", "XAF", "BIF", "DJF", "GNF", "KMF", "MGA", "PYG", "VUV", "CLP",
    ];
    let three = ["BHD", "IQD", "JOD", "KWD", "OMR", "TND"];
    proof {
        assert(zero@[0] == "JPY" && zero@[1] == "KRW" && zero@[2] == "VND" && zero@[3] == "UGX" && zero@[4]
            == "RWF" && zero@[5] == "XOF" && zero@[6] == "XAF" && zero@[7] == "BIF" && zero@[8] == "DJF"
            && zero@[9] == "GNF" && zero@[10] == "KMF" && zero@[11] == "MGA" && zero@[12] == "PYG" && zero@[13]
            == "VUV" && zero@[14] == "CLP");
        assert(three@[0] == "BHD" && three@[1] == "IQD" && three@[2] == "JOD" && three@[3] == "KWD" && three@[4]
            == "OMR" && three@[5] == "TND");
    }
    if one_of(code, &zero) {
        0
    } else if one_of(code, &three) {
        3
    } else {
        2
    }
}

/// Minor-unit decimal places of an ISO 4217 currency code, in any letter
/// case. Two for every code that is not a known exception.
pub fn decimal_places_for(currency_code: &str) -> (places: u32)
    ensures
        places == places_of(currency_code@),
        all_ascii(currency_code@) ==> places == places_of_upper(currency_code@.map_values(|c: char| ascii_upper(c))),
        places == 0 || places == 2 || places == 3,
{
    let code = to_uppercase(currency_code);
    decimal_places_for_upper(&code)
}

// ---------------------------------------------------------------------------
// Text to minor units
// ---------------------------------------------------------------------------

/// Why a text is not an amount.
#[derive(Clone, Copy, PartialEq, Eq, Structural, Debug)]
pub enum MoneyError {
    /// There is nothing but white space and thousands separators.
    Required,
    /// More digits behind the point than the currency has.
    TooPrecise,
    /// Something other than digits and one point, no digit at all, or a whole
    /// part beyond 64 bits.
    Invalid,
    /// The amount does not fit in 64 bits.
    OutOfRange,
}

/// The text without its leading minus signs.
pub open spec fn undashed(s: Seq<char>) -> Seq<char>
    decreases s.len(),
{
    if s.len() > 0 && s[0] == '-' {
        undashed(s.drop_first())
    } else {
        s
    }
}

/// The bytes that a character takes in UTF-8.
pub open spec fn utf8_width(c: char) -> nat {
    let n = c as u32;
    if n < 0x80 {
        1
    } else if n < 0x800 {
        2
    } else if n < 0x10000 {
        3
    } else {
        4
    }
}

/// The bytes that a text takes in UTF-8.
pub open spec fn utf8_len(s: Seq<char>) -> nat
    decreases s.len(),
{
    if s.len() == 0 {
        0
    } else {
        utf8_len(s.drop_last()) + utf8_width(s.last())
    }
}

/// The minor units of digits before and behind the point.
pub open spec fn minor_units(whole: Seq<char>, frac: Seq<char>, places: nat) -> nat {
    digits_value(whole) * ten_to(places) + digits_value(frac) * ten_to((places - frac.len()) as nat)
}

/// What an unsigned amount writes, in minor units.
pub open spec fn unsigned_amount(u: Seq<char>, places: nat) -> Result<int, MoneyError> {
    let k = find(u, '.');
    let whole = u.take(k);
    let frac = if k < u.len() {
        u.skip(k + 1)
    } else {
        Seq::empty()
    };
    if utf8_len(frac) > places {
        Err(MoneyError::TooPrecise)
    } else if !all_digits(whole) || !all_digits(frac) {
        Err(MoneyError::Invalid)
    } else if whole.len() == 0 && frac.len() == 0 {
        Err(MoneyError::Invalid)
    } else if digits_value(whole) > i64::MAX {
        Err(MoneyError::Invalid)
    } else if minor_units(whole, frac, places) > i64::MAX {
        Err(MoneyError::OutOfRange)
    } else {
        Ok(minor_units(whole, frac, places) as int)
    }
}

/// What a human-typed amount writes, in minor units of a currency with that
/// many decimal places: commas are thousands separators and count for
/// nothing, white space around is ignored, leading minus signs make it
/// negative.
pub open spec fn amount_of(input: Seq<char>, places: nat) -> Result<int, MoneyError> {
    let t = trimmed(without(input, ','));
    if t.len() == 0 {
        Err(MoneyError::Required)
    } else {
        match unsigned_amount(undashed(t), places) {
            Ok(cents) => Ok(
                if t[0] == '-' {
                    -cents
                } else {
                    cents
                },
            ),
            Err(e) => Err(e),
        }
    }
}

/// The bytes that the characters from `lo` on take in UTF-8.
fn utf8_len_from(v: &Vec<char>, lo: usize) -> (n: u128)
    requires
        lo <= v@.len(),
    ensures
        n == utf8_len(v@.skip(lo as int)),
{
    let mut n: u128 = 0;
    let mut i: usize = lo;
    let ghost all = v@.skip(lo as int);
    while i < v.len()
        invariant
            lo <= i <= v@.len(),
            all == v@.skip(lo as int),
            n == utf8_len(all.take(i - lo)),
            n <= 4 * (i - lo),
        decreases v@.len() - i,
    {
        assert(all.take(i - lo + 1).drop_last() =~= all.take(i - lo));
        let c: u32 = v[i] as u32;
        let w: u128 = if c < 0x80 {
            1
        } else if c < 0x800 {
            2
        } else if c < 0x10000 {
            3
        } else {
            4
        };
        n = n + w;
        i = i + 1;
    }
    assert(all.take(all.len() as int) =~= all);
    n
}

/// Ten to the power of `n`, for the few decimal places that a currency has.
fn scale_of(n: u32) -> (scale: i64)
    requires
        n <= 3,
    ensures
        scale == ten_to(n as nat),
        1 <= scale <= 1000,
{
    proof {
        reveal_with_fuel(ten_to, 4);
    }
    if n == 0 {
        1
    } else if n == 1 {
        10
    } else if n == 2 {
        100
    } else {
        1000
    }
}

/// A text holds at least as many bytes as characters.
proof fn lemma_utf8_len(s: Seq<char>)
    ensures
        utf8_len(s) >= s.len(),
    decreases s.len(),
{
    if s.len() > 0 {
        lemma_utf8_len(s.drop_last());
    }
}

/// Parses an unsigned amount, `v` being its characters.
fn parse_unsigned(v: &Vec<char>, places: u32) -> (r: Result<i64, MoneyError>)
    requires
        places <= 3,
    ensures
        match r {
            Ok(cents) => cents >= 0 && unsigned_amount(v@, places as nat) == Ok::<int, MoneyError>(cents as int),
            Err(e) => unsigned_amount(v@, places as nat) == Err::<int, MoneyError>(e),
        },
{
    let k: usize = find_from(v, 0, '.');
    let flo: usize = if k < v.len() {
        k + 1
    } else {
        k
    };
    proof {
        assert(v@.skip(0) =~= v@);
        assert(v@.subrange(0, k as int) =~= v@.take(k as int));
        assert(v@.subrange(flo as int, v@.len() as int) =~= v@.skip(flo as int));
        if k >= v@.len() {
            assert(v@.skip(flo as int) =~= Seq::<char>::empty());
        }
        lemma_utf8_len(v@.skip(flo as int));
    }
    let ghost whole = v@.take(k as int);
    let ghost frac = v@.skip(flo as int);
    if utf8_len_from(v, flo) > places as u128 {
        return Err(MoneyError::TooPrecise);
    }
    if !range_is_digits(v, 0, k) || !range_is_digits(v, flo, v.len()) {
        return Err(MoneyError::Invalid);
    }
    if k == 0 && flo == v.len() {
        return Err(MoneyError::Invalid);
    }
    match range_value(v, 0, k) {
        None => Err(MoneyError::Invalid),
        Some(whole_val) => {
            let scale: i64 = scale_of(places);
            let pad: i64 = scale_of(places - (v.len() - flo) as u32);
            proof {
                crate::text::lemma_digits_value_bound(frac);
                reveal_with_fuel(ten_to, 4);
                assert(digits_value(frac) * pad <= 1000 * 1000) by (nonlinear_arith)
                    requires
                        digits_value(frac) <= 1000,
                        0 <= pad <= 1000,
                ;
            }
            match range_value(v, flo, v.len()) {
                None => {
                    assert(false);
                    Err(MoneyError::OutOfRange)
                },
                Some(frac_val) => {
                    let frac_units: i64 = frac_val * pad;
                    match whole_val.checked_mul(scale) {
                        None => {
                            assert(whole_val * scale >= 0) by (nonlinear_arith)
                                requires
                                    whole_val >= 0,
                                    scale >= 1,
                            ;
                            Err(MoneyError::OutOfRange)
                        },
                        Some(units) => {
                            assert(units >= 0) by (nonlinear_arith)
                                requires
                                    units == whole_val * scale,
                                    whole_val >= 0,
                                    scale >= 1,
                            ;
                            match units.checked_add(frac_units) {
                                None => Err(MoneyError::OutOfRange),
                                Some(cents) => Ok(cents),
                            }
                        },
                    }
                },
            }
        },
    }
}

/// The characters behind the leading minus signs.
fn undash(t: &Vec<char>) -> (u: Vec<char>)
    ensures
        u@ == undashed(t@),
{
    let mut lo: usize = 0;
    assert(t@.skip(0) =~= t@);
    while lo < t.len() && t[lo] == '-'
        invariant
            lo <= t@.len(),
            undashed(t@) == undashed(t@.skip(lo as int)),
        decreases t@.len() - lo,
    {
        assert(t@.skip(lo as int).drop_first() =~= t@.skip(lo + 1));
        lo = lo + 1;
    }
    let mut u: Vec<char> = Vec::new();
    let mut i: usize = lo;
    while i < t.len()
        invariant
            lo <= i <= t@.len(),
            u@ == t@.subrange(lo as int, i as int),
        decreases t@.len() - i,
    {
        u.push(t[i]);
        i = i + 1;
    }
    assert(u@ =~= t@.skip(lo as int));
    u
}

/// Parses an amount in a currency with that many decimal places.
pub fn parse_with_places(input: &str, places: u32) -> (r: Result<i64, MoneyError>)
    requires
        places <= 3,
    ensures
        match r {
            Ok(cents) => amount_of(input@, places as nat) == Ok::<int, MoneyError>(cents as int),
            Err(e) => amount_of(input@, places as nat) == Err::<int, MoneyError>(e),
        },
{
    let plain = remove_char(input, ',');
    let t = to_chars(trim(plain.as_str()).as_str());
    if t.len() == 0 {
        return Err(MoneyError::Required);
    }
    let negative: bool = t[0] == '-';
    let u = undash(&t);
    match parse_unsigned(&u, places) {
        Ok(cents) => {
            if negative {
                Ok(-cents)
            } else {
                Ok(cents)
            }
        },
        Err(e) => Err(e),
    }
}

/// Parses a human-typed decimal text into integer minor units of a currency.
/// Anything with more fractional digits than the currency has is refused,
/// never rounded.
pub fn parse_money_input(input: &str, currency_code: &str) -> (r: Result<i64, MoneyError>)
    ensures
        match r {
            Ok(cents) => amount_of(input@, places_of(currency_code@)) == Ok::<int, MoneyError>(cents as int),
            Err(e) => amount_of(input@, places_of(currency_code@)) == Err::<int, MoneyError>(e),
        },
{
    parse_with_places(input, decimal_places_for(currency_code))
}

/// The sentence that tells a person what is wrong with the amount.
pub open spec fn money_error_message(e: MoneyError, input: Seq<char>, code: Seq<char>) -> Seq<char> {
    match e {
        MoneyError::Required => "amount is required"@,
        MoneyError::TooPrecise => "'"@ + input + "' has more precision than "@ + code + " supports ("@
            + decimal(places_of(code)) + " decimal places)"@,
        MoneyError::Invalid => "'"@ + input + "' is not a valid amount"@,
        MoneyError::OutOfRange => "'"@ + input + "' is out of range"@,
    }
}

/// The sentence that tells a person what is wrong with the amount.
pub fn money_error_text(e: MoneyError, input: &str, currency_code: &str) -> (s: String)
    ensures
        s@ == money_error_message(e, input@, currency_code@),
{
    match e {
        MoneyError::Required => "amount is required".to_owned(),
        MoneyError::TooPrecise => {
            let mut s = "'".to_owned();
            s.append(input);
            s.append("' has more precision than ");
            s.append(currency_code);
            s.append(" supports (");
            push_decimal(&mut s, decimal_places_for(currency_code) as u64);
            s.append(" decimal places)");
            s
        },
        MoneyError::Invalid => {
            let mut s = "'".to_owned();
            s.append(input);
            s.append("' is not a valid amount");
            s
        },
        MoneyError::OutOfRange => {
            let mut s = "'".to_owned();
            s.append(input);
            s.append("' is out of range");
            s
        },
    }
}

// ---------------------------------------------------------------------------
// Minor units to text
// ---------------------------------------------------------------------------

/// The last `width` decimal digits of a number, with leading zeros.
pub open spec fn fixed_digits(n: nat, width: nat) -> Seq<char>
    decreases width,
{
    if width == 0 {
        Seq::empty()
    } else {
        fixed_digits(n / 10, (width - 1) as nat).push(digit_char(n % 10))
    }
}

/// The display text of an amount in minor units.
pub open spec fn amount_text(cents: int, places: nat) -> Seq<char> {
    if places == 0 {
        signed_decimal(cents)
    } else {
        let m = if cents < 0 {
            (-cents) as nat
        } else {
            cents as nat
        };
        let sign = if cents < 0 {
            seq!['-']
        } else {
            Seq::empty()
        };
        sign + decimal(m / ten_to(places)) + seq!['.'] + fixed_digits(m % ten_to(places), places)
    }
}

/// Appends the last `width` decimal digits of `n`.
fn push_fixed(out: &mut String, n: u64, width: u32)
    ensures
        final(out)@ == old(out)@ + fixed_digits(n as nat, width as nat),
    decreases width,
{
    if width > 0 {
        push_fixed(out, n / 10, width - 1);
        out.push((48 + (n % 10) as u8) as char);
    }
    assert(out@ =~= old(out)@ + fixed_digits(n as nat, width as nat));
}

/// Formats integer minor units as a display text, such as `12.50` for 1250 in
/// a currency with two decimal places and `1250` in one without any.
pub fn format_money(cents: i64, currency_code: &str) -> (s: String)
    ensures
        s@ == amount_text(cents as int, places_of(currency_code@)),
{
    let places: u32 = decimal_places_for(currency_code);
    if places == 0 {
        return i64_text(cents);
    }
    let scale: u64 = scale_of(places) as u64;
    let m: u64 = magnitude(cents);
    let mut s = String::new();
    if cents < 0 {
        s.push('-');
    }
    push_decimal(&mut s, m / scale);
    s.push('.');
    push_fixed(&mut s, m % scale, places);
    assert(s@ =~= amount_text(cents as int, places as nat));
    s
}

// ---------------------------------------------------------------------------
// Laws
// ---------------------------------------------------------------------------

proof fn lemma_fixed_digits(n: nat, width: nat)
    requires
        n < ten_to(width),
    ensures
        fixed_digits(n, width).len() == width,
        all_digits(fixed_digits(n, width)),
        digits_value(fixed_digits(n, width)) == n,
    decreases width,
{
    if width > 0 {
        lemma_fixed_digits(n / 10, (width - 1) as nat);
        assert(fixed_digits(n, width).drop_last() =~= fixed_digits(n / 10, (width - 1) as nat));
    }
}

proof fn lemma_ascii_digits_width(s: Seq<char>)
    requires
        all_digits(s),
    ensures
        utf8_len(s) == s.len(),
    decreases s.len(),
{
    if s.len() > 0 {
        assert forall|i: int| 0 <= i < s.drop_last().len() implies is_digit(#[trigger] s.drop_last()[i]) by {
            assert(s.drop_last()[i] == s[i]);
        }
        lemma_ascii_digits_width(s.drop_last());
        assert(is_digit(s[s.len() - 1]));
    }
}

proof fn lemma_without_absent(s: Seq<char>, c: char)
    requires
        forall|i: int| 0 <= i < s.len() ==> s[i] != c,
    ensures
        without(s, c) == s,
    decreases s.len(),
{
    if s.len() > 0 {
        assert forall|i: int| 0 <= i < s.drop_last().len() implies s.drop_last()[i] != c by {
            assert(s.drop_last()[i] == s[i]);
        }
        lemma_without_absent(s.drop_last(), c);
        assert(s.last() == s[s.len() - 1]);
        assert(s.drop_last().push(s.last()) =~= s);
    }
}

/// The unsigned part of a display text parses to the magnitude.
proof fn lemma_unsigned_round_trip(m: nat, places: nat, u: Seq<char>)
    requires
        m <= i64::MAX,
        u == if places == 0 {
            decimal(m)
        } else {
            decimal(m / ten_to(places)) + seq!['.'] + fixed_digits(m % ten_to(places), places)
        },
        places <= 3,
    ensures
        unsigned_amount(u, places) == Ok::<int, MoneyError>(m as int),
        u.len() > 0,
        is_digit(u[0]),
        is_digit(u.last()),
        forall|i: int| 0 <= i < u.len() ==> is_digit(#[trigger] u[i]) || u[i] == '.',
{
    reveal_with_fuel(ten_to, 4);
    let scale = ten_to(places);
    let w = decimal(m / scale);
    let f = fixed_digits(m % scale, places);
    crate::text::lemma_decimal(m / scale);
    lemma_fixed_digits(m % scale, places);
    lemma_ascii_digits_width(f);
    let k = w.len() as int;
    if places == 0 {
        assert(m / 1 == m);
        assert(u == w);
        assert forall|i: int| 0 <= i < u.len() implies u[i] != '.' by {
            assert(is_digit(w[i]));
        }
        crate::text::lemma_find_is(u, '.', u.len() as int);
        assert(u.take(u.len() as int) =~= w);
        assert(is_digit(w[0]));
        assert(is_digit(w[w.len() - 1]));
        assert(digits_value(w) * 1 + 0 == m);
        assert(digits_value(Seq::<char>::empty()) * ten_to(0) == 0);
        assert(utf8_len(Seq::<char>::empty()) == 0);
    } else {
        assert forall|i: int| 0 <= i < k implies u[i] != '.' by {
            assert(is_digit(w[i]));
            assert(u[i] == w[i]);
        }
        assert(u[k] == '.');
        crate::text::lemma_find_is(u, '.', k);
        assert(u.take(k) =~= w);
        assert(u.skip(k + 1) =~= f);
        assert forall|i: int| 0 <= i < u.len() implies is_digit(#[trigger] u[i]) || u[i] == '.' by {
            if i < k {
                assert(u[i] == w[i]);
            } else if i > k {
                assert(u[i] == f[i - k - 1]);
            }
        }
        assert(u[0] == w[0] && is_digit(w[0]));
        assert(u.last() == f[f.len() - 1]);
        assert(is_digit(f[f.len() - 1]));
        assert((m / scale) * scale + m % scale == m) by (nonlinear_arith)
            requires
                scale >= 1,
        ;
        assert(digits_value(f) * 1 == digits_value(f));
        assert(m / scale <= m) by (nonlinear_arith)
            requires
                scale >= 1,
        ;
    }
}

/// Formatting and then parsing an amount gives the amount back, in every
/// currency. The one amount left out is the most negative `i64`: its
/// magnitude does not fit, so its text is refused as out of range.
pub proof fn law_format_then_parse(cents: i64, code: Seq<char>)
    requires
        cents != i64::MIN,
    ensures
        amount_of(amount_text(cents as int, places_of(code)), places_of(code)) == Ok::<int, MoneyError>(cents as int),
{
    let places = places_of(code);
    let t = amount_text(cents as int, places);
    let m: nat = if cents < 0 {
        (-cents) as nat
    } else {
        cents as nat
    };
    let u = if places == 0 {
        decimal(m)
    } else {
        decimal(m / ten_to(places)) + seq!['.'] + fixed_digits(m % ten_to(places), places)
    };
    lemma_unsigned_round_trip(m, places, u);
    if cents < 0 {
        assert(t =~= seq!['-'] + u);
        assert(t.drop_first() =~= u);
        assert(t.last() == u.last());
        assert(undashed(t) == undashed(u));
    } else {
        assert(t =~= u);
    }
    assert(undashed(u) == u);
    assert forall|i: int| 0 <= i < t.len() implies t[i] != ',' by {
        if cents < 0 {
            if i > 0 {
                assert(t[i] == u[i - 1]);
            }
        } else {
            assert(t[i] == u[i]);
        }
    }
    lemma_without_absent(t, ',');
    assert(!is_white(t[0]) && !is_white(t.last()));
    crate::text::lemma_trim_fixed(t);
}

/// Two amounts that a currency displays alike are the same amount.
pub proof fn law_format_is_injective(a: i64, b: i64, code: Seq<char>)
    requires
        a != i64::MIN,
        b != i64::MIN,
        amount_text(a as int, places_of(code)) == amount_text(b as int, places_of(code)),
    ensures
        a == b,
{
    law_format_then_parse(a, code);
    law_format_then_parse(b, code);
}

/// Digits in front of digits count for as many tens as those behind them have
/// places.
proof fn lemma_digits_joined(a: Seq<char>, b: Seq<char>)
    ensures
        digits_value(a + b) == digits_value(a) * ten_to(b.len()) + digits_value(b),
    decreases b.len(),
{
    if b.len() == 0 {
        assert(a + b =~= a);
        assert(digits_value(a) * 1 == digits_value(a));
    } else {
        let shorter = b.drop_last();
        lemma_digits_joined(a, shorter);
        assert((a + b).drop_last() =~= a + shorter);
        assert((a + b).last() == b.last());
        let x = digits_value(a);
        let t = ten_to(shorter.len());
        assert(ten_to(b.len()) == 10 * t);
        assert((x * t) * 10 == x * (10 * t)) by (nonlinear_arith);
    }
}

proof fn lemma_tens_multiply(a: nat, b: nat)
    ensures
        ten_to(a + b) == ten_to(a) * ten_to(b),
    decreases a,
{
    if a > 0 {
        lemma_tens_multiply((a - 1) as nat, b);
        let x = ten_to((a - 1) as nat);
        let y = ten_to(b);
        assert((a + b - 1) as nat == (a - 1) as nat + b);
        assert(10 * (x * y) == (10 * x) * y) by (nonlinear_arith);
    } else {
        assert(1 * ten_to(b) == ten_to(b));
    }
}

/// The text of a number: a sign, digits, and a point with more digits where
/// there are any.
pub open spec fn number_text(negative: bool, whole: Seq<char>, frac: Seq<char>) -> Seq<char> {
    (if negative {
        seq!['-']
    } else {
        Seq::<char>::empty()
    }) + whole + (if frac.len() > 0 {
        seq!['.'] + frac
    } else {
        Seq::<char>::empty()
    })
}

proof fn lemma_number_text_is_read(negative: bool, whole: Seq<char>, frac: Seq<char>, places: nat)
    requires
        whole.len() > 0,
        all_digits(whole),
        all_digits(frac),
    ensures
        amount_of(number_text(negative, whole, frac), places) == match unsigned_amount(
            number_text(false, whole, frac),
            places,
        ) {
            Ok(cents) => Ok::<int, MoneyError>(
                if negative {
                    -cents
                } else {
                    cents
                },
            ),
            Err(e) => Err(e),
        },
        find(number_text(false, whole, frac), '.') == whole.len(),
        number_text(false, whole, frac).take(whole.len() as int) == whole,
        frac.len() > 0 ==> number_text(false, whole, frac).skip(whole.len() as int + 1) == frac,
{
    let s = number_text(negative, whole, frac);
    let u = number_text(false, whole, frac);
    assert forall|i: int| 0 <= i < u.len() implies is_digit(#[trigger] u[i]) || u[i] == '.' by {
        if i < whole.len() {
            assert(is_digit(whole[i]));
        } else if i > whole.len() {
            assert(is_digit(frac[i - whole.len() - 1]));
        }
    }
    assert(is_digit(whole[0]) && u[0] == whole[0]);
    assert(s =~= if negative {
        seq!['-'] + u
    } else {
        u
    });
    assert forall|i: int| 0 <= i < s.len() implies s[i] != ',' && !is_white(s[i]) by {
        if negative && i == 0 {
        } else {
            let j: int = if negative {
                i - 1
            } else {
                i
            };
            assert(is_digit(u[j]) || u[j] == '.');
            assert(s[i] == u[j]);
        }
    }
    lemma_without_absent(s, ',');
    crate::text::lemma_trim_fixed(s);
    assert(undashed(u) == u);
    if negative {
        assert(s.drop_first() =~= u);
        reveal_with_fuel(undashed, 2);
    }
    let k = whole.len() as int;
    assert forall|i: int| 0 <= i < k implies u[i] != '.' by {
        assert(is_digit(whole[i]));
    }
    crate::text::lemma_find_is(u, '.', k);
    assert(u.take(k) =~= whole);
    if frac.len() > 0 {
        assert(u.skip(k + 1) =~= frac);
    }
}

/// An amount is the number that was typed, in minor units: the digits with the
/// point left out, scaled from the places that were typed to those of the
/// currency. A number with more places than the currency has is refused, never
/// rounded, and so is one that does not fit.
pub proof fn law_amounts_are_the_numbers_typed(negative: bool, whole: Seq<char>, frac: Seq<char>, places: nat)
    requires
        whole.len() > 0,
        all_digits(whole),
        all_digits(frac),
        digits_value(whole) <= i64::MAX,
    ensures
        match amount_of(number_text(negative, whole, frac), places) {
            Ok(cents) => {
                &&& frac.len() <= places
                &&& -i64::MAX <= cents <= i64::MAX
                &&& cents * ten_to(frac.len()) == (if negative {
                    -(digits_value(whole + frac) as int)
                } else {
                    digits_value(whole + frac) as int
                }) * ten_to(places)
            },
            Err(MoneyError::TooPrecise) => frac.len() > places,
            Err(MoneyError::OutOfRange) => frac.len() <= places && digits_value(whole + frac) * ten_to(places)
                > i64::MAX * ten_to(frac.len()),
            Err(_) => false,
        },
{
    lemma_number_text_is_read(negative, whole, frac, places);
    lemma_ascii_digits_width(frac);
    assert(utf8_len(Seq::<char>::empty()) == 0);
    let u = number_text(false, whole, frac);
    if frac.len() == 0 {
        assert(frac =~= Seq::<char>::empty());
        assert(u =~= whole);
    }
    if frac.len() <= places {
        lemma_digits_joined(whole, frac);
        lemma_tens_multiply((places - frac.len()) as nat, frac.len());
        let w = digits_value(whole) as int;
        let f = digits_value(frac) as int;
        let rest = ten_to((places - frac.len()) as nat) as int;
        let typed = ten_to(frac.len()) as int;
        let all = ten_to(places) as int;
        let cents = minor_units(whole, frac, places) as int;
        lemma_ten_to_positive(frac.len());
        assert(cents == w * all + f * rest);
        assert((w * all + f * rest) * typed == (w * typed + f) * all) by (nonlinear_arith)
            requires
                all == rest * typed,
        ;
        assert((-cents) * typed == (-(w * typed + f)) * all) by (nonlinear_arith)
            requires
                cents * typed == (w * typed + f) * all,
        ;
        if cents > i64::MAX {
            assert(cents * typed > i64::MAX * typed) by (nonlinear_arith)
                requires
                    cents > i64::MAX,
                    typed > 0,
            ;
        }
    }
}

/// A whole number of major units is as many minor units as the places of the
/// currency make it, or refused where those do not fit.
pub proof fn law_whole_amounts_are_scaled(n: int, places: nat)
    ensures
        match amount_of(signed_decimal(n), places) {
            Ok(cents) => cents == n * ten_to(places) && -i64::MAX <= cents <= i64::MAX,
            Err(_) => n * ten_to(places) > i64::MAX || n * ten_to(places) < -i64::MAX,
        },
{
    let m: nat = if n < 0 {
        (-n) as nat
    } else {
        n as nat
    };
    let w = decimal(m);
    let none = Seq::<char>::empty();
    crate::text::lemma_decimal(m);
    assert(number_text(n < 0, w, none) =~= signed_decimal(n));
    lemma_ten_to_positive(places);
    let t = ten_to(places) as int;
    assert(w + none =~= w);
    assert(n * t == if n < 0 {
        -(m * t)
    } else {
        m * t
    }) by (nonlinear_arith)
        requires
            n == if n < 0 {
                -(m as int)
            } else {
                m as int
            },
    ;
    if m <= i64::MAX {
        law_amounts_are_the_numbers_typed(n < 0, w, none, places);
        assert(ten_to(0) == 1);
        assert((-(m as int)) * t == -(m * t)) by (nonlinear_arith);
    } else {
        lemma_number_text_is_read(n < 0, w, none, places);
        assert(number_text(false, w, none) =~= w);
        assert(utf8_len(none) == 0);
        assert(m * t >= m) by (nonlinear_arith)
            requires
                t >= 1,
                m >= 0,
        ;
    }
}

proof fn lemma_ten_to_positive(n: nat)
    ensures
        ten_to(n) > 0,
    decreases n,
{
    if n > 0 {
        lemma_ten_to_positive((n - 1) as nat);
    }
}

proof fn lemma_without_first(s: Seq<char>, c: char)
    requires
        s.len() > 0,
        s[0] != c,
    ensures
        without(s, c) == seq![s[0]] + without(s.drop_first(), c),
    decreases s.len(),
{
    if s.len() == 1 {
        assert(s.drop_last() =~= Seq::<char>::empty());
        assert(s.drop_first() =~= Seq::<char>::empty());
        assert(without(s, c) =~= seq![s[0]] + without(s.drop_first(), c));
    } else {
        lemma_without_first(s.drop_last(), c);
        assert(s.drop_first().drop_last() =~= s.drop_last().drop_first());
        assert(without(s, c) =~= seq![s[0]] + without(s.drop_first(), c));
    }
}

proof fn lemma_trim_start_push(x: Seq<char>, c: char)
    requires
        is_white(c),
    ensures
        trim_start(x.push(c)) == if trim_start(x).len() == 0 {
            Seq::<char>::empty()
        } else {
            trim_start(x).push(c)
        },
    decreases x.len(),
{
    let y = x.push(c);
    if x.len() == 0 {
        assert(y.drop_first() =~= Seq::<char>::empty());
        assert(trim_start(y.drop_first()) == y.drop_first());
    } else if is_white(x[0]) {
        assert(y.drop_first() =~= x.drop_first().push(c));
        lemma_trim_start_push(x.drop_first(), c);
    }
}

proof fn lemma_outer_blanks_at_the_end(s: Seq<char>, places: nat)
    ensures
        amount_of(trim_end(s), places) == amount_of(s, places),
    decreases s.len(),
{
    if s.len() > 0 && is_white(s.last()) {
        lemma_outer_blanks_at_the_end(s.drop_last(), places);
        let x = without(s.drop_last(), ',');
        assert(without(s, ',') == x.push(s.last()));
        lemma_trim_start_push(x, s.last());
        if trim_start(x).len() > 0 {
            assert(trim_start(x).push(s.last()).drop_last() =~= trim_start(x));
        }
        assert(trimmed(x.push(s.last())) == trimmed(x));
    }
}

proof fn lemma_outer_blanks_at_the_start(s: Seq<char>, places: nat)
    ensures
        amount_of(trim_start(s), places) == amount_of(s, places),
    decreases s.len(),
{
    if s.len() > 0 && is_white(s[0]) {
        lemma_outer_blanks_at_the_start(s.drop_first(), places);
        lemma_without_first(s, ',');
        let x = without(s.drop_first(), ',');
        assert((seq![s[0]] + x).drop_first() =~= x);
    }
}

/// Outer blanks never change what an amount is.
pub proof fn law_outer_blanks_do_not_matter(s: Seq<char>, places: nat)
    ensures
        amount_of(trimmed(s), places) == amount_of(s, places),
{
    lemma_outer_blanks_at_the_start(s, places);
    lemma_outer_blanks_at_the_end(trim_start(s), places);
}

/// Thousands separators never change what an amount is.
pub proof fn law_separators_do_not_matter(a: Seq<char>, b: Seq<char>, places: nat)
    requires
        without(a, ',') == without(b, ','),
    ensures
        amount_of(a, places) == amount_of(b, places),
{
}

/// The currencies without a minor unit have no decimal places, those whose minor
/// unit is a thousandth three, and every other one two.
pub proof fn law_decimal_places_of_currencies(code: Seq<char>)
    ensures
        ({
            let whole = seq!["JPY"@, "KRW"@, "VND"@, "UGX"@, "RWF"@, "XOF"@, "XAF"@, "BIF"@, "DJF"@, "GNF"@, "KMF"@, "MGA"@, "PYG"@, "VUV"@, "CLP"@];
            let thousandths = seq!["BHD"@, "IQD"@, "JOD"@, "KWD"@, "OMR"@, "TND"@];
            &&& places_of_upper(code) == 0 <==> whole.contains(code)
            &&& places_of_upper(code) == 3 <==> thousandths.contains(code)
            &&& places_of_upper(code) == 2 <==> !whole.contains(code) && !thousandths.contains(code)
        }),
{
    let whole = seq!["JPY"@, "KRW"@, "VND"@, "UGX"@, "RWF"@, "XOF"@, "XAF"@, "BIF"@, "DJF"@, "GNF"@, "KMF"@, "MGA"@, "PYG"@, "VUV"@, "CLP"@];
    let thousandths = seq!["BHD"@, "IQD"@, "JOD"@, "KWD"@, "OMR"@, "TND"@];
    assert(whole[0] == "JPY"@);
    assert(whole[1] == "KRW"@);
    assert(whole[2] == "VND"@);
    assert(whole[3] == "UGX"@);
    assert(whole[4] == "RWF"@);
    assert(whole[5] == "XOF"@);
    assert(whole[6] == "XAF"@);
    assert(whole[7] == "BIF"@);
    assert(whole[8] == "DJF"@);
    assert(whole[9] == "GNF"@);
    assert(whole[10] == "KMF"@);
    assert(whole[11] == "MGA"@);
    assert(whole[12] == "PYG"@);
    assert(whole[13] == "VUV"@);
    assert(whole[14] == "CLP"@);
    assert(thousandths[0] == "BHD"@);
    assert(thousandths[1] == "IQD"@);
    assert(thousandths[2] == "JOD"@);
    assert(thousandths[3] == "KWD"@);
    assert(thousandths[4] == "OMR"@);
    assert(thousandths[5] == "TND"@);
    if whole.contains(code) {
        let k = choose|k: int| 0 <= k < whole.len() && whole[k] == code;
        assert(zero_decimal(code));
    }
    if thousandths.contains(code) {
        let k = choose|k: int| 0 <= k < thousandths.len() && thousandths[k] == code;
        assert(three_decimal(code));
        lemma_codes_apart(code);
    }
}

proof fn lemma_codes_apart(code: Seq<char>)
    requires
        three_decimal(code),
    ensures
        !zero_decimal(code),
{
    reveal_strlit("JPY");
    reveal_strlit("KRW");
    reveal_strlit("VND");
    reveal_strlit("UGX");
    reveal_strlit("RWF");
    reveal_strlit("XOF");
    reveal_strlit("XAF");
    reveal_strlit("BIF");
    reveal_strlit("DJF");
    reveal_strlit("GNF");
    reveal_strlit("KMF");
    reveal_strlit("MGA");
    reveal_strlit("PYG");
    reveal_strlit("VUV");
    reveal_strlit("CLP");
    reveal_strlit("BHD");
    reveal_strlit("IQD");
    reveal_strlit("JOD");
    reveal_strlit("KWD");
    reveal_strlit("OMR");
    reveal_strlit("TND");
    assert("JPY"@[0] == 'J' && "JPY"@[1] == 'P' && "JPY"@[2] == 'Y' && "KRW"@[0] == 'K' && "KRW"@[1] == 'R' && "KRW"@[2] == 'W' && "VND"@[0] == 'V' && "VND"@[1] == 'N' && "VND"@[2] == 'D' && "UGX"@[0] == 'U' && "UGX"@[1] == 'G' && "UGX"@[2] == 'X' && "RWF"@[0] == 'R' && "RWF"@[1] == 'W' && "RWF"@[2] == 'F' && "XOF"@[0] == 'X' && "XOF"@[1] == 'O' && "XOF"@[2] == 'F' && "XAF"@[0] == 'X' && "XAF"@[1] == 'A' && "XAF"@[2] == 'F' && "BIF"@[0] == 'B' && "BIF"@[1] == 'I' && "BIF"@[2] == 'F' && "DJF"@[0] == 'D' && "DJF"@[1] == 'J' && "DJF"@[2] == 'F' && "GNF"@[0] == 'G' && "GNF"@[1] == 'N' && "GNF"@[2] == 'F' && "KMF"@[0] == 'K' && "KMF"@[1] == 'M' && "KMF"@[2] == 'F' && "MGA"@[0] == 'M' && "MGA"@[1] == 'G' && "MGA"@[2] == 'A' && "PYG"@[0] == 'P' && "PYG"@[1] == 'Y' && "PYG"@[2] == 'G' && "VUV"@[0] == 'V' && "VUV"@[1] == 'U' && "VUV"@[2] == 'V' && "CLP"@[0] == 'C' && "CLP"@[1] == 'L' && "CLP"@[2] == 'P' && "BHD"@[0] == 'B' && "BHD"@[1] == 'H' && "BHD"@[2] == 'D' && "IQD"@[0] == 'I' && "IQD"@[1] == 'Q' && "IQD"@[2] == 'D' && "JOD"@[0] == 'J' && "JOD"@[1] == 'O' && "JOD"@[2] == 'D' && "KWD"@[0] == 'K' && "KWD"@[1] == 'W' && "KWD"@[2] == 'D' && "OMR"@[0] == 'O' && "OMR"@[1] == 'M' && "OMR"@[2] == 'R' && "TND"@[0] == 'T' && "TND"@[1] == 'N' && "TND"@[2] == 'D');
}

} // verus!
