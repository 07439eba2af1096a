//! Exchange rates: which of the stored ones a conversion uses, and when they
//! are too old. Rates are held as the bits of their 64-bit representation.

use crate::reals::{exponent, fraction, negative};
use crate::text::same;
use vstd::prelude::*;

verus! {

/// The seconds after which rates are stale.
pub const STALE_AFTER: i64 = 86400;

/// Whether rates are stale: there are none, or the latest is more than a day
/// old.
pub fn rates_stale(latest: Option<i64>, now: i64) -> (b: bool)
    ensures
        b == (match latest {
            Some(t) => now - t > STALE_AFTER,
            None => true,
        }),
{
    match latest {
        Some(t) => now as i128 - t as i128 > STALE_AFTER as i128,
        None => true,
    }
}

/// The seconds for which rates are not fetched again at a start.
pub const REFRESH_AFTER: i64 = 21600;

/// Whether rates are fetched at a start: there are none, or the latest is at
/// least six hours old.
pub fn refresh_due(latest: Option<i64>, now: i64) -> (b: bool)
    ensures
        b == (match latest {
            Some(t) => now - t >= REFRESH_AFTER,
            None => true,
        }),
{
    match latest {
        Some(t) => now as i128 - t as i128 >= REFRESH_AFTER as i128,
        None => true,
    }
}

/// Whether a rate can be used: a number above zero.
pub open spec fn usable(bits: u64) -> bool {
    &&& !negative(bits)
    &&& exponent(bits) != 0 || fraction(bits) != 0
    &&& !(exponent(bits) == 2047 && fraction(bits) != 0)
}

/// Whether a rate can be used. One that cannot is never stored.
pub fn is_usable(bits: u64) -> (b: bool)
    ensures
        b == usable(bits),
{
    let e: u64 = (bits / 0x10_0000_0000_0000) % 2048;
    let f: u64 = bits % 0x10_0000_0000_0000;
    bits < 0x8000_0000_0000_0000 && (e != 0 || f != 0) && !(e == 2047 && f != 0)
}

/// How a conversion finds its rate.
#[derive(Clone, Copy, PartialEq, Eq, Structural, Debug)]
pub enum RateChoice {
    /// Nothing to convert.
    Same,
    /// The rate of the pair itself.
    Direct { rate: u64 },
    /// The rates of both currencies to the dollar.
    ViaDollar { from: u64, to: u64 },
    /// There is no rate; the amount is left as it is, with a warning.
    Unknown,
}

/// How a conversion finds its rate: the pair itself first, then through the
/// dollar.
pub open spec fn choice_of(
    from: Seq<char>,
    to: Seq<char>,
    direct: Option<u64>,
    from_dollar: Option<u64>,
    to_dollar: Option<u64>,
) -> RateChoice {
    if from == to {
        RateChoice::Same
    } else {
        match direct {
            Some(rate) => RateChoice::Direct { rate },
            None => match (from_dollar, to_dollar) {
                (Some(f), Some(t)) => RateChoice::ViaDollar { from: f, to: t },
                _ => RateChoice::Unknown,
            },
        }
    }
}

/// Chooses the rate of a conversion.
pub fn get_rate(
    from: &str,
    to: &str,
    direct: Option<u64>,
    from_dollar: Option<u64>,
    to_dollar: Option<u64>,
) -> (c: RateChoice)
    ensures
        c == choice_of(from@, to@, direct, from_dollar, to_dollar),
{
    if same(from, to) {
        return RateChoice::Same;
    }
    match direct {
        Some(rate) => RateChoice::Direct { rate },
        None => match (from_dollar, to_dollar) {
            (Some(f), Some(t)) => RateChoice::ViaDollar { from: f, to: t },
            _ => RateChoice::Unknown,
        },
    }
}

/// An amount in its own currency is not converted. One in another goes by the rate
/// between the two where there is one, and else over the dollar by the rates of
/// both, each in its own place; where one of those is missing there is no rate.
pub proof fn law_which_rate_is_used(
    from: Seq<char>,
    to: Seq<char>,
    direct: Option<u64>,
    from_dollar: Option<u64>,
    to_dollar: Option<u64>,
)
    ensures
        ({
            let c = choice_of(from, to, direct, from_dollar, to_dollar);
            &&& c is Same <==> from == to
            &&& c matches RateChoice::Direct { rate } ==> direct == Some(rate)
            &&& c matches RateChoice::ViaDollar { from: f, to: t } ==> direct is None && from_dollar == Some(f)
                && to_dollar == Some(t)
            &&& c is Unknown <==> from != to && direct is None && (from_dollar is None || to_dollar is None)
        }),
{
}

} // verus!
