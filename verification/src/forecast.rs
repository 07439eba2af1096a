//! Forecasts: which periods count, and the checks on what is asked for. The
//! averages themselves are computed outside of this library.

use crate::text::{decimal, push_decimal};
use vstd::prelude::*;

verus! {

/// Why a forecast is refused.
#[derive(Clone, Copy, PartialEq, Eq, Structural, Debug)]
pub enum ForecastError {
    /// At least one period must count.
    EmptyWindow,
    /// The weight is not above zero and at most one.
    BadWeight,
}

/// The sentence for a refused forecast.
pub fn forecast_error_text(e: ForecastError) -> (s: &'static str)
    ensures
        s@ == match e {
            ForecastError::EmptyWindow => "'window' must be at least 1"@,
            ForecastError::BadWeight => "'alpha' must be a finite number in (0, 1]"@,
        },
{
    match e {
        ForecastError::EmptyWindow => "'window' must be at least 1",
        ForecastError::BadWeight => "'alpha' must be a finite number in (0, 1]",
    }
}

/// The place of the first period that a moving average counts: the last
/// `window` periods do, or all where there are fewer.
pub fn moving_average_start(periods: usize, window: usize) -> (r: Result<usize, ForecastError>)
    ensures
        r == (if window == 0 {
            Err::<usize, ForecastError>(ForecastError::EmptyWindow)
        } else if window >= periods {
            Ok::<usize, ForecastError>(0)
        } else {
            Ok::<usize, ForecastError>((periods - window) as usize)
        }),
{
    if window == 0 {
        Err(ForecastError::EmptyWindow)
    } else if window >= periods {
        Ok(0)
    } else {
        Ok(periods - window)
    }
}

/// Whether the bits are those of a number above zero and at most one.
pub open spec fn is_weight(bits: u64) -> bool {
    0 < bits <= 0x3FF0_0000_0000_0000
}

/// Checks the weight of the latest period in exponential smoothing, given by
/// its bits.
pub fn check_weight(bits: u64) -> (r: Result<(), ForecastError>)
    ensures
        r == (if is_weight(bits) {
            Ok::<(), ForecastError>(())
        } else {
            Err::<(), ForecastError>(ForecastError::BadWeight)
        }),
{
    if 0 < bits && bits <= 0x3FF0_0000_0000_0000 {
        Ok(())
    } else {
        Err(ForecastError::BadWeight)
    }
}

/// What a moving average is called in its result.
pub fn moving_average_name(window: u64) -> (s: String)
    ensures
        s@ == "moving_average(window="@ + decimal(window as nat) + ")"@,
{
    let mut s = "moving_average(window=".to_owned();
    push_decimal(&mut s, window);
    s.append(")");
    s
}

} // verus!
