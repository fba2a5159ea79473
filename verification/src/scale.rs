//! Conversion of the host's integer rate and volume scales to the engine's
//! normalized scale.
//!
//! The engine's scale is a factor around unity; to keep the mapping exact it
//! is computed here in thousandths of that factor (`1000` = factor `1.0`).
//! The host rate runs from `-10` (slowest) to `10` (fastest): negative values
//! compress toward a floor of `0.5`, zero maps to unity, and positive values
//! expand toward a ceiling of `6.0`. The host volume runs from `0` to `100`
//! and maps linearly onto `0.0..=1.0`, clamped at `1.0`.

use vstd::prelude::*;

verus! {

/// One thousandth of the engine's unity factor.
pub const UNITY_MILLIS: u32 = 1000;

/// The engine rate factor for a host rate, in thousandths: unity minus
/// `|rate| / 20` (floored at `0.5`) for negative rates, unity plus `rate / 2`
/// (capped at `5.0` above unity) for positive rates.
pub open spec fn rate_millis(rate: int) -> int {
    if rate < 0 {
        if 50 * (-rate) > 500 {
            500
        } else {
            1000 - 50 * (-rate)
        }
    } else {
        if 500 * rate > 5000 {
            6000
        } else {
            1000 + 500 * rate
        }
    }
}

/// The engine volume factor for a host volume, in thousandths: `volume / 100`
/// capped at `1.0`.
pub open spec fn volume_millis(volume: int) -> int {
    if 10 * volume > 1000 {
        1000
    } else {
        10 * volume
    }
}

/// Converts a host rate to the engine's rate factor, in thousandths.
pub fn sapi_rate_to_modern(sapi_rate: i32) -> (r: u32)
    ensures
        r == rate_millis(sapi_rate as int),
        500 <= r <= 6000,
{
    if sapi_rate < 0 {
        if sapi_rate <= -10 {
            500
        } else {
            1000 - 50 * ((-sapi_rate) as u32)
        }
    } else {
        if sapi_rate >= 10 {
            6000
        } else {
            1000 + 500 * (sapi_rate as u32)
        }
    }
}

/// Converts a host volume to the engine's volume factor, in thousandths.
pub fn sapi_volume_to_modern(sapi_volume: u16) -> (r: u32)
    ensures
        r == volume_millis(sapi_volume as int),
        r <= 1000,
{
    if sapi_volume >= 100 {
        1000
    } else {
        10 * (sapi_volume as u32)
    }
}

} // verus!
