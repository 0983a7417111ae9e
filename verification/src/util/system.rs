//! Conversions of the values that system calls report (clock readings and
//! processor counts) into the unsigned quantities the collection uses

use vstd::prelude::*;

verus! {

/// A signed reading as an unsigned 64-bit quantity, or zero when it is
/// negative
pub open spec fn remap_spec(num: i64) -> u64 {
    if num < 0 {
        0
    } else {
        num as u64
    }
}

/// An unsigned quantity as a `usize`, or zero when it does not fit
pub open spec fn remap_to_usize_spec(num: u64) -> usize {
    if num <= usize::MAX {
        num as usize
    } else {
        0usize
    }
}

/// Number types that a number of type `S` can be mapped into: the same
/// value when it is in range, else zero
pub trait RemapFrom<S>: Sized {
    /// The value `num` maps to
    spec fn remapped(num: S) -> Self;

    /// Maps `num` into this type
    fn remap_from(num: S) -> (r: Self)
        ensures
            r == Self::remapped(num),
    ;
}

impl RemapFrom<i64> for u64 {
    open spec fn remapped(num: i64) -> u64 {
        remap_spec(num)
    }

    fn remap_from(num: i64) -> (r: u64) {
        if num < 0 {
            0
        } else {
            num as u64
        }
    }
}

impl RemapFrom<i64> for usize {
    open spec fn remapped(num: i64) -> usize {
        if 0 <= num <= usize::MAX {
            num as usize
        } else {
            0usize
        }
    }

    fn remap_from(num: i64) -> (r: usize) {
        if num < 0 || num as u64 > usize::MAX as u64 {
            0
        } else {
            num as usize
        }
    }
}

impl RemapFrom<u64> for usize {
    open spec fn remapped(num: u64) -> usize {
        remap_to_usize_spec(num)
    }

    fn remap_from(num: u64) -> (r: usize) {
        if num <= usize::MAX as u64 {
            num as usize
        } else {
            0
        }
    }
}

impl RemapFrom<u64> for u32 {
    open spec fn remapped(num: u64) -> u32 {
        if num <= u32::MAX {
            num as u32
        } else {
            0u32
        }
    }

    fn remap_from(num: u64) -> (r: u32) {
        if num <= u32::MAX as u64 {
            num as u32
        } else {
            0
        }
    }
}

impl RemapFrom<u64> for u128 {
    open spec fn remapped(num: u64) -> u128 {
        num as u128
    }

    fn remap_from(num: u64) -> (r: u128) {
        num as u128
    }
}

impl RemapFrom<u128> for u64 {
    open spec fn remapped(num: u128) -> u64 {
        if num <= u64::MAX {
            num as u64
        } else {
            0u64
        }
    }

    fn remap_from(num: u128) -> (r: u64) {
        if num <= u64::MAX as u128 {
            num as u64
        } else {
            0
        }
    }
}

impl RemapFrom<u128> for u8 {
    open spec fn remapped(num: u128) -> u8 {
        if num <= u8::MAX {
            num as u8
        } else {
            0u8
        }
    }

    fn remap_from(num: u128) -> (r: u8) {
        if num <= u8::MAX as u128 {
            num as u8
        } else {
            0
        }
    }
}

/// Attempts to map a number into another range, falling back to 0 when the
/// conversion fails (the number does not fit)
pub fn remap<S, D: RemapFrom<S>>(num: S) -> (r: D)
    ensures
        r == D::remapped(num),
{
    D::remap_from(num)
}

/// The nanosecond unix timestamp of a clock reading of `tv_sec` seconds and
/// `tv_nsec` nanoseconds (each negative part counting as zero)
pub open spec fn nano_ts_spec(tv_sec: i64, tv_nsec: i64) -> int {
    remap_spec(tv_nsec) + remap_spec(tv_sec) * 1_000_000_000
}

/// Gets the nanosecond unix timestamp of a stat read from the clock reading
pub fn nano_ts(tv_sec: i64, tv_nsec: i64) -> (r: u128)
    ensures
        r == nano_ts_spec(tv_sec, tv_nsec),
{
    let sec = remap::<i64, u64>(tv_sec) as u128;
    let nsec = remap::<i64, u64>(tv_nsec) as u128;
    assert(sec * 1_000_000_000 <= u64::MAX * 1_000_000_000) by (nonlinear_arith)
        requires
            sec <= u64::MAX,
    ;
    nsec + sec * 1_000_000_000
}

/// Gets the second unix timestamp for the stat filename from the clock
/// reading
pub fn second_ts(tv_sec: i64) -> (r: u64)
    ensures
        r == remap_spec(tv_sec),
{
    remap::<i64, u64>(tv_sec)
}

/// The total number of cores on the system from the count the system reports
/// for configured processors (zero when it reports an error)
pub fn num_cores(configured: i64) -> (r: u64)
    ensures
        r == remap_spec(configured),
{
    remap::<i64, u64>(configured)
}

/// The number of available cores on the system from the count the system
/// reports for online processors (zero when it reports an error)
pub fn num_available_cores(online: i64) -> (r: u64)
    ensures
        r == remap_spec(online),
{
    remap::<i64, u64>(online)
}

} // verus!
