//! Conversion of host sizes to the integer types of the device calls.

use vstd::prelude::*;
use num::ToPrimitive;
use crate::error::HarnessError;

verus! {

/// `num::ToPrimitive::to_i32` on a `usize`. Trusted: the value itself where it
/// is at most `i32::MAX`, nothing above that.
#[verifier::external_body]
pub(crate) fn usize_to_i32(value: usize) -> (r: Option<i32>)
    ensures
        value <= i32::MAX ==> r == Some(value as i32),
        value > i32::MAX ==> r is None,
{
    value.to_i32()
}

/// `num::ToPrimitive::to_i64` on a `usize`. Trusted: the value itself where it
/// is at most `i64::MAX`, nothing above that.
#[verifier::external_body]
pub(crate) fn usize_to_i64(value: usize) -> (r: Option<i64>)
    ensures
        value <= i64::MAX ==> r == Some(value as i64),
        value > i64::MAX ==> r is None,
{
    value.to_i64()
}

/// What a size becomes as a 32-bit argument of a device call.
pub open spec fn spec_device_int(value: usize) -> Result<i32, HarnessError> {
    if value <= i32::MAX {
        Ok(value as i32)
    } else {
        Err(HarnessError::DimensionTooLarge)
    }
}

/// What a count becomes as a 64-bit argument of a device call.
pub open spec fn spec_device_long(value: usize) -> Result<i64, HarnessError> {
    if value <= i64::MAX {
        Ok(value as i64)
    } else {
        Err(HarnessError::DimensionTooLarge)
    }
}

/// Converts a size to a 32-bit argument of a device call, or reports that it
/// does not fit.
pub fn device_int(value: usize) -> (r: Result<i32, HarnessError>)
    ensures
        r == spec_device_int(value),
{
    match usize_to_i32(value) {
        Some(v) => Ok(v),
        None => Err(HarnessError::DimensionTooLarge),
    }
}

/// Converts a count to a 64-bit argument of a device call, or reports that it
/// does not fit.
pub fn device_long(value: usize) -> (r: Result<i64, HarnessError>)
    ensures
        r == spec_device_long(value),
{
    match usize_to_i64(value) {
        Some(v) => Ok(v),
        None => Err(HarnessError::DimensionTooLarge),
    }
}

} // verus!
