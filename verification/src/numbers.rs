//! Conversions between the engine's counters and the signed integers that tables store.

use vstd::prelude::*;

use crate::error::{corrupt, invalid_data, invalid_input, malformed, StorageResult};

verus! {

/// The largest number that a stored integer can hold.
pub const STORED_MAX: u64 = 0x7FFF_FFFF_FFFF_FFFF;

/// A stored integer as a count; a negative one is corrupt.
pub fn non_negative(value: i64, message: &'static str) -> (result: StorageResult<u64>)
    ensures
        value >= 0 ==> result is Ok && result->Ok_0 == value,
        value < 0 ==> result is Err && result->Err_0@ == corrupt(message@),
{
    if value >= 0 {
        Ok(value as u64)
    } else {
        Err(invalid_data(message))
    }
}

/// A stored integer as a number that counts from one; any other is corrupt.
pub fn positive(value: i64, message: &'static str) -> (result: StorageResult<u64>)
    ensures
        value > 0 ==> result is Ok && result->Ok_0 == value,
        value <= 0 ==> result is Err && result->Err_0@ == corrupt(message@),
{
    if value > 0 {
        Ok(value as u64)
    } else {
        Err(invalid_data(message))
    }
}

/// A counter as a stored integer; one beyond the stored range is refused.
pub fn to_i64(value: u64, message: &'static str) -> (result: StorageResult<i64>)
    ensures
        value <= STORED_MAX ==> result is Ok && result->Ok_0 == value,
        value > STORED_MAX ==> result is Err && result->Err_0@ == malformed(message@),
{
    if value <= STORED_MAX {
        Ok(value as i64)
    } else {
        Err(invalid_input(message))
    }
}

/// A counter survives the way into a table and back.
pub proof fn stored_counter_round_trips(value: u64)
    requires
        value <= STORED_MAX,
    ensures
        value as i64 >= 0,
        (value as i64) as u64 == value,
{
}

} // verus!
