use vstd::prelude::*;

verus! {

/// The car number suggested after the largest one in use: one more than
/// `max`, or 1 when no car number is in use.
pub open spec fn next_after(max: Option<i32>) -> int {
    match max {
        Some(n) => n + 1,
        None => 1,
    }
}

/// Suggests the next free car number from the largest one stored.
pub fn next_car_number_after(max: Option<i32>) -> (r: i64)
    ensures
        r == next_after(max),
{
    match max {
        Some(n) => n as i64 + 1,
        None => 1,
    }
}

} // verus!
