use vstd::prelude::*;

verus! {

/// The sum of two signed 32-bit integers. Overflow is ruled out by the
/// caller, so the result is exactly the mathematical sum.
pub fn add(a: i32, b: i32) -> (r: i32)
    requires
        i32::MIN <= a + b <= i32::MAX,
    ensures
        r == a + b,
{
    a + b
}

} // verus!
