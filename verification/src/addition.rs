//! Adding a fixed offset to an integer.

use vstd::prelude::*;

verus! {

/// Adds two to an integer.
pub fn add_two(num: i32) -> (r: i32)
    requires
        num + 2 <= i32::MAX,
    ensures
        r == num + 2,
{
    num + 2
}

} // verus!
