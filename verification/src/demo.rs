//! The demo project the workbench ships with, whose bug the demo run fixes.

use vstd::prelude::*;

verus! {

/// The demo project's `add`, as shipped: broken on purpose (it subtracts),
/// so the demo run has something to fix and its test fails until then.
pub fn add(a: i32, b: i32) -> (r: i32)
    requires
        i32::MIN <= a - b <= i32::MAX,
    ensures
        r == a - b,
{
    a - b
}

} // verus!
