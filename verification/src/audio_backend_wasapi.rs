//! Exclusive output.

use vstd::prelude::*;

verus! {

pub fn exclusive_status_line(windows: bool) -> (r: &'static str)
    ensures
        r@ == if windows {
            "planned, not enabled in Phase 1"@
        } else {
            "unavailable on this platform"@
        },
{
    if windows {
        "planned, not enabled in Phase 1"
    } else {
        "unavailable on this platform"
    }
}

} // verus!
