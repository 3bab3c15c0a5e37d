//! The fixed, ordered list of systemd power targets that every procedure
//! acts on. The order is part of the tool's contract: targets are always
//! processed from index 0 upward.

use vstd::prelude::*;

verus! {

/// How many power targets the tool manages.
pub const TARGET_COUNT: usize = 4;

/// The name of the target at position `i` of the fixed list.
pub open spec fn spec_target_name(i: int) -> Seq<char> {
    if i == 0 {
        "sleep.target"@
    } else if i == 1 {
        "suspend.target"@
    } else if i == 2 {
        "hibernate.target"@
    } else {
        "hybrid-sleep.target"@
    }
}

/// The systemd unit name of the power target at position `i`.
pub fn target_name(i: usize) -> (r: &'static str)
    requires
        i < TARGET_COUNT,
    ensures
        r@ == spec_target_name(i as int),
{
    if i == 0 {
        "sleep.target"
    } else if i == 1 {
        "suspend.target"
    } else if i == 2 {
        "hibernate.target"
    } else {
        "hybrid-sleep.target"
    }
}

} // verus!
