//! Title-bar copy that does not depend on pixel math.

use vstd::prelude::*;

verus! {

/// Remotes title pill: detection only, never "connected".
pub fn remotes_pill_label(tailscale_detected: bool) -> (r: &'static str)
    ensures
        r@ == (if tailscale_detected {
            "ts detected"@
        } else {
            "local"@
        }),
{
    if tailscale_detected {
        "ts detected"
    } else {
        "local"
    }
}

} // verus!
