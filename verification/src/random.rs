//! The outside source of chance.

use vstd::prelude::*;

verus! {

/// Draws one flag with `rand::random`, which samples the thread's generator.
/// Nothing is claimed of the flag drawn: two calls may differ. The draw fails
/// only where the system cannot seed the generator.
#[verifier::external_body]
pub(crate) fn random_bool() -> (flag: bool) {
    rand::random()
}

} // verus!
