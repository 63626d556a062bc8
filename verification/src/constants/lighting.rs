//! Lighting constants.
use vstd::prelude::*;

verus! {

/// Maximum block / sky light level (`15`).
pub const MAX_LIGHT_LEVEL: u8 = 15;

} // verus!
