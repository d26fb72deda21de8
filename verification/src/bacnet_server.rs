//! The BACnet server fixture's defaults.

use vstd::prelude::*;

verus! {

/// Default port for this fixture.
pub const DEFAULT_PORT: u16 = 0;

} // verus!
