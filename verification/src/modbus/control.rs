//! Body of the control surface's batch register write, applied with
//! `MeterHandler::apply_writes` under a single lock so multi-word values
//! never tear mid-poll.

use std::collections::HashMap;
use vstd::prelude::*;

verus! {

/// Batch register write: address to raw 16-bit value.
pub struct SetRegisters {
    /// Address -> raw 16-bit value.
    pub registers: HashMap<u16, u16>,
}

} // verus!
