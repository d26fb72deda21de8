//! Canned holding-register map for the revenue-meter template: one entry per
//! binding, so every measurement reads a value instead of an
//! `IllegalDataAddress` exception.
//!
//! | measurement    | addr      | type        | scale | raw        |
//! |----------------|-----------|-------------|-------|------------|
//! | kwh_delivered  | 4000-4001 | int32 hi_lo | 1.0   | 0x000F4240 |
//! | kwh_received   | 4002-4003 | int32 hi_lo | 1.0   | 0x0003D090 |
//! | power_factor   | 4010      | int16       | 0.001 | 980        |
//! | thd_voltage_a  | 4020      | int16       | 0.01  | 210        |
//! | thd_voltage_b  | 4021      | int16       | 0.01  | 235        |
//! | thd_voltage_c  | 4022      | int16       | 0.01  | 195        |

use std::collections::HashMap;
use vstd::prelude::*;

verus! {

broadcast use vstd::std_specs::hash::group_hash_axioms;

/// The canned register map, as a mathematical map.
pub open spec fn canned_holding_registers() -> Map<u16, u16> {
    map![
        4000u16 => 0x000Fu16,
        4001u16 => 0x4240u16,
        4002u16 => 0x0003u16,
        4003u16 => 0xD090u16,
        4010u16 => 980u16,
        4020u16 => 210u16,
        4021u16 => 235u16,
        4022u16 => 195u16,
    ]
}

/// Build the canned holding-register map.
pub fn holding_registers() -> (m: HashMap<u16, u16>)
    ensures
        m@ == canned_holding_registers(),
{
    let mut m: HashMap<u16, u16> = HashMap::new();
    m.insert(4000, 0x000F);
    m.insert(4001, 0x4240);
    m.insert(4002, 0x0003);
    m.insert(4003, 0xD090);
    m.insert(4010, 980);
    m.insert(4020, 210);
    m.insert(4021, 235);
    m.insert(4022, 195);
    m
}

} // verus!
