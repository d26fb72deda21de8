//! Register side of the simulated battery rack: the register layout, the
//! initial register map, and the integer reads and writes that one model
//! step makes. The model itself (state of charge, energy) is kept in floating
//! point by the caller.

use std::collections::{HashMap, HashSet};
use vstd::prelude::*;

verus! {

broadcast use vstd::std_specs::hash::group_hash_axioms;

/// state_of_charge register (uint16, scale 0.1).
pub const SOC: u16 = 0;

/// active_power register pair (int32, high word first).
pub const ACTIVE_POWER: u16 = 10;

/// energy_discharged register pair (int32, high word first, Wh).
pub const ENERGY_DISCHARGED: u16 = 30;

/// operating_state register.
pub const OPERATING_STATE: u16 = 40;

/// set_active_power command register pair (int32, high word first).
pub const SETPOINT: u16 = 50;

/// operating_state STANDBY.
pub const STANDBY: u16 = 0;

/// operating_state CHARGING.
pub const CHARGING: u16 = 1;

/// operating_state DISCHARGING.
pub const DISCHARGING: u16 = 2;

/// Direction of the power the rack delivers in one step.
#[derive(Clone, Copy, Debug, PartialEq, Eq, Structural)]
pub enum PowerFlow {
    /// No power flows.
    Standby,
    /// Power flows into the rack.
    Charging,
    /// Power flows out of the rack.
    Discharging,
}

/// The register at `addr`, or 0 where the map has none.
pub open spec fn reg_or_zero(m: Map<u16, u16>, addr: int) -> int {
    if 0 <= addr <= u16::MAX && m.contains_key(addr as u16) {
        m[addr as u16] as int
    } else {
        0
    }
}

/// Two's-complement reading of an unsigned 32-bit pattern.
pub open spec fn as_signed32(raw: int) -> int {
    if raw < 0x8000_0000 {
        raw
    } else {
        raw - 0x1_0000_0000
    }
}

/// Two's-complement bit pattern of a signed 32-bit value.
pub open spec fn as_unsigned32(value: int) -> int {
    if value < 0 {
        value + 0x1_0000_0000
    } else {
        value
    }
}

/// The int32 stored high word first at `addr` and `addr + 1`, missing
/// words read as 0.
pub open spec fn int32_at(m: Map<u16, u16>, addr: u16) -> int {
    as_signed32(reg_or_zero(m, addr as int) * 0x10000 + reg_or_zero(m, addr + 1))
}

/// The map after writing `value` at `addr`, unless `addr` is driven.
pub open spec fn put_spec(m: Map<u16, u16>, driven: Set<u16>, addr: u16, value: u16) -> Map<
    u16,
    u16,
> {
    if driven.contains(addr) {
        m
    } else {
        m.insert(addr, value)
    }
}

/// The map after writing the int32 `value` high word first at `addr` and
/// `addr + 1`, unless either word is driven.
pub open spec fn put_i32_spec(m: Map<u16, u16>, driven: Set<u16>, addr: u16, value: i32) -> Map<
    u16,
    u16,
> {
    if driven.contains(addr) || driven.contains((addr + 1) as u16) {
        m
    } else {
        let raw = as_unsigned32(value as int);
        m.insert(addr, (raw / 0x10000) as u16).insert((addr + 1) as u16, (raw % 0x10000) as u16)
    }
}

/// The operating_state code of a power direction.
pub open spec fn state_code(flow: PowerFlow) -> u16 {
    match flow {
        PowerFlow::Standby => STANDBY,
        PowerFlow::Charging => CHARGING,
        PowerFlow::Discharging => DISCHARGING,
    }
}

/// The register map of a rack at `soc_tenths` tenths of a percent:
/// 480.0 V, 60.00 Hz, idle, no power and no reactive power.
pub open spec fn initial_register_map(soc_tenths: u16) -> Map<u16, u16> {
    map![
        SOC => soc_tenths,
        10u16 => 0u16,
        11u16 => 0u16,
        12u16 => 0u16,
        13u16 => 0u16,
        20u16 => 4800u16,
        22u16 => 6000u16,
        30u16 => 0u16,
        31u16 => 0u16,
        OPERATING_STATE => STANDBY,
        SETPOINT => 0u16,
        51u16 => 0u16,
    ]
}

/// The registers one model step publishes.
pub open spec fn step_registers_spec(
    m: Map<u16, u16>,
    driven: Set<u16>,
    soc_register: u16,
    active_power_w: i32,
    energy_discharged_wh: i32,
    flow: PowerFlow,
) -> Map<u16, u16> {
    put_spec(
        put_i32_spec(
            put_i32_spec(put_spec(m, driven, SOC, soc_register), driven, ACTIVE_POWER, active_power_w),
            driven,
            ENERGY_DISCHARGED,
            energy_discharged_wh,
        ),
        driven,
        OPERATING_STATE,
        state_code(flow),
    )
}

/// An int32 written with `put_i32` at an undriven pair reads back unchanged
/// with `read_i32`.
pub proof fn put_i32_then_read_i32(m: Map<u16, u16>, driven: Set<u16>, addr: u16, value: i32)
    requires
        addr < u16::MAX,
        !driven.contains(addr),
        !driven.contains((addr + 1) as u16),
    ensures
        int32_at(put_i32_spec(m, driven, addr, value), addr) == value as int,
{
    let r = put_i32_spec(m, driven, addr, value);
    let raw = as_unsigned32(value as int);
    assert(r.contains_key(addr) && r[addr] == (raw / 0x10000) as u16);
    assert(r.contains_key((addr + 1) as u16) && r[(addr + 1) as u16] == (raw % 0x10000) as u16);
    assert((raw / 0x10000) * 0x10000 + raw % 0x10000 == raw);
}

/// One model step publishes what it computed wherever the control surface
/// does not drive: the state-of-charge register, the active power and the
/// discharged energy (each read back as the int32 of its pair, whatever the
/// power flow) and the operating state (0 standby, 1 charging, 2
/// discharging); every other register, and every driven one, keeps its
/// value.
pub proof fn step_publishes_undriven_registers(
    m: Map<u16, u16>,
    driven: Set<u16>,
    soc_register: u16,
    active_power_w: i32,
    energy_discharged_wh: i32,
    flow: PowerFlow,
    a: u16,
)
    ensures
        ({
            let r = step_registers_spec(
                m,
                driven,
                soc_register,
                active_power_w,
                energy_discharged_wh,
                flow,
            );
            &&& !driven.contains(0) ==> r.contains_key(0) && r[0] == soc_register
            &&& !driven.contains(10) && !driven.contains(11) ==> int32_at(r, 10)
                == active_power_w as int
            &&& !driven.contains(30) && !driven.contains(31) ==> int32_at(r, 30)
                == energy_discharged_wh as int
            &&& !driven.contains(40) ==> r.contains_key(40) && r[40] == match flow {
                PowerFlow::Standby => 0u16,
                PowerFlow::Charging => 1u16,
                PowerFlow::Discharging => 2u16,
            }
            &&& (driven.contains(a) || (a != 0 && a != 10 && a != 11 && a != 30 && a != 31 && a
                != 40)) ==> r.contains_key(a) == m.contains_key(a) && (m.contains_key(a) ==> r[a]
                == m[a])
        }),
{
    let m1 = put_spec(m, driven, SOC, soc_register);
    let m2 = put_i32_spec(m1, driven, ACTIVE_POWER, active_power_w);
    let m3 = put_i32_spec(m2, driven, ENERGY_DISCHARGED, energy_discharged_wh);
    let r = put_spec(m3, driven, OPERATING_STATE, state_code(flow));
    if !driven.contains(10) && !driven.contains(11) {
        put_i32_then_read_i32(m1, driven, ACTIVE_POWER, active_power_w);
        assert(reg_or_zero(r, 10) == reg_or_zero(m2, 10));
        assert(reg_or_zero(r, 11) == reg_or_zero(m2, 11));
    }
    if !driven.contains(30) && !driven.contains(31) {
        put_i32_then_read_i32(m2, driven, ENERGY_DISCHARGED, energy_discharged_wh);
        assert(reg_or_zero(r, 30) == reg_or_zero(m3, 30));
        assert(reg_or_zero(r, 31) == reg_or_zero(m3, 31));
    }
}

/// Neither `put` nor `put_i32` changes a driven register.
pub proof fn puts_keep_driven_registers(
    m: Map<u16, u16>,
    driven: Set<u16>,
    addr: u16,
    word: u16,
    value: i32,
    a: u16,
)
    requires
        addr < u16::MAX,
        driven.contains(a),
    ensures
        put_spec(m, driven, addr, word).contains_key(a) == m.contains_key(a),
        put_spec(m, driven, addr, word)[a] == m[a],
        put_i32_spec(m, driven, addr, value).contains_key(a) == m.contains_key(a),
        put_i32_spec(m, driven, addr, value)[a] == m[a],
{
}

/// Initial register map for a rack whose state of charge, in tenths of a
/// percent, is `soc_tenths`.
pub fn initial_registers(soc_tenths: u16) -> (m: HashMap<u16, u16>)
    ensures
        m@ == initial_register_map(soc_tenths),
{
    let mut m: HashMap<u16, u16> = HashMap::new();
    m.insert(SOC, soc_tenths);
    m.insert(10, 0);
    m.insert(11, 0);
    m.insert(12, 0);
    m.insert(13, 0);
    m.insert(20, 4800);
    m.insert(22, 6000);
    m.insert(30, 0);
    m.insert(31, 0);
    m.insert(OPERATING_STATE, STANDBY);
    m.insert(SETPOINT, 0);
    m.insert(SETPOINT + 1, 0);
    proof {
        assert(m@ =~= initial_register_map(soc_tenths));
    }
    m
}

proof fn lemma_join_signed(high: u16, low: u16)
    ensures
        ((((high as u32) << 16u32) | (low as u32)) as i32) as int == as_signed32(
            high as int * 0x10000 + low as int,
        ),
{
    let w = ((high as u32) << 16u32) | (low as u32);
    assert(w == (high as u32) * 0x10000 + (low as u32)) by (bit_vector)
        requires
            w == ((high as u32) << 16u32) | (low as u32),
    ;
    assert((w as i32) as int == if w < 0x8000_0000u32 {
        w as int
    } else {
        w as int - 0x1_0000_0000
    }) by (bit_vector);
}

proof fn lemma_split_signed(value: i32)
    ensures
        ((value as u32) >> 16u32) as u16 == as_unsigned32(value as int) / 0x10000,
        (value as u32) as u16 == as_unsigned32(value as int) % 0x10000,
{
    let raw = value as u32;
    assert(raw as int == if value < 0 {
        value as int + 0x1_0000_0000
    } else {
        value as int
    }) by (bit_vector)
        requires
            raw == value as u32,
    ;
    assert((raw >> 16u32) as u16 == raw / 0x10000) by (bit_vector);
    assert(raw as u16 == raw % 0x10000) by (bit_vector);
}

/// Read an int32 (high word first) from `addr` and `addr + 1`; a missing
/// word reads as 0.
pub fn read_i32(holding: &HashMap<u16, u16>, addr: u16) -> (v: i32)
    requires
        addr < u16::MAX,
    ensures
        v as int == int32_at(holding@, addr),
{
    let high: u16 = match holding.get(&addr) {
        Some(h) => *h,
        None => 0,
    };
    let low: u16 = match holding.get(&(addr + 1)) {
        Some(l) => *l,
        None => 0,
    };
    proof {
        lemma_join_signed(high, low);
    }
    (((high as u32) << 16u32) | (low as u32)) as i32
}

/// Write a register unless the control surface is driving it.
pub fn put(holding: &mut HashMap<u16, u16>, driven: &HashSet<u16>, addr: u16, value: u16)
    ensures
        final(holding)@ == put_spec(old(holding)@, driven@, addr, value),
{
    if !driven.contains(&addr) {
        holding.insert(addr, value);
    }
}

/// Write an int32 (high word first) at `addr` and `addr + 1` unless either
/// word is driven.
pub fn put_i32(holding: &mut HashMap<u16, u16>, driven: &HashSet<u16>, addr: u16, value: i32)
    requires
        addr < u16::MAX,
    ensures
        final(holding)@ == put_i32_spec(old(holding)@, driven@, addr, value),
{
    if driven.contains(&addr) || driven.contains(&(addr + 1)) {
        return;
    }
    let raw = value as u32;
    proof {
        lemma_split_signed(value);
    }
    holding.insert(addr, (raw >> 16u32) as u16);
    holding.insert(addr + 1, raw as u16);
}

/// The operating_state code of a power direction.
pub fn operating_state(flow: PowerFlow) -> (code: u16)
    ensures
        code == state_code(flow),
{
    match flow {
        PowerFlow::Standby => STANDBY,
        PowerFlow::Charging => CHARGING,
        PowerFlow::Discharging => DISCHARGING,
    }
}

/// The state-of-charge register, when the control surface drives it and it
/// holds a value: the model then restarts from it.
pub fn driven_soc_register(holding: &HashMap<u16, u16>, driven: &HashSet<u16>) -> (r: Option<u16>)
    ensures
        r == (if driven@.contains(SOC) && holding@.contains_key(SOC) {
            Some(holding@[SOC])
        } else {
            None
        }),
{
    if driven.contains(&SOC) {
        match holding.get(&SOC) {
            Some(v) => Some(*v),
            None => None,
        }
    } else {
        None
    }
}

/// Publish the outcome of one model step: state of charge (tenths of a
/// percent), active power (W), lifetime discharged energy (Wh) and the
/// operating state. Driven registers are left as they are.
pub fn write_step_registers(
    holding: &mut HashMap<u16, u16>,
    driven: &HashSet<u16>,
    soc_register: u16,
    active_power_w: i32,
    energy_discharged_wh: i32,
    flow: PowerFlow,
)
    ensures
        final(holding)@ == step_registers_spec(
            old(holding)@,
            driven@,
            soc_register,
            active_power_w,
            energy_discharged_wh,
            flow,
        ),
{
    put(holding, driven, SOC, soc_register);
    put_i32(holding, driven, ACTIVE_POWER, active_power_w);
    put_i32(holding, driven, ENERGY_DISCHARGED, energy_discharged_wh);
    put(holding, driven, OPERATING_STATE, operating_state(flow));
}

} // verus!
