use industrial_fixtures::modbus::handler::MeterHandler;
use industrial_fixtures::modbus::registers::holding_registers;
use std::collections::HashMap;

fn int32_high_low(m: &HashMap<u16, u16>, addr: u16) -> i32 {
    ((u32::from(m[&addr]) << 16) | u32::from(m[&(addr + 1)])) as i32
}

fn int16(m: &HashMap<u16, u16>, addr: u16) -> i16 {
    m[&addr] as i16
}

#[test]
fn every_poi_meter_binding_reads_a_plausible_value() {
    let m = holding_registers();

    let kwh_delivered = f64::from(int32_high_low(&m, 4000));
    let kwh_received = f64::from(int32_high_low(&m, 4002));
    let power_factor = f64::from(int16(&m, 4010)) * 0.001;
    let thd_a = f64::from(int16(&m, 4020)) * 0.01;
    let thd_b = f64::from(int16(&m, 4021)) * 0.01;
    let thd_c = f64::from(int16(&m, 4022)) * 0.01;

    assert_eq!(kwh_delivered, 1_000_000.0);
    assert_eq!(kwh_received, 250_000.0);
    assert!((power_factor - 0.98).abs() < 1e-9);
    assert!((thd_a - 2.10).abs() < 1e-9);
    assert!((thd_b - 2.35).abs() < 1e-9);
    assert!((thd_c - 1.95).abs() < 1e-9);
}

#[test]
fn apply_writes_updates_values_and_marks_driven() {
    let mut handler = MeterHandler::new(HashMap::from([(4000, 1)]));
    let writes = HashMap::from([(4000, 15), (4001, 16960)]);

    handler.apply_writes(&writes);

    assert_eq!(handler.holding.get(&4000), Some(&15));
    assert_eq!(handler.holding.get(&4001), Some(&16960));
    assert!(handler.driven.contains(&4000));
    assert!(handler.driven.contains(&4001));
}

use industrial_fixtures::modbus::battery::{
    driven_soc_register, initial_registers, operating_state, put, put_i32, read_i32,
    write_step_registers, PowerFlow, ACTIVE_POWER, CHARGING, DISCHARGING, ENERGY_DISCHARGED,
    OPERATING_STATE, SETPOINT, SOC, STANDBY,
};
use industrial_fixtures::modbus::handler::ModbusException;
use industrial_fixtures::modbus::simulator::Simulator;
use std::collections::HashSet;

#[test]
fn tick_advances_undriven_sawtooth() {
    let mut holding = HashMap::from([(4000, 0x000F), (4001, 0x4240)]);
    let sim = Simulator::new();

    sim.tick(&mut holding, &HashSet::new());

    assert_eq!(holding.get(&4000), Some(&0x000F));
    assert_eq!(holding.get(&4001), Some(&0x42A4));
}

#[test]
fn tick_skips_control_driven_channels() {
    let mut holding = HashMap::from([(4000, 0x1234), (4001, 0x5678)]);
    let driven = HashSet::from([4000]);
    let sim = Simulator::new();

    sim.tick(&mut holding, &driven);

    assert_eq!(holding.get(&4000), Some(&0x1234));
    assert_eq!(holding.get(&4001), Some(&0x5678));
}

#[test]
fn tick_wraps_past_max_and_reads_missing_words_as_zero() {
    // 1_009_950 + 100 > 1_010_000 -> back to 1_000_000 = 0x000F4240
    let mut holding = HashMap::from([(4000, 0x000F), (4001, 0x691E)]);
    Simulator::default().tick(&mut holding, &HashSet::new());
    assert_eq!(holding.get(&4000), Some(&0x000F));
    assert_eq!(holding.get(&4001), Some(&0x4240));

    // Empty map: 0 + 100 = 100, written as 0x0000 / 0x0064
    let mut empty = HashMap::new();
    Simulator::new().tick(&mut empty, &HashSet::new());
    assert_eq!(empty.get(&4000), Some(&0));
    assert_eq!(empty.get(&4001), Some(&100));
}

#[test]
fn read_holding_register_misses_with_illegal_data_address() {
    let handler = MeterHandler::new(holding_registers());
    assert_eq!(handler.read_holding_register(4010), Ok(980));
    assert_eq!(handler.read_holding_register(1), Err(ModbusException::IllegalDataAddress));
}

#[test]
fn protocol_writes_are_refused_unless_writable() {
    let mut handler = MeterHandler::new(holding_registers());
    assert_eq!(
        handler.write_multiple_registers(&vec![(4000, 1)]),
        Err(ModbusException::IllegalFunction)
    );
    assert_eq!(handler.holding.get(&4000), Some(&0x000F));
    assert!(handler.driven.is_empty());

    handler.writable = true;
    assert_eq!(handler.write_multiple_registers(&vec![(4000, 1), (4001, 2), (4000, 3)]), Ok(()));
    assert_eq!(handler.holding.get(&4000), Some(&3));
    assert_eq!(handler.holding.get(&4001), Some(&2));
    assert!(handler.driven.contains(&4000) && handler.driven.contains(&4001));
}

#[test]
fn int32_round_trips_through_register_pair() {
    let mut holding = HashMap::new();
    put_i32(&mut holding, &HashSet::new(), SETPOINT, -400_000);
    assert_eq!(holding.get(&SETPOINT), Some(&0xFFF9));
    assert_eq!(holding.get(&(SETPOINT + 1)), Some(&0xE580));
    assert_eq!(read_i32(&holding, SETPOINT), -400_000);
    put_i32(&mut holding, &HashSet::new(), ACTIVE_POWER, i32::MAX);
    assert_eq!(read_i32(&holding, ACTIVE_POWER), i32::MAX);
    assert_eq!(read_i32(&HashMap::new(), 7), 0);
}

#[test]
fn puts_leave_driven_registers_alone() {
    let mut holding = HashMap::from([(SOC, 250), (ACTIVE_POWER + 1, 9)]);
    let driven = HashSet::from([SOC, ACTIVE_POWER + 1]);
    put(&mut holding, &driven, SOC, 400);
    put_i32(&mut holding, &driven, ACTIVE_POWER, 123);
    assert_eq!(holding.get(&SOC), Some(&250));
    assert_eq!(holding.get(&ACTIVE_POWER), None);
    assert_eq!(holding.get(&(ACTIVE_POWER + 1)), Some(&9));
}

#[test]
fn initial_rack_registers() {
    let m = initial_registers(600);
    assert_eq!(m.len(), 12);
    assert_eq!(m.get(&SOC), Some(&600));
    assert_eq!(m.get(&20), Some(&4800));
    assert_eq!(m.get(&22), Some(&6000));
    assert_eq!(m.get(&OPERATING_STATE), Some(&STANDBY));
    assert_eq!(read_i32(&m, SETPOINT), 0);
}

#[test]
fn step_registers_publish_state() {
    let mut holding = initial_registers(500);
    write_step_registers(&mut holding, &HashSet::new(), 400, 400_000, 400_000, PowerFlow::Discharging);
    assert_eq!(holding.get(&SOC), Some(&400));
    assert_eq!(read_i32(&holding, ACTIVE_POWER), 400_000);
    assert_eq!(read_i32(&holding, ENERGY_DISCHARGED), 400_000);
    assert_eq!(holding.get(&OPERATING_STATE), Some(&DISCHARGING));
    assert_eq!(operating_state(PowerFlow::Charging), CHARGING);
    assert_eq!(operating_state(PowerFlow::Standby), STANDBY);
}

#[test]
fn driven_soc_register_is_the_new_truth() {
    let holding = HashMap::from([(SOC, 250)]);
    assert_eq!(driven_soc_register(&holding, &HashSet::from([SOC])), Some(250));
    assert_eq!(driven_soc_register(&holding, &HashSet::new()), None);
}

#[test]
fn written_registers_survive_ticks() {
    let mut handler = MeterHandler::new(holding_registers());
    handler.apply_writes(&HashMap::from([(4001, 7)]));
    let sim = Simulator::new();
    for _ in 0..5 {
        sim.tick(&mut handler.holding, &handler.driven);
    }
    assert_eq!(handler.holding.get(&4000), Some(&0x000F));
    assert_eq!(handler.holding.get(&4001), Some(&7));
}
