//! Verified core of a family of industrial-protocol test fixtures: a Modbus
//! meter and battery rack, an SNMP agent (v2c and v3 USM), and a BACnet/IP
//! device.

pub mod bacnet;
pub mod bacnet_server;
pub mod modbus;
pub mod snmp;
