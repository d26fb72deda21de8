//! SNMP agent fixture: OID store, simulator, control surface, v2c and v3
//! (USM) message handling.

pub mod agent;
pub mod ber;
pub mod control;
pub mod oid;
pub mod pdu;
pub mod simulator;
pub mod store;
pub mod usm;
pub mod v3;
