//! Modbus holding-register fixtures.

pub mod battery;
pub mod control;
pub mod handler;
pub mod registers;
pub mod simulator;
