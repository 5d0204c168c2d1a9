//! Slave-side driver logic for a two-wire (I2C/TWI) serial bus peripheral.
//!
//! The crate holds the protocol core of such a driver: the status decoder
//! that turns raw status bytes into logical bus events, the register model of
//! the bus controller, and the transaction engine that drives a receive or a
//! respond transaction edge by edge. Hardware access itself (memory-mapped
//! registers, the interrupt that signals each bus edge) stays outside: the
//! surrounding program reads the status register on each interrupt and hands
//! the engine one status snapshot at a time, then copies the register values
//! the engine decided on back to the hardware.

pub mod controller;
pub mod error;
pub mod event;
pub mod receive;
pub mod respond;
