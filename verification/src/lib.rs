//! Core engine of a desktop connectivity panel: WiFi access-point
//! reconciliation, connection orchestration, hotspot lifecycle, Bluetooth
//! device reconciliation and pairing, and the panel's visibility state.
//!
//! Everything here is pure logic over plain values. The surrounding
//! process talks to the network and Bluetooth daemons, feeds the results
//! in as plain data, and carries the decisions made here back out.

pub mod access_point;
pub mod bluetooth;
pub mod bluetooth_device;
pub mod config;
pub mod connection;
pub mod hotspot;
pub mod network;
pub mod panel;
pub mod text;
