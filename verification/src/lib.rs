//! Verified core of a board-support library for the CrowPanel Advance 5.0 HMI
//! (ESP32-S3): the RGB LCD drawing rules, the GT911 touch-controller register
//! protocol, the STC8H1K28 co-processor command set and the wireless-module
//! port pinout.
//!
//! Everything here computes on plain values; the bus and FFI calls that move
//! those values to the hardware live in the companion application crate.

pub mod crow_panel;
pub mod gt911;
pub mod stc8h1k28;
pub mod wireless;
