//! Firmware images and flashing protocol for Renesas digital multiphase
//! power controllers, together with a decoder for ITM trace packets.
//!
//! Everything here is pure: it parses bytes, builds operation lists and
//! interprets results.  Talking to a device is left to the caller.

pub mod bytes;
pub mod device;
pub mod dump;
pub mod flash;
pub mod hex;
pub mod ingest;
pub mod itm;
pub mod ops;
pub mod status;
pub mod text;
pub mod topology;
