//! Decision logic of an unattended SD-card flashing appliance.
//!
//! The appliance waits for a large enough removable block device, waits for a
//! button press, writes a disk image onto the device, reads it back to verify
//! it, and shows what it is doing on a red and a green LED. This crate holds
//! every rule of that behaviour as verified code over plain values; reading
//! files, driving GPIO lines and scheduling are left to the program around it.

pub mod button;
pub mod cell;
pub mod copy;
pub mod digest;
pub mod led;
pub mod memory;
pub mod orchestrator;
pub mod scanner;
pub mod state;
