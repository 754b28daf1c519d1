//! Expected-measurement computation for TDX confidential VMs: firmware and
//! image parsing, event-log parsing and register reconstruction.

pub mod azure;
pub mod bytes;
pub mod ccel;
pub mod dcap;
pub mod esp;
pub mod hash;
pub mod order;
pub mod platform;
pub mod register;
pub mod text;
pub mod types;
pub mod uki;
pub mod verify;
