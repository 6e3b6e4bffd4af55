//! Control logic of a daemon that supervises "mitch" Bluetooth Low-Energy
//! pressure sensors: the device opcode table, the framing of the local IPC
//! protocol, the device registry, the per-device actor state machine and the
//! command dispatcher. Transport, sockets and sample publication live outside
//! the library and drive these verified pieces.

pub mod actor;
pub mod dispatch;
pub mod frame;
pub mod hci;
pub mod mitch;
pub mod protocol;
pub mod registry;
