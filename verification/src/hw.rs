//! Access to hardware devices over the runtime's IPC primitives: the
//! device handle, device-tree property parsing, and the typed errors the
//! device protocol reports.

pub mod device;
pub mod error;
