//! Execution core of a minimal cooperative operating-system kernel:
//! interrupt-controller bridge, trap-dispatch table model, physical frame
//! allocation, heap bring-up, and a round-robin process scheduler.
//!
//! Hardware register traffic is modelled as data: operations that would
//! program a port return the exact sequence of port writes to perform, so
//! the protocol logic (remap handshakes, end-of-interrupt ordering, mask
//! preservation) is verified while an unverified shim performs the writes.

pub mod drivers;
pub mod interrupts;
pub mod memory;
pub mod platform;
pub mod process;
pub mod port;
