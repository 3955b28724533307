//! A single byte-sized write to an x86 I/O port, recorded as a value.
//!
//! The verified core never touches hardware. Every operation that would
//! program a device instead returns the exact sequence of `PortWrite`s to
//! perform; an unverified shim replays them on the real ports.

use vstd::prelude::*;

verus! {

/// One byte written to one I/O port.
#[derive(Clone, Copy, PartialEq, Eq, Structural, Debug)]
pub struct PortWrite {
    /// The I/O port address.
    pub port: u16,
    /// The byte written to it.
    pub value: u8,
}

impl PortWrite {
    /// Record a write of `value` to `port`.
    pub fn new(port: u16, value: u8) -> (w: PortWrite)
        ensures
            w.port == port,
            w.value == value,
    {
        PortWrite { port, value }
    }
}

/// How many of the writes in `s` go to `port`.
pub open spec fn writes_to(s: Seq<PortWrite>, port: u16) -> nat
    decreases s.len(),
{
    if s.len() == 0 {
        0
    } else {
        writes_to(s.drop_last(), port) + if s.last().port == port {
            1nat
        } else {
            0nat
        }
    }
}

} // verus!
