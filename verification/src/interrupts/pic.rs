//! The dual-chip interrupt-controller bridge.
//!
//! Two chained 8-interrupt controller chips gate hardware interrupt lines.
//! Each chip owns the 8 vectors `[offset, offset + 8)`; the secondary chip is
//! wired through one line of the primary, so an event on the secondary chip
//! must be acknowledged on both chips, secondary first. The bridge never
//! touches hardware here: every operation returns the exact port writes to
//! perform, and the chip state (offsets, masks) is tracked as plain values.

use vstd::prelude::*;

use crate::port::PortWrite;
use crate::port::writes_to;

verus! {

/// The vector-base offset of the primary chip after remapping.
pub const PIC_1_OFFSET: u8 = 32;
/// The vector-base offset of the secondary chip after remapping.
pub const PIC_2_OFFSET: u8 = 40;

/// Command sent to begin a chip's 3-byte initialization handshake.
pub const CMD_INIT: u8 = 0x11;
/// Command sent to acknowledge an interrupt (end of interrupt).
pub const CMD_END_OF_INTERRUPT: u8 = 0x20;
/// The operating mode programmed into each chip.
pub const MODE_8086: u8 = 0x01;

/// A single interrupt-controller chip.
#[derive(Debug, Clone, Copy, PartialEq, Eq, Structural)]
pub struct Pic {
    /// The base vector offset for interrupts on this chip.
    pub offset: u8,
    /// The chip's command port.
    pub command: u16,
    /// The chip's data port.
    pub data: u16,
    /// The chip's interrupt mask: bit `i` set means line `i` is disabled.
    pub mask: u8,
}

/// Does the chip own vector `interrupt_id`, i.e. is it in `[offset, offset + 8)`?
pub open spec fn pic_handles(p: Pic, interrupt_id: u8) -> bool {
    p.offset <= interrupt_id && interrupt_id < p.offset + 8
}

impl Pic {
    /// Are we in charge of handling the specified interrupt?
    pub fn handles_interrupt(&self, interrupt_id: u8) -> (r: bool)
        ensures
            r == pic_handles(*self, interrupt_id),
    {
        self.offset <= interrupt_id && (interrupt_id as u16) < self.offset as u16 + 8
    }

    /// The port write that acknowledges an interrupt on this chip.
    pub fn end_of_interrupt(&self) -> (w: PortWrite)
        ensures
            w == (PortWrite { port: self.command, value: CMD_END_OF_INTERRUPT }),
    {
        PortWrite { port: self.command, value: CMD_END_OF_INTERRUPT }
    }
}

/// A pair of chained controller chips (primary and secondary).
#[derive(Debug, Clone, Copy, PartialEq, Eq, Structural)]
pub struct ChainedPics {
    /// The primary chip, on ports 0x20/0x21.
    pub primary: Pic,
    /// The secondary chip, on ports 0xA0/0xA1, wired through the primary.
    pub secondary: Pic,
}

impl ChainedPics {
    /// The chips are chained (secondary range directly above the primary's)
    /// and their ports are distinct.
    pub open spec fn wf(self) -> bool {
        &&& self.secondary.offset == self.primary.offset + 8
        &&& self.primary.command != self.secondary.command
        &&& self.primary.data != self.secondary.data
        &&& self.primary.command != self.secondary.data
        &&& self.primary.data != self.secondary.command
    }

    /// The current interrupt masks of both chips, primary first.
    pub open spec fn masks(self) -> (u8, u8) {
        (self.primary.mask, self.secondary.mask)
    }

    /// The state with both masks replaced.
    pub open spec fn with_masks(self, mask1: u8, mask2: u8) -> ChainedPics {
        ChainedPics {
            primary: Pic { mask: mask1, ..self.primary },
            secondary: Pic { mask: mask2, ..self.secondary },
        }
    }

    /// The exact port-write sequence of the remap handshake: one init command
    /// per chip, then per chip the vector offset, the chaining byte, and the
    /// operating mode, and finally the restore of each chip's saved mask.
    pub open spec fn init_writes(self) -> Seq<PortWrite> {
        seq![
            PortWrite { port: self.primary.command, value: CMD_INIT },
            PortWrite { port: self.secondary.command, value: CMD_INIT },
            PortWrite { port: self.primary.data, value: self.primary.offset },
            PortWrite { port: self.secondary.data, value: self.secondary.offset },
            PortWrite { port: self.primary.data, value: 4 },
            PortWrite { port: self.secondary.data, value: 2 },
            PortWrite { port: self.primary.data, value: MODE_8086 },
            PortWrite { port: self.secondary.data, value: MODE_8086 },
            PortWrite { port: self.primary.data, value: self.primary.mask },
            PortWrite { port: self.secondary.data, value: self.secondary.mask },
        ]
    }

    /// Does either chip own vector `interrupt_id`?
    pub open spec fn spec_handles(self, interrupt_id: u8) -> bool {
        pic_handles(self.primary, interrupt_id) || pic_handles(self.secondary, interrupt_id)
    }

    /// The exact acknowledgment sequence for `interrupt_id`: the secondary
    /// chip (if it owns the vector) first, then the primary chip whenever
    /// either chip owns it, since secondary events also pass through the
    /// primary.
    pub open spec fn eoi_writes(self, interrupt_id: u8) -> Seq<PortWrite> {
        if pic_handles(self.secondary, interrupt_id) {
            seq![
                PortWrite { port: self.secondary.command, value: CMD_END_OF_INTERRUPT },
                PortWrite { port: self.primary.command, value: CMD_END_OF_INTERRUPT },
            ]
        } else if pic_handles(self.primary, interrupt_id) {
            seq![PortWrite { port: self.primary.command, value: CMD_END_OF_INTERRUPT }]
        } else {
            Seq::empty()
        }
    }

    /// Construct the chained pair with the standard ports. Until the kernel
    /// programs them, the model takes every line as masked.
    pub fn new(offset1: u8, offset2: u8) -> (r: ChainedPics)
        requires
            offset2 == offset1 + 8,
        ensures
            r.primary.offset == offset1,
            r.secondary.offset == offset2,
            r.masks() == (0xFFu8, 0xFFu8),
            r.primary.command == 0x20 && r.primary.data == 0x21,
            r.secondary.command == 0xA0 && r.secondary.data == 0xA1,
            r.wf(),
    {
        ChainedPics {
            primary: Pic { offset: offset1, command: 0x20, data: 0x21, mask: 0xFF },
            secondary: Pic { offset: offset2, command: 0xA0, data: 0xA1, mask: 0xFF },
        }
    }

    /// Initialize both chips: the 3-byte remap handshake per chip, with the
    /// previously saved masks written back at the end, so lines that were
    /// disabled stay disabled. The chip state is unchanged; the caller must
    /// perform the returned writes with interrupts globally disabled.
    pub fn initialize(&mut self) -> (writes: Vec<PortWrite>)
        ensures
            *final(self) == *old(self),
            writes@ == old(self).init_writes(),
    {
        // Save current masks, to restore them after the handshake.
        let saved_mask1 = self.primary.mask;
        let saved_mask2 = self.secondary.mask;

        let mut writes: Vec<PortWrite> = Vec::new();

        // Tell each chip that a three-byte initialization sequence follows on
        // its data port.
        writes.push(PortWrite { port: self.primary.command, value: CMD_INIT });
        writes.push(PortWrite { port: self.secondary.command, value: CMD_INIT });

        // Byte 1: the vector-base offsets.
        writes.push(PortWrite { port: self.primary.data, value: self.primary.offset });
        writes.push(PortWrite { port: self.secondary.data, value: self.secondary.offset });

        // Byte 2: chaining (secondary wired to line 2 of the primary).
        writes.push(PortWrite { port: self.primary.data, value: 4 });
        writes.push(PortWrite { port: self.secondary.data, value: 2 });

        // Byte 3: operating mode.
        writes.push(PortWrite { port: self.primary.data, value: MODE_8086 });
        writes.push(PortWrite { port: self.secondary.data, value: MODE_8086 });

        // Restore the saved masks.
        writes.push(PortWrite { port: self.primary.data, value: saved_mask1 });
        writes.push(PortWrite { port: self.secondary.data, value: saved_mask2 });

        proof {
            assert(writes@ =~= old(self).init_writes());
        }
        writes
    }

    /// The interrupt masks of both chips, primary first.
    pub fn read_masks(&mut self) -> (r: (u8, u8))
        ensures
            *final(self) == *old(self),
            r == old(self).masks(),
    {
        (self.primary.mask, self.secondary.mask)
    }

    /// Set the interrupt masks of both chips.
    pub fn write_masks(&mut self, mask1: u8, mask2: u8) -> (writes: Vec<PortWrite>)
        ensures
            *final(self) == old(self).with_masks(mask1, mask2),
            writes@ == seq![
                (PortWrite { port: old(self).primary.data, value: mask1 }),
                (PortWrite { port: old(self).secondary.data, value: mask2 }),
            ],
    {
        self.primary.mask = mask1;
        self.secondary.mask = mask2;
        let mut writes: Vec<PortWrite> = Vec::new();
        writes.push(PortWrite { port: self.primary.data, value: mask1 });
        writes.push(PortWrite { port: self.secondary.data, value: mask2 });
        proof {
            assert(writes@ =~= seq![
                (PortWrite { port: old(self).primary.data, value: mask1 }),
                (PortWrite { port: old(self).secondary.data, value: mask2 }),
            ]);
        }
        writes
    }

    /// Disable both chips by masking every interrupt line.
    pub fn disable(&mut self) -> (writes: Vec<PortWrite>)
        ensures
            *final(self) == old(self).with_masks(0xFF, 0xFF),
            writes@ == seq![
                (PortWrite { port: old(self).primary.data, value: 0xFFu8 }),
                (PortWrite { port: old(self).secondary.data, value: 0xFFu8 }),
            ],
    {
        self.write_masks(0xFF, 0xFF)
    }

    /// Do we handle this interrupt?
    pub fn handles_interrupt(&self, interrupt_id: u8) -> (r: bool)
        ensures
            r == self.spec_handles(interrupt_id),
    {
        self.primary.handles_interrupt(interrupt_id)
            || self.secondary.handles_interrupt(interrupt_id)
    }

    /// The acknowledgment writes for `interrupt_id`. An event owned by the
    /// secondary chip is acknowledged on the secondary chip first and then on
    /// the primary chip; one owned by the primary chip alone is acknowledged
    /// on the primary chip only; a vector owned by neither needs nothing.
    pub fn notify_end_of_interrupt(&mut self, interrupt_id: u8) -> (writes: Vec<PortWrite>)
        ensures
            *final(self) == *old(self),
            writes@ == old(self).eoi_writes(interrupt_id),
    {
        let mut writes: Vec<PortWrite> = Vec::new();
        if self.handles_interrupt(interrupt_id) {
            if self.secondary.handles_interrupt(interrupt_id) {
                writes.push(self.secondary.end_of_interrupt());
            }
            writes.push(self.primary.end_of_interrupt());
        }
        proof {
            assert(writes@ =~= old(self).eoi_writes(interrupt_id));
        }
        writes
    }
}

/// On a chained pair the two chips' vector ranges are disjoint: no vector is
/// owned by both chips.
pub proof fn lemma_chip_ranges_disjoint(c: ChainedPics, interrupt_id: u8)
    requires
        c.wf(),
    ensures
        !(pic_handles(c.primary, interrupt_id) && pic_handles(c.secondary, interrupt_id)),
{
}

/// Mask preservation across the remap handshake: whatever masks are set
/// before initialization are exactly the masks the handshake's final two
/// writes program back into the chips, and the chip state afterwards reports
/// those same masks.
pub proof fn lemma_initialize_restores_masks(c: ChainedPics, mask1: u8, mask2: u8)
    ensures
        ({
            let d = c.with_masks(mask1, mask2);
            &&& d.masks() == (mask1, mask2)
            &&& d.init_writes().len() == 10
            &&& d.init_writes()[8] == (PortWrite { port: d.primary.data, value: mask1 })
            &&& d.init_writes()[9] == (PortWrite { port: d.secondary.data, value: mask2 })
        }),
{
}

/// Acknowledging a vector owned by the secondary chip issues exactly one
/// acknowledgment to each chip, the secondary chip's strictly before the
/// primary chip's.
pub proof fn lemma_eoi_secondary(c: ChainedPics, interrupt_id: u8)
    requires
        c.wf(),
        pic_handles(c.secondary, interrupt_id),
    ensures
        ({
            let w = c.eoi_writes(interrupt_id);
            &&& w.len() == 2
            &&& w[0] == (PortWrite { port: c.secondary.command, value: CMD_END_OF_INTERRUPT })
            &&& w[1] == (PortWrite { port: c.primary.command, value: CMD_END_OF_INTERRUPT })
            &&& writes_to(w, c.secondary.command) == 1
            &&& writes_to(w, c.primary.command) == 1
        }),
{
    let w = c.eoi_writes(interrupt_id);
    let w1 = w.drop_last();
    assert(w1 =~= seq![
        (PortWrite { port: c.secondary.command, value: CMD_END_OF_INTERRUPT }),
    ]);
    assert(w1.drop_last() =~= Seq::<PortWrite>::empty());
    assert(writes_to(Seq::<PortWrite>::empty(), c.secondary.command) == 0);
    assert(writes_to(Seq::<PortWrite>::empty(), c.primary.command) == 0);
    assert(writes_to(w1, c.secondary.command) == 1);
    assert(writes_to(w1, c.primary.command) == 0);
    assert(writes_to(w, c.secondary.command) == 1);
    assert(writes_to(w, c.primary.command) == 1);
}

/// Acknowledging a vector owned by the primary chip alone issues exactly one
/// acknowledgment, to the primary chip, and none to the secondary chip.
pub proof fn lemma_eoi_primary_only(c: ChainedPics, interrupt_id: u8)
    requires
        c.wf(),
        pic_handles(c.primary, interrupt_id),
    ensures
        ({
            let w = c.eoi_writes(interrupt_id);
            &&& w.len() == 1
            &&& w[0] == (PortWrite { port: c.primary.command, value: CMD_END_OF_INTERRUPT })
            &&& writes_to(w, c.primary.command) == 1
            &&& writes_to(w, c.secondary.command) == 0
        }),
{
    lemma_chip_ranges_disjoint(c, interrupt_id);
    let w = c.eoi_writes(interrupt_id);
    assert(w.drop_last() =~= Seq::<PortWrite>::empty());
    assert(writes_to(Seq::<PortWrite>::empty(), c.primary.command) == 0);
    assert(writes_to(Seq::<PortWrite>::empty(), c.secondary.command) == 0);
    assert(writes_to(w, c.primary.command) == 1);
    assert(writes_to(w, c.secondary.command) == 0);
}

/// A vector owned by neither chip needs no acknowledgment at all.
pub proof fn lemma_eoi_unowned(c: ChainedPics, interrupt_id: u8)
    requires
        !c.spec_handles(interrupt_id),
    ensures
        c.eoi_writes(interrupt_id).len() == 0,
{
}

} // verus!
