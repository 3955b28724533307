//! Trap/interrupt dispatch: the vector-table model and the controller bridge.
//!
//! The dispatch table is the fixed 256-slot map from interrupt/exception
//! number to handler. Building it — which slots get which handler, and what
//! each handler may do afterwards — is verified logic; loading the table into
//! the CPU's descriptor register, and the trap-frame entry shims with their
//! special calling convention, belong to the unverified architecture layer.

pub mod pic;

use vstd::prelude::*;

verus! {

/// The vector of the divide-error CPU exception.
pub const DIVIDE_ERROR_VECTOR: u8 = 0;

/// The vector of the breakpoint CPU exception.
pub const BREAKPOINT_VECTOR: u8 = 3;

/// The vector of the general-protection-fault CPU exception.
pub const GENERAL_PROTECTION_FAULT_VECTOR: u8 = 13;

/// The vector of the page-fault CPU exception.
pub const PAGE_FAULT_VECTOR: u8 = 14;

/// The remapped vector of the periodic timer interrupt.
pub const TIMER_INTERRUPT_ID: u8 = 32;

/// The remapped vector of the keyboard interrupt.
pub const KEYBOARD_INTERRUPT_ID: u8 = 33;

/// Interrupt handling errors.
#[derive(Debug, Clone, Copy, PartialEq, Eq, Structural)]
pub enum InterruptError {
    /// Invalid interrupt number.
    InvalidInterrupt(u8),
    /// Handler registration failed.
    HandlerRegistrationFailed,
    /// Interrupt controller not initialized.
    ControllerNotInitialized,
}

/// The handlers the dispatch table can bind a vector to.
#[derive(Debug, Clone, Copy, PartialEq, Eq, Structural)]
pub enum HandlerKind {
    /// Divide-error exception handler.
    DivideError,
    /// Breakpoint exception handler.
    Breakpoint,
    /// General-protection-fault exception handler.
    GeneralProtectionFault,
    /// Page-fault exception handler.
    PageFault,
    /// Periodic-timer interrupt handler.
    Timer,
    /// Keyboard interrupt handler.
    Keyboard,
}

/// What a handler does once its minimal work is finished.
#[derive(Debug, Clone, Copy, PartialEq, Eq, Structural)]
pub enum HandlerAction {
    /// Return to the interrupted code.
    Resume,
    /// Report diagnostics and halt the machine indefinitely.
    Halt,
}

/// The outcome of each handler: a breakpoint is recoverable, and the
/// hardware-interrupt handlers return after acknowledgment; the divide-error,
/// general-protection and page faults are fatal by design — the machine
/// reports state and halts, with no process isolation yet.
pub open spec fn spec_handler_action(kind: HandlerKind) -> HandlerAction {
    match kind {
        HandlerKind::DivideError => HandlerAction::Halt,
        HandlerKind::Breakpoint => HandlerAction::Resume,
        HandlerKind::GeneralProtectionFault => HandlerAction::Halt,
        HandlerKind::PageFault => HandlerAction::Halt,
        HandlerKind::Timer => HandlerAction::Resume,
        HandlerKind::Keyboard => HandlerAction::Resume,
    }
}

/// What the handler for `kind` does after its diagnostic work.
pub fn handler_action(kind: HandlerKind) -> (r: HandlerAction)
    ensures
        r == spec_handler_action(kind),
{
    match kind {
        HandlerKind::DivideError => HandlerAction::Halt,
        HandlerKind::Breakpoint => HandlerAction::Resume,
        HandlerKind::GeneralProtectionFault => HandlerAction::Halt,
        HandlerKind::PageFault => HandlerAction::Halt,
        HandlerKind::Timer => HandlerAction::Resume,
        HandlerKind::Keyboard => HandlerAction::Resume,
    }
}

/// The dispatch table: 256 slots, one per interrupt/exception number; a slot
/// holds the handler bound to that vector, or nothing.
pub struct DispatchTable {
    entries: Vec<Option<HandlerKind>>,
}

impl DispatchTable {
    /// The handler bound to each vector.
    pub closed spec fn entries(self) -> Seq<Option<HandlerKind>> {
        self.entries@
    }

    /// The handler bound to vector `v`.
    pub open spec fn entry(self, v: int) -> Option<HandlerKind> {
        self.entries()[v]
    }

    /// The table has exactly one slot per possible vector.
    pub open spec fn wf(self) -> bool {
        self.entries().len() == 256
    }

    /// All required vectors are populated: the four CPU fault vectors and
    /// the two remapped hardware-interrupt vectors.
    pub open spec fn fully_installed(self) -> bool {
        &&& self.entry(DIVIDE_ERROR_VECTOR as int) == Some(HandlerKind::DivideError)
        &&& self.entry(BREAKPOINT_VECTOR as int) == Some(HandlerKind::Breakpoint)
        &&& self.entry(GENERAL_PROTECTION_FAULT_VECTOR as int) == Some(
            HandlerKind::GeneralProtectionFault,
        )
        &&& self.entry(PAGE_FAULT_VECTOR as int) == Some(HandlerKind::PageFault)
        &&& self.entry(TIMER_INTERRUPT_ID as int) == Some(HandlerKind::Timer)
        &&& self.entry(KEYBOARD_INTERRUPT_ID as int) == Some(HandlerKind::Keyboard)
    }

    /// An empty table: every slot unbound.
    pub fn new() -> (r: Self)
        ensures
            r.wf(),
            forall|v: int| 0 <= v < 256 ==> (#[trigger] r.entries()[v]) is None,
    {
        let mut entries: Vec<Option<HandlerKind>> = Vec::new();
        let mut i: usize = 0;
        while i < 256
            invariant
                0 <= i <= 256,
                entries@.len() == i,
                forall|v: int| 0 <= v < i ==> entries@[v] is None,
            decreases 256 - i,
        {
            entries.push(None);
            i = i + 1;
        }
        DispatchTable { entries }
    }

    /// Bind vector `vector` to `handler`.
    pub fn set_handler(&mut self, vector: u8, handler: HandlerKind)
        requires
            old(self).wf(),
        ensures
            final(self).wf(),
            final(self).entries() == old(self).entries().update(vector as int, Some(handler)),
    {
        self.entries.set(vector as usize, Some(handler));
    }

    /// The handler bound to `vector`.
    pub fn handler_for(&self, vector: u8) -> (r: Option<HandlerKind>)
        requires
            self.wf(),
        ensures
            r == self.entry(vector as int),
    {
        self.entries[vector as usize]
    }
}

/// Build the kernel's dispatch table: the four CPU fault vectors and the two
/// remapped hardware-interrupt vectors bound to their handlers, every other
/// slot left unbound. Loading the result into the CPU is the architecture
/// shim's one-time job at boot, before interrupts are unmasked.
pub fn init_idt() -> (idt: DispatchTable)
    ensures
        idt.wf(),
        idt.fully_installed(),
        forall|v: int|
            0 <= v < 256 && v != DIVIDE_ERROR_VECTOR && v != BREAKPOINT_VECTOR && v
                != GENERAL_PROTECTION_FAULT_VECTOR && v != PAGE_FAULT_VECTOR && v
                != TIMER_INTERRUPT_ID && v != KEYBOARD_INTERRUPT_ID ==> idt.entry(v) is None,
{
    let mut idt = DispatchTable::new();
    idt.set_handler(BREAKPOINT_VECTOR, HandlerKind::Breakpoint);
    idt.set_handler(PAGE_FAULT_VECTOR, HandlerKind::PageFault);
    idt.set_handler(GENERAL_PROTECTION_FAULT_VECTOR, HandlerKind::GeneralProtectionFault);
    idt.set_handler(DIVIDE_ERROR_VECTOR, HandlerKind::DivideError);
    idt.set_handler(TIMER_INTERRUPT_ID, HandlerKind::Timer);
    idt.set_handler(KEYBOARD_INTERRUPT_ID, HandlerKind::Keyboard);
    idt
}

} // verus!
