//! Timer driver model: the programmable interval timer's configuration
//! protocol and the system tick counter it drives.
//!
//! Programming the timer chip is expressed as port writes for the shim to
//! perform; the tick counter and the time derived from it are plain verified
//! state.

use vstd::prelude::*;

use crate::drivers::DriverError;
use crate::interrupts::TIMER_INTERRUPT_ID;
use crate::interrupts::pic::ChainedPics;
use crate::port::PortWrite;

verus! {

/// The interval timer's input clock, in Hz.
pub const PIT_BASE_FREQUENCY: u64 = 1193182;

/// The divisor programmed into the timer chip for a target frequency.
pub open spec fn pit_divisor(frequency: u32) -> u64
    recommends
        frequency >= 1,
{
    PIT_BASE_FREQUENCY / frequency as u64
}

/// Programmable interval timer driver.
#[derive(Debug, Clone, Copy, PartialEq, Eq, Structural)]
pub struct PitTimer {
    /// Whether the timer has been programmed.
    pub initialized: bool,
    /// The timer chip's command register port.
    pub command_port: u16,
    /// The timer chip's data register port.
    pub data_port: u16,
    /// The programmed interrupt frequency, in Hz; 0 before configuration.
    pub frequency: u32,
}

impl PitTimer {
    /// Create a new interval timer driver on the standard ports.
    pub fn new() -> (r: Self)
        ensures
            !r.initialized,
            r.command_port == 0x43,
            r.data_port == 0x40,
            r.frequency == 0,
    {
        Self { initialized: false, command_port: 0x43, data_port: 0x40, frequency: 0 }
    }

    /// Configure the timer for `frequency` interrupts per second: the mode
    /// command followed by the divisor's low and high bytes on the data port.
    /// A zero frequency is meaningless for a divisor and excluded.
    pub fn configure(&mut self, frequency: u32) -> (writes: Vec<PortWrite>)
        requires
            frequency >= 1,
        ensures
            *final(self) == (PitTimer { frequency, ..*old(self) }),
            writes@ == seq![
                (PortWrite { port: old(self).command_port, value: 0x36 }),
                (PortWrite {
                    port: old(self).data_port,
                    value: (pit_divisor(frequency) & 0xFF) as u8,
                }),
                (PortWrite {
                    port: old(self).data_port,
                    value: ((pit_divisor(frequency) >> 8) & 0xFF) as u8,
                }),
            ],
    {
        self.frequency = frequency;

        // The chip counts down from this divisor at its base frequency.
        let divisor = PIT_BASE_FREQUENCY / frequency as u64;

        let mut writes: Vec<PortWrite> = Vec::new();
        writes.push(PortWrite { port: self.command_port, value: 0x36 });
        writes.push(PortWrite { port: self.data_port, value: (divisor & 0xFF) as u8 });
        writes.push(PortWrite { port: self.data_port, value: ((divisor >> 8) & 0xFF) as u8 });
        proof {
            assert(writes@ =~= seq![
                (PortWrite { port: old(self).command_port, value: 0x36 }),
                (PortWrite {
                    port: old(self).data_port,
                    value: (pit_divisor(frequency) & 0xFF) as u8,
                }),
                (PortWrite {
                    port: old(self).data_port,
                    value: ((pit_divisor(frequency) >> 8) & 0xFF) as u8,
                }),
            ]);
        }
        writes
    }

    /// The programmed timer frequency.
    pub fn frequency(&self) -> (r: u32)
        ensures
            r == self.frequency,
    {
        self.frequency
    }

    /// The driver name.
    pub fn name(&self) -> (r: &'static str)
        ensures
            r@ == "PIT Timer"@,
    {
        "PIT Timer"
    }

    /// Program the timer at 1000 Hz (one interrupt per millisecond).
    pub fn init(&mut self) -> (r: Result<Vec<PortWrite>, DriverError>)
        ensures
            final(self).initialized,
            final(self).frequency == 1000,
            final(self).command_port == old(self).command_port,
            final(self).data_port == old(self).data_port,
            r matches Ok(writes) && writes@ == seq![
                (PortWrite { port: old(self).command_port, value: 0x36 }),
                (PortWrite { port: old(self).data_port, value: (pit_divisor(1000) & 0xFF) as u8 }),
                (PortWrite {
                    port: old(self).data_port,
                    value: ((pit_divisor(1000) >> 8) & 0xFF) as u8,
                }),
            ],
    {
        let writes = self.configure(1000);
        self.initialized = true;
        Ok(writes)
    }

    /// Reset the timer chip and mark the driver uninitialized.
    pub fn deinit(&mut self) -> (r: Result<Vec<PortWrite>, DriverError>)
        ensures
            !final(self).initialized,
            final(self).frequency == old(self).frequency,
            final(self).command_port == old(self).command_port,
            final(self).data_port == old(self).data_port,
            r matches Ok(writes) && writes@ == seq![
                (PortWrite { port: old(self).command_port, value: 0x30 }),
                (PortWrite { port: old(self).data_port, value: 0u8 }),
                (PortWrite { port: old(self).data_port, value: 0u8 }),
            ],
    {
        let mut writes: Vec<PortWrite> = Vec::new();
        writes.push(PortWrite { port: self.command_port, value: 0x30 });
        writes.push(PortWrite { port: self.data_port, value: 0 });
        writes.push(PortWrite { port: self.data_port, value: 0 });
        self.initialized = false;
        proof {
            assert(writes@ =~= seq![
                (PortWrite { port: old(self).command_port, value: 0x30 }),
                (PortWrite { port: old(self).data_port, value: 0u8 }),
                (PortWrite { port: old(self).data_port, value: 0u8 }),
            ]);
        }
        Ok(writes)
    }

    /// Whether the timer has been programmed.
    pub fn is_initialized(&self) -> (r: bool)
        ensures
            r == self.initialized,
    {
        self.initialized
    }
}

/// A point in time derived from the tick counter.
#[derive(Debug, Clone, Copy, PartialEq, Eq, Structural)]
pub struct SystemTime {
    pub seconds: u64,
    pub milliseconds: u32,
}

/// System timer: tracks elapsed timer ticks since boot over the interval
/// timer programmed at 1000 Hz, so one tick is one millisecond.
#[derive(Debug, Clone, Copy, PartialEq, Eq, Structural)]
pub struct SystemTimer {
    /// Ticks since boot.
    pub ticks: u64,
    /// The underlying interval timer.
    pub timer: PitTimer,
}

impl SystemTimer {
    /// Create a new system timer at tick zero.
    pub fn new() -> (r: Self)
        ensures
            r.ticks == 0,
            !r.timer.initialized,
    {
        Self { ticks: 0, timer: PitTimer::new() }
    }

    /// Initialize the system timer: program the interval timer and restart
    /// the tick count.
    pub fn init(&mut self) -> (r: Result<Vec<PortWrite>, DriverError>)
        ensures
            final(self).ticks == 0,
            final(self).timer.initialized,
            final(self).timer.frequency == 1000,
            r is Ok,
    {
        let writes = match self.timer.init() {
            Ok(w) => w,
            Err(e) => {
                return Err(e);
            },
        };
        self.ticks = 0;
        Ok(writes)
    }

    /// Count one timer tick. The counter is 64 bits wide; at 1000 Hz it
    /// cannot reach its limit in any realistic uptime, and the limit is
    /// excluded rather than wrapped.
    pub fn handle_tick(&mut self)
        requires
            old(self).ticks < u64::MAX,
        ensures
            final(self).ticks == old(self).ticks + 1,
            final(self).timer == old(self).timer,
    {
        self.ticks = self.ticks + 1;
    }

    /// The number of ticks since boot.
    pub fn ticks(&self) -> (r: u64)
        ensures
            r == self.ticks,
    {
        self.ticks
    }

    /// The current system time: at 1000 Hz one tick is one millisecond.
    pub fn time(&self) -> (r: SystemTime)
        ensures
            r.seconds == self.ticks / 1000,
            r.milliseconds == self.ticks % 1000,
    {
        let total_ms = self.ticks;
        SystemTime { seconds: total_ms / 1000, milliseconds: (total_ms % 1000) as u32 }
    }

    /// The tick count at which a sleep of `ms` milliseconds ends. The caller
    /// waits — halting between interrupts — until `ticks()` reaches the
    /// returned target; the wait itself cannot live here, because only the
    /// timer interrupt advances the counter.
    pub fn sleep(&self, ms: u64) -> (r: u64)
        requires
            self.ticks + ms <= u64::MAX,
        ensures
            r == self.ticks + ms,
    {
        self.ticks + ms
    }
}

/// Handle a timer interrupt: advance the tick counter and acknowledge the
/// interrupt through the controller bridge.
pub fn handle_timer_interrupt(timer: &mut SystemTimer, pics: &mut ChainedPics) -> (writes: Vec<
    PortWrite,
>)
    requires
        old(timer).ticks < u64::MAX,
    ensures
        final(timer).ticks == old(timer).ticks + 1,
        final(timer).timer == old(timer).timer,
        *final(pics) == *old(pics),
        writes@ == old(pics).eoi_writes(TIMER_INTERRUPT_ID),
{
    // Increment the system tick counter.
    timer.handle_tick();

    // Acknowledge the interrupt through the controller bridge.
    pics.notify_end_of_interrupt(TIMER_INTERRUPT_ID)
}

} // verus!
