//! PS/2 keyboard driver model: scancode translation and the keyboard
//! interrupt's bookkeeping. Reading the scancode register is the shim's job;
//! the driver turns a raw scancode into a key event, an optional character,
//! and the acknowledgment writes owed to the controller bridge.

use vstd::prelude::*;

use crate::drivers::DriverError;
use crate::drivers::KeyEvent;
use crate::interrupts::KEYBOARD_INTERRUPT_ID;
use crate::interrupts::pic::ChainedPics;
use crate::port::PortWrite;

verus! {

/// The simplified US-layout translation: the printable character for a make
/// scancode, or nothing for control keys and codes past the table.
pub open spec fn ascii_of(scancode: u8) -> Option<char> {
    match scancode {
        0x01 => Some(' '),  // Escape
        0x02 => Some('1'),
        0x03 => Some('2'),
        0x04 => Some('3'),
        0x05 => Some('4'),
        0x06 => Some('5'),
        0x07 => Some('6'),
        0x08 => Some('7'),
        0x09 => Some('8'),
        0x0A => Some('9'),
        0x0B => Some('0'),
        0x0C => Some('-'),
        0x0D => Some('='),
        0x10 => Some('q'),
        0x11 => Some('w'),
        0x12 => Some('e'),
        0x13 => Some('r'),
        0x14 => Some('t'),
        0x15 => Some('y'),
        0x16 => Some('u'),
        0x17 => Some('i'),
        0x18 => Some('o'),
        0x19 => Some('p'),
        0x1A => Some('['),
        0x1B => Some(']'),
        0x1E => Some('a'),
        0x1F => Some('s'),
        0x20 => Some('d'),
        0x21 => Some('f'),
        0x22 => Some('g'),
        0x23 => Some('h'),
        0x24 => Some('j'),
        0x25 => Some('k'),
        0x26 => Some('l'),
        0x27 => Some(';'),
        0x28 => Some('\''),
        0x29 => Some('`'),
        0x2B => Some('\\'),
        0x2C => Some('z'),
        0x2D => Some('x'),
        0x2E => Some('c'),
        0x2F => Some('v'),
        0x30 => Some('b'),
        0x31 => Some('n'),
        0x32 => Some('m'),
        0x33 => Some(','),
        0x34 => Some('.'),
        0x35 => Some('/'),
        0x39 => Some(' '),  // Space
        _ => None,
    }
}

/// PS/2 keyboard driver. The data and command registers are identified by
/// their port numbers; commands to the device come back as port writes for
/// the shim to perform.
#[derive(Debug, Clone, Copy, PartialEq, Eq, Structural)]
pub struct Ps2Keyboard {
    /// Whether scanning has been enabled.
    pub initialized: bool,
    /// The keyboard's data register port.
    pub data_port: u16,
    /// The keyboard's command register port.
    pub command_port: u16,
}

impl Ps2Keyboard {
    /// Create a new PS/2 keyboard driver on the standard ports.
    pub fn new() -> (r: Self)
        ensures
            !r.initialized,
            r.data_port == 0x60,
            r.command_port == 0x64,
    {
        Self { initialized: false, data_port: 0x60, command_port: 0x64 }
    }

    /// The port write that sends `command` to the keyboard's command
    /// register.
    pub fn send_command(&self, command: u8) -> (w: PortWrite)
        ensures
            w == (PortWrite { port: self.command_port, value: command }),
    {
        PortWrite { port: self.command_port, value: command }
    }

    /// Translate a make scancode to ASCII (simplified US layout).
    pub fn scancode_to_ascii(&self, scancode: u8) -> (r: Option<char>)
        ensures
            r == ascii_of(scancode),
    {
        match scancode {
            0x01 => Some(' '),  // Escape
            0x02 => Some('1'),
            0x03 => Some('2'),
            0x04 => Some('3'),
            0x05 => Some('4'),
            0x06 => Some('5'),
            0x07 => Some('6'),
            0x08 => Some('7'),
            0x09 => Some('8'),
            0x0A => Some('9'),
            0x0B => Some('0'),
            0x0C => Some('-'),
            0x0D => Some('='),
            0x10 => Some('q'),
            0x11 => Some('w'),
            0x12 => Some('e'),
            0x13 => Some('r'),
            0x14 => Some('t'),
            0x15 => Some('y'),
            0x16 => Some('u'),
            0x17 => Some('i'),
            0x18 => Some('o'),
            0x19 => Some('p'),
            0x1A => Some('['),
            0x1B => Some(']'),
            0x1E => Some('a'),
            0x1F => Some('s'),
            0x20 => Some('d'),
            0x21 => Some('f'),
            0x22 => Some('g'),
            0x23 => Some('h'),
            0x24 => Some('j'),
            0x25 => Some('k'),
            0x26 => Some('l'),
            0x27 => Some(';'),
            0x28 => Some('\''),
            0x29 => Some('`'),
            0x2B => Some('\\'),
            0x2C => Some('z'),
            0x2D => Some('x'),
            0x2E => Some('c'),
            0x2F => Some('v'),
            0x30 => Some('b'),
            0x31 => Some('n'),
            0x32 => Some('m'),
            0x33 => Some(','),
            0x34 => Some('.'),
            0x35 => Some('/'),
            0x39 => Some(' '),  // Space
            _ => None,
        }
    }

    /// The driver name.
    pub fn name(&self) -> (r: &'static str)
        ensures
            r@ == "PS/2 Keyboard"@,
    {
        "PS/2 Keyboard"
    }

    /// Enable scanning: the returned write (enable-scanning command 0xF4)
    /// must be performed on the keyboard's command register.
    pub fn init(&mut self) -> (r: Result<PortWrite, DriverError>)
        ensures
            final(self).initialized,
            final(self).data_port == old(self).data_port,
            final(self).command_port == old(self).command_port,
            r == Ok::<PortWrite, DriverError>(
                (PortWrite { port: old(self).command_port, value: 0xF4 }),
            ),
    {
        let w = self.send_command(0xF4);
        self.initialized = true;
        Ok(w)
    }

    /// Disable scanning: the returned write (disable-scanning command 0xF5)
    /// must be performed on the keyboard's command register.
    pub fn deinit(&mut self) -> (r: Result<PortWrite, DriverError>)
        ensures
            !final(self).initialized,
            final(self).data_port == old(self).data_port,
            final(self).command_port == old(self).command_port,
            r == Ok::<PortWrite, DriverError>(
                (PortWrite { port: old(self).command_port, value: 0xF5 }),
            ),
    {
        let w = self.send_command(0xF5);
        self.initialized = false;
        Ok(w)
    }

    /// Whether scanning has been enabled.
    pub fn is_initialized(&self) -> (r: bool)
        ensures
            r == self.initialized,
    {
        self.initialized
    }
}

/// Process a keyboard interrupt, given the raw scancode the shim read from
/// the data register: decode press/release (codes at 0x80 and above are
/// releases of the code 0x80 lower), translate to a character — reported only
/// for presses — and acknowledge the interrupt through the controller bridge.
pub fn handle_keyboard_interrupt(keyboard: &Ps2Keyboard, pics: &mut ChainedPics, scancode: u8) -> (r:
    (KeyEvent, Option<char>, Vec<PortWrite>))
    ensures
        *final(pics) == *old(pics),
        ({
            let pressed = scancode < 0x80;
            let actual = if pressed {
                scancode
            } else {
                (scancode - 0x80) as u8
            };
            &&& r.0 == (KeyEvent { scancode: actual, pressed })
            &&& r.1 == (if pressed {
                ascii_of(actual)
            } else {
                Option::<char>::None
            })
            &&& r.2@ == old(pics).eoi_writes(KEYBOARD_INTERRUPT_ID)
        }),
{
    // A scancode below 0x80 is a key press; otherwise it is the release of
    // the key whose make code is 0x80 lower.
    let pressed = scancode < 0x80;
    let actual_scancode = if pressed {
        scancode
    } else {
        scancode - 0x80
    };

    let event = KeyEvent { scancode: actual_scancode, pressed };

    // Translate to ASCII; only presses are reported.
    let ch = if pressed {
        keyboard.scancode_to_ascii(actual_scancode)
    } else {
        None
    };

    // Acknowledge the interrupt through the controller bridge.
    let writes = pics.notify_end_of_interrupt(KEYBOARD_INTERRUPT_ID);

    (event, ch, writes)
}

} // verus!
