//! Tests for the controller bridge and the dispatch table.

use kewve_os::interrupts::pic::ChainedPics;
use kewve_os::interrupts::pic::CMD_END_OF_INTERRUPT;
use kewve_os::interrupts::pic::CMD_INIT;
use kewve_os::interrupts::pic::MODE_8086;
use kewve_os::interrupts::pic::PIC_1_OFFSET;
use kewve_os::interrupts::pic::PIC_2_OFFSET;
use kewve_os::interrupts::handler_action;
use kewve_os::interrupts::init_idt;
use kewve_os::interrupts::HandlerAction;
use kewve_os::interrupts::HandlerKind;
use kewve_os::interrupts::KEYBOARD_INTERRUPT_ID;
use kewve_os::interrupts::TIMER_INTERRUPT_ID;
use kewve_os::port::PortWrite;

#[test]
fn masks_preserved_across_initialize() {
    let mut pics = ChainedPics::new(PIC_1_OFFSET, PIC_2_OFFSET);
    let _ = pics.write_masks(0xA5, 0x3C);
    let _ = pics.initialize();
    assert_eq!(pics.read_masks(), (0xA5, 0x3C));
}

#[test]
fn initialize_write_sequence() {
    let mut pics = ChainedPics::new(32, 40);
    let _ = pics.write_masks(0x12, 0x34);
    let writes = pics.initialize();
    let expected = vec![
        PortWrite { port: 0x20, value: CMD_INIT },
        PortWrite { port: 0xA0, value: CMD_INIT },
        PortWrite { port: 0x21, value: 32 },
        PortWrite { port: 0xA1, value: 40 },
        PortWrite { port: 0x21, value: 4 },
        PortWrite { port: 0xA1, value: 2 },
        PortWrite { port: 0x21, value: MODE_8086 },
        PortWrite { port: 0xA1, value: MODE_8086 },
        PortWrite { port: 0x21, value: 0x12 },
        PortWrite { port: 0xA1, value: 0x34 },
    ];
    assert_eq!(writes, expected);
}

#[test]
fn secondary_interrupt_acknowledged_on_both_chips_secondary_first() {
    let mut pics = ChainedPics::new(32, 40);
    let writes = pics.notify_end_of_interrupt(44);
    assert_eq!(
        writes,
        vec![
            PortWrite { port: 0xA0, value: CMD_END_OF_INTERRUPT },
            PortWrite { port: 0x20, value: CMD_END_OF_INTERRUPT },
        ]
    );
    // Exactly one acknowledgment per chip.
    assert_eq!(writes.iter().filter(|w| w.port == 0xA0).count(), 1);
    assert_eq!(writes.iter().filter(|w| w.port == 0x20).count(), 1);
}

#[test]
fn primary_interrupt_acknowledged_on_primary_chip_only() {
    let mut pics = ChainedPics::new(32, 40);
    let writes = pics.notify_end_of_interrupt(33);
    assert_eq!(writes, vec![PortWrite { port: 0x20, value: CMD_END_OF_INTERRUPT }]);
    assert_eq!(writes.iter().filter(|w| w.port == 0xA0).count(), 0);
}

#[test]
fn unowned_interrupt_needs_no_acknowledgment() {
    let mut pics = ChainedPics::new(32, 40);
    assert!(pics.notify_end_of_interrupt(10).is_empty());
    assert!(pics.notify_end_of_interrupt(48).is_empty());
}

#[test]
fn handles_interrupt_covers_both_ranges() {
    let pics = ChainedPics::new(32, 40);
    assert!(pics.handles_interrupt(32));
    assert!(pics.handles_interrupt(39));
    assert!(pics.handles_interrupt(40));
    assert!(pics.handles_interrupt(47));
    assert!(!pics.handles_interrupt(31));
    assert!(!pics.handles_interrupt(48));
}

#[test]
fn disable_masks_everything() {
    let mut pics = ChainedPics::new(32, 40);
    let _ = pics.write_masks(0x00, 0x00);
    let writes = pics.disable();
    assert_eq!(
        writes,
        vec![PortWrite { port: 0x21, value: 0xFF }, PortWrite { port: 0xA1, value: 0xFF }]
    );
    assert_eq!(pics.read_masks(), (0xFF, 0xFF));
}

#[test]
fn dispatch_table_binds_required_vectors() {
    let idt = init_idt();
    assert_eq!(idt.handler_for(0), Some(HandlerKind::DivideError));
    assert_eq!(idt.handler_for(3), Some(HandlerKind::Breakpoint));
    assert_eq!(idt.handler_for(13), Some(HandlerKind::GeneralProtectionFault));
    assert_eq!(idt.handler_for(14), Some(HandlerKind::PageFault));
    assert_eq!(idt.handler_for(TIMER_INTERRUPT_ID), Some(HandlerKind::Timer));
    assert_eq!(idt.handler_for(KEYBOARD_INTERRUPT_ID), Some(HandlerKind::Keyboard));
    // Unclaimed vectors stay unbound.
    assert_eq!(idt.handler_for(1), None);
    assert_eq!(idt.handler_for(255), None);
}

#[test]
fn fault_responses_match_design() {
    assert_eq!(handler_action(HandlerKind::Breakpoint), HandlerAction::Resume);
    assert_eq!(handler_action(HandlerKind::DivideError), HandlerAction::Halt);
    assert_eq!(handler_action(HandlerKind::GeneralProtectionFault), HandlerAction::Halt);
    assert_eq!(handler_action(HandlerKind::PageFault), HandlerAction::Halt);
    assert_eq!(handler_action(HandlerKind::Timer), HandlerAction::Resume);
    assert_eq!(handler_action(HandlerKind::Keyboard), HandlerAction::Resume);
}
