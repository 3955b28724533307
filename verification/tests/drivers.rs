//! Tests for the driver framework, the keyboard and timer drivers, and the
//! storage subsystem.

use kewve_os::drivers::keyboard::handle_keyboard_interrupt;
use kewve_os::drivers::keyboard::Ps2Keyboard;
use kewve_os::drivers::storage::GenericStorageDriver;
use kewve_os::drivers::storage::StorageConfig;
use kewve_os::drivers::storage::StorageDevice;
use kewve_os::drivers::storage::StorageError;
use kewve_os::drivers::storage::StorageManager;
use kewve_os::drivers::storage::StorageType;
use kewve_os::drivers::timer::handle_timer_interrupt;
use kewve_os::drivers::timer::PitTimer;
use kewve_os::drivers::timer::SystemTimer;
use kewve_os::drivers::DeviceManager;
use kewve_os::drivers::DeviceType;
use kewve_os::drivers::Driver;
use kewve_os::drivers::DriverError;
use kewve_os::drivers::DriverStats;
use kewve_os::drivers::KeyModifiers;
use kewve_os::interrupts::pic::ChainedPics;
use kewve_os::interrupts::pic::CMD_END_OF_INTERRUPT;
use kewve_os::port::PortWrite;

#[test]
fn scancode_translation_samples() {
    let kbd = Ps2Keyboard::new();
    assert_eq!(kbd.scancode_to_ascii(0x00), None);
    assert_eq!(kbd.scancode_to_ascii(0x01), Some(' ')); // Escape
    assert_eq!(kbd.scancode_to_ascii(0x02), Some('1'));
    assert_eq!(kbd.scancode_to_ascii(0x0B), Some('0'));
    assert_eq!(kbd.scancode_to_ascii(0x10), Some('q'));
    assert_eq!(kbd.scancode_to_ascii(0x1E), Some('a'));
    assert_eq!(kbd.scancode_to_ascii(0x2C), Some('z'));
    assert_eq!(kbd.scancode_to_ascii(0x2A), None); // Left shift
    assert_eq!(kbd.scancode_to_ascii(0x39), Some(' ')); // Space
    assert_eq!(kbd.scancode_to_ascii(0x3A), None); // Past the table
    assert_eq!(kbd.scancode_to_ascii(0xFF), None);
}

#[test]
fn keyboard_lifecycle_commands() {
    let mut kbd = Ps2Keyboard::new();
    assert!(!kbd.is_initialized());
    assert_eq!(kbd.init(), Ok(PortWrite { port: 0x64, value: 0xF4 }));
    assert!(kbd.is_initialized());
    assert_eq!(kbd.deinit(), Ok(PortWrite { port: 0x64, value: 0xF5 }));
    assert!(!kbd.is_initialized());
    assert_eq!(kbd.name(), "PS/2 Keyboard");
}

#[test]
fn keyboard_interrupt_press_and_release() {
    let kbd = Ps2Keyboard::new();
    let mut pics = ChainedPics::new(32, 40);

    // Press of 'q' (0x10): reported, acknowledged on the primary chip.
    let (event, ch, writes) = handle_keyboard_interrupt(&kbd, &mut pics, 0x10);
    assert_eq!(event.scancode, 0x10);
    assert!(event.pressed);
    assert_eq!(ch, Some('q'));
    assert_eq!(writes, vec![PortWrite { port: 0x20, value: CMD_END_OF_INTERRUPT }]);

    // Release of 'q' (0x90): not reported, still acknowledged.
    let (event, ch, writes) = handle_keyboard_interrupt(&kbd, &mut pics, 0x90);
    assert_eq!(event.scancode, 0x10);
    assert!(!event.pressed);
    assert_eq!(ch, None);
    assert_eq!(writes.len(), 1);
}

#[test]
fn timer_configure_divisor_bytes() {
    let mut pit = PitTimer::new();
    // 1193182 / 1000 = 1193 = 0x04A9.
    let writes = pit.configure(1000);
    assert_eq!(
        writes,
        vec![
            PortWrite { port: 0x43, value: 0x36 },
            PortWrite { port: 0x40, value: 0xA9 },
            PortWrite { port: 0x40, value: 0x04 },
        ]
    );
    assert_eq!(pit.frequency(), 1000);
    assert_eq!(pit.name(), "PIT Timer");
}

#[test]
fn timer_lifecycle() {
    let mut pit = PitTimer::new();
    assert!(!pit.is_initialized());
    let writes = pit.init().unwrap();
    assert_eq!(writes.len(), 3);
    assert!(pit.is_initialized());
    assert_eq!(pit.frequency(), 1000);
    let writes = pit.deinit().unwrap();
    assert_eq!(
        writes,
        vec![
            PortWrite { port: 0x43, value: 0x30 },
            PortWrite { port: 0x40, value: 0 },
            PortWrite { port: 0x40, value: 0 },
        ]
    );
    assert!(!pit.is_initialized());
}

#[test]
fn system_timer_tracks_time() {
    let mut timer = SystemTimer::new();
    assert_eq!(timer.ticks(), 0);
    timer.init().unwrap();
    for _ in 0..1500 {
        timer.handle_tick();
    }
    assert_eq!(timer.ticks(), 1500);
    let t = timer.time();
    assert_eq!(t.seconds, 1);
    assert_eq!(t.milliseconds, 500);
    // A sleep ends when the counter reaches now + ms.
    assert_eq!(timer.sleep(100), 1600);
}

#[test]
fn timer_interrupt_ticks_and_acknowledges() {
    let mut timer = SystemTimer::new();
    let mut pics = ChainedPics::new(32, 40);
    let writes = handle_timer_interrupt(&mut timer, &mut pics);
    assert_eq!(timer.ticks(), 1);
    assert_eq!(writes, vec![PortWrite { port: 0x20, value: CMD_END_OF_INTERRUPT }]);
}

fn storage_config(read_only: bool) -> StorageConfig {
    StorageConfig {
        device_id: 1,
        storage_type: StorageType::Virtual,
        sector_size: 512,
        total_sectors: 1024 * 1024,
        read_only,
    }
}

#[test]
fn storage_driver_rejects_invalid_configuration() {
    let mut drv = GenericStorageDriver::new();
    let mut bad = storage_config(false);
    bad.sector_size = 0;
    assert_eq!(drv.init(bad), Err(DriverError::InvalidConfiguration));
    assert!(!drv.is_initialized());

    let mut bad = storage_config(false);
    bad.total_sectors = 0;
    assert_eq!(drv.init(bad), Err(DriverError::InvalidConfiguration));

    assert_eq!(drv.init(storage_config(false)), Ok(()));
    assert!(drv.is_initialized());
    assert_eq!(drv.name(), "Generic Storage Driver");
    assert_eq!(drv.version(), "1.0.0");
}

#[test]
fn storage_reads_simulated_pattern() {
    let mut drv = GenericStorageDriver::new();

    // Unconfigured device: not ready.
    let mut buffer = vec![0u8; 1024];
    assert_eq!(drv.read_sectors(0, 2, &mut buffer), Err(StorageError::DeviceNotReady));

    drv.init(storage_config(false)).unwrap();
    assert_eq!(drv.read_sectors(0, 2, &mut buffer), Ok(()));
    for (i, b) in buffer.iter().enumerate() {
        assert_eq!(*b, (i % 256) as u8);
    }
    let stats = drv.get_stats();
    assert_eq!(stats.bytes_transferred, 1024);
    assert_eq!(stats.operations_completed, 1);
}

#[test]
fn storage_validates_ranges_and_buffers() {
    let mut drv = GenericStorageDriver::new();
    drv.init(storage_config(false)).unwrap();
    let total = 1024 * 1024;

    let mut buffer = vec![0u8; 512];
    assert_eq!(drv.read_sectors(total, 1, &mut buffer), Err(StorageError::InvalidSector(total)));
    assert_eq!(
        drv.read_sectors(total - 1, 2, &mut buffer),
        Err(StorageError::InvalidSector(total + 1))
    );
    // Buffer shorter than the transfer.
    assert_eq!(drv.read_sectors(0, 2, &mut buffer), Err(StorageError::SectorSizeMismatch));
    assert_eq!(drv.write_sectors(0, 2, &buffer), Err(StorageError::SectorSizeMismatch));
    // A valid write succeeds.
    assert_eq!(drv.write_sectors(3, 1, &buffer), Ok(()));
}

#[test]
fn read_only_device_refuses_writes() {
    let mut drv = GenericStorageDriver::new();
    drv.init(storage_config(true)).unwrap();
    assert!(drv.is_read_only());
    let buffer = vec![0u8; 512];
    assert_eq!(drv.write_sectors(0, 1, &buffer), Err(StorageError::ReadOnlyDevice));
}

#[test]
fn storage_flush_and_reset_require_initialization() {
    let mut drv = GenericStorageDriver::new();
    assert_eq!(drv.flush(), Err(StorageError::DeviceNotReady));
    assert!(drv.reset().is_err());
    drv.init(storage_config(false)).unwrap();
    assert_eq!(drv.flush(), Ok(()));
    assert_eq!(drv.reset(), Ok(()));
    drv.deinit().unwrap();
    assert!(!drv.is_initialized());
    assert_eq!(drv.get_sector_count(), 0);
    assert_eq!(drv.get_sector_size(), 512);
    assert!(drv.is_read_only());
}

#[test]
fn storage_manager_sums_capacity() {
    let mut manager = StorageManager::new();
    assert_eq!(manager.device_count(), 0);
    assert_eq!(manager.total_capacity(), 0);

    let mut a = GenericStorageDriver::new();
    a.init(storage_config(false)).unwrap();
    manager.add_device(a);

    let mut b = GenericStorageDriver::new();
    let mut cfg = storage_config(false);
    cfg.sector_size = 4096;
    cfg.total_sectors = 1000;
    b.init(cfg).unwrap();
    manager.add_device(b);

    // An unconfigured device contributes nothing.
    manager.add_device(GenericStorageDriver::new());

    assert_eq!(manager.device_count(), 3);
    assert_eq!(manager.total_capacity(), 1024 * 1024 * 512 + 1000 * 4096);
}

#[test]
fn storage_interrupts_are_counted() {
    let mut drv = GenericStorageDriver::new();
    drv.init(storage_config(false)).unwrap();
    assert_eq!(drv.handle_interrupt(14), Ok(()));
    assert_eq!(drv.handle_interrupt(14), Ok(()));
    assert_eq!(drv.get_stats().interrupts_handled, 2);
}

#[test]
fn device_manager_registers_and_finds_devices() {
    let mut dm = DeviceManager::new();
    let timer_id = dm.register_device(
        DeviceType::Timer,
        String::from("System Timer"),
        String::from("KewveOS"),
    );
    let kbd_id = dm.register_device(
        DeviceType::Keyboard,
        String::from("PS/2 Keyboard"),
        String::from("Generic"),
    );
    assert_eq!(timer_id, 1);
    assert_eq!(kbd_id, 2);

    let d = dm.get_device(timer_id).unwrap();
    assert_eq!(d.name, "System Timer");
    assert_eq!(d.vendor, "KewveOS");
    assert_eq!(d.version, "1.0.0");
    assert_eq!(d.device_type, DeviceType::Timer);
    assert!(!d.initialized);

    dm.mark_initialized(timer_id);
    assert!(dm.get_device(timer_id).unwrap().initialized);
    // Marking an unknown device changes nothing.
    dm.mark_initialized(99);

    let keyboards = dm.list_devices_by_type(DeviceType::Keyboard);
    assert_eq!(keyboards.len(), 1);
    assert_eq!(keyboards[0].id, kbd_id);
    assert!(dm.list_devices_by_type(DeviceType::Audio).is_empty());

    let removed = dm.unregister_device(timer_id).unwrap();
    assert_eq!(removed.id, timer_id);
    assert!(dm.get_device(timer_id).is_none());
    assert!(dm.unregister_device(timer_id).is_none());

    // Identifiers are never reused.
    let next = dm.register_device(
        DeviceType::Storage,
        String::from("Disk"),
        String::from("Generic"),
    );
    assert_eq!(next, 3);
}

#[test]
fn driver_stats_default_is_zeroed() {
    let stats = DriverStats::default();
    assert_eq!(stats.interrupts_handled, 0);
    assert_eq!(stats.errors_encountered, 0);
    assert_eq!(stats.bytes_transferred, 0);
    assert_eq!(stats.operations_completed, 0);
    assert_eq!(stats.last_error, None);
}

#[test]
fn key_modifiers_default_is_clear() {
    let m = KeyModifiers::default();
    assert!(!m.shift && !m.ctrl && !m.alt && !m.meta);
}
