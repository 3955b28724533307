//! Storage device drivers: the storage abstraction, a generic driver with a
//! simulated block device behind it, and the storage manager.

use vstd::prelude::*;

use crate::drivers::DeviceId;
use crate::drivers::Driver;
use crate::drivers::DriverError;
use crate::drivers::DriverStats;

verus! {

/// Storage device types.
#[derive(Debug, Clone, Copy, PartialEq, Eq, Structural)]
pub enum StorageType {
    /// AHCI/SATA hard drive or SSD.
    Ahci,
    /// NVMe SSD.
    Nvme,
    /// USB mass storage device.
    UsbMassStorage,
    /// Virtual block device.
    Virtual,
    /// Unknown storage type.
    Unknown,
}

/// Storage device configuration.
#[derive(Debug, Clone, Copy, PartialEq, Eq, Structural)]
pub struct StorageConfig {
    pub device_id: DeviceId,
    pub storage_type: StorageType,
    pub sector_size: u32,
    pub total_sectors: u64,
    pub read_only: bool,
}

/// Storage operation result.
pub type StorageResult<T> = Result<T, StorageError>;

/// Storage-specific error types.
#[derive(Debug, Clone, PartialEq, Eq)]
pub enum StorageError {
    /// Device not ready.
    DeviceNotReady,
    /// Invalid sector address.
    InvalidSector(u64),
    /// Read operation failed.
    ReadFailed,
    /// Write operation failed.
    WriteFailed,
    /// Device is read-only.
    ReadOnlyDevice,
    /// Sector size mismatch.
    SectorSizeMismatch,
    /// Hardware timeout.
    Timeout,
    /// Generic I/O error.
    IoError(String),
}

/// Storage device abstraction for all storage drivers.
pub trait StorageDevice {
    /// Read sectors from the device into `buffer`.
    fn read_sectors(&mut self, start_sector: u64, sector_count: u32, buffer: &mut Vec<u8>)
        -> StorageResult<()>;

    /// Write sectors from `buffer` to the device.
    fn write_sectors(&mut self, start_sector: u64, sector_count: u32, buffer: &Vec<u8>)
        -> StorageResult<()>;

    /// Device capacity in sectors.
    fn get_sector_count(&self) -> u64;

    /// Sector size in bytes.
    fn get_sector_size(&self) -> u32;

    /// Whether the device is read-only.
    fn is_read_only(&self) -> bool;

    /// Flush any pending writes.
    fn flush(&mut self) -> StorageResult<()>;
}

/// `a + b`, capped at the largest 64-bit value.
pub open spec fn sat_add_u64_spec(a: u64, b: u64) -> u64 {
    if a + b <= u64::MAX {
        (a + b) as u64
    } else {
        u64::MAX
    }
}

/// Saturating addition for the statistics counters.
fn sat_add_u64(a: u64, b: u64) -> (r: u64)
    ensures
        r == sat_add_u64_spec(a, b),
{
    if b > u64::MAX - a {
        u64::MAX
    } else {
        a + b
    }
}

/// The number of bytes a transfer of `sector_count` sectors moves.
pub open spec fn transfer_size(config: StorageConfig, sector_count: u32) -> int {
    sector_count * config.sector_size
}

/// The sector range `[start_sector, start_sector + sector_count)` lies within
/// the device.
pub open spec fn sector_range_ok(config: StorageConfig, start_sector: u64, sector_count: u32) -> bool {
    &&& start_sector < config.total_sectors
    &&& start_sector + sector_count <= config.total_sectors
}

/// Generic storage driver. Transfers are simulated: a read fills the buffer
/// with each byte's offset modulo 256, a write only checks its bounds; both
/// keep the transfer statistics.
pub struct GenericStorageDriver {
    /// The device configuration, once initialized.
    pub config: Option<StorageConfig>,
    /// Whether the driver has been initialized.
    pub initialized: bool,
    /// Transfer statistics.
    pub stats: DriverStats,
}

impl GenericStorageDriver {
    /// Create a new generic storage driver, unconfigured.
    pub fn new() -> (r: Self)
        ensures
            r.config is None,
            !r.initialized,
            r.stats.interrupts_handled == 0,
            r.stats.errors_encountered == 0,
            r.stats.bytes_transferred == 0,
            r.stats.operations_completed == 0,
            r.stats.last_error is None,
    {
        Self { config: None, initialized: false, stats: DriverStats::default() }
    }
}

impl Driver for GenericStorageDriver {
    type Config = StorageConfig;

    type Error = DriverError;

    fn name(&self) -> (r: &'static str)
        ensures
            r@ == "Generic Storage Driver"@,
    {
        "Generic Storage Driver"
    }

    fn version(&self) -> (r: &'static str)
        ensures
            r@ == "1.0.0"@,
    {
        "1.0.0"
    }

    /// Adopt a configuration. A zero sector size or a zero sector count is a
    /// configuration error, rejected without touching the driver state.
    fn init(&mut self, config: StorageConfig) -> (r: Result<(), DriverError>)
        ensures
            (r is Ok <==> config.sector_size > 0 && config.total_sectors > 0),
            r is Ok ==> *final(self) == (GenericStorageDriver {
                config: Some(config),
                initialized: true,
                stats: old(self).stats,
            }),
            r is Err ==> *final(self) == *old(self) && r == Err::<(), DriverError>(
                DriverError::InvalidConfiguration,
            ),
    {
        // Validate configuration.
        if config.sector_size == 0 || config.total_sectors == 0 {
            return Err(DriverError::InvalidConfiguration);
        }

        self.config = Some(config);
        self.initialized = true;

        Ok(())
    }

    fn deinit(&mut self) -> (r: Result<(), DriverError>)
        ensures
            !final(self).initialized,
            final(self).config is None,
            final(self).stats == old(self).stats,
            r is Ok,
    {
        self.initialized = false;
        self.config = None;
        Ok(())
    }

    fn is_initialized(&self) -> (r: bool)
        ensures
            r == self.initialized,
    {
        self.initialized
    }

    fn handle_interrupt(&mut self, _irq: u32) -> (r: Result<(), DriverError>)
        ensures
            *final(self) == (GenericStorageDriver {
                stats: (DriverStats {
                    interrupts_handled: sat_add_u64_spec(old(self).stats.interrupts_handled, 1),
                    ..old(self).stats
                }),
                ..*old(self)
            }),
            r is Ok,
    {
        self.stats.interrupts_handled = sat_add_u64(self.stats.interrupts_handled, 1);
        Ok(())
    }

    fn get_stats(&self) -> (r: DriverStats)
        ensures
            r == self.stats,
    {
        self.stats
    }

    fn reset(&mut self) -> (r: Result<(), DriverError>)
        ensures
            *final(self) == *old(self),
            r is Ok <==> old(self).initialized,
            r is Err ==> r matches Err(DriverError::InitializationFailed(_)),
    {
        if !self.initialized {
            return Err(DriverError::InitializationFailed("Driver not initialized".to_string()));
        }

        // Resetting the simulated device has nothing to clear.
        Ok(())
    }
}

impl StorageDevice for GenericStorageDriver {
    /// Read `sector_count` sectors starting at `start_sector`: bounds and
    /// buffer size are validated, then the simulated device fills the buffer
    /// with each offset modulo 256 and the statistics advance.
    fn read_sectors(&mut self, start_sector: u64, sector_count: u32, buffer: &mut Vec<u8>) -> (r:
        StorageResult<()>)
        ensures
            old(self).config is None ==> r == Err::<(), StorageError>(StorageError::DeviceNotReady)
                && *final(self) == *old(self) && *final(buffer) == *old(buffer),
            old(self).config matches Some(c) ==> {
                let size = transfer_size(c, sector_count);
                &&& (r is Ok <==> sector_range_ok(c, start_sector, sector_count) && old(
                    buffer,
                ).len() >= size)
                &&& r is Err ==> *final(self) == *old(self) && *final(buffer) == *old(buffer)
                &&& !(start_sector < c.total_sectors) ==> r == Err::<(), StorageError>(
                    StorageError::InvalidSector(start_sector),
                )
                &&& (start_sector < c.total_sectors && !(start_sector + sector_count
                    <= c.total_sectors)) ==> r == Err::<(), StorageError>(
                    StorageError::InvalidSector(sat_add_u64_spec(start_sector, sector_count as u64)),
                )
                &&& (sector_range_ok(c, start_sector, sector_count) && old(buffer).len() < size)
                    ==> r == Err::<(), StorageError>(StorageError::SectorSizeMismatch)
                &&& r is Ok ==> {
                    &&& final(buffer).len() == old(buffer).len()
                    &&& forall|k: int| 0 <= k < size ==> final(buffer)@[k] == (k % 256) as u8
                    &&& forall|k: int|
                        size <= k < old(buffer).len() ==> final(buffer)@[k] == old(buffer)@[k]
                    &&& *final(self) == (GenericStorageDriver {
                        stats: (DriverStats {
                            bytes_transferred: sat_add_u64_spec(
                                old(self).stats.bytes_transferred,
                                size as u64,
                            ),
                            operations_completed: sat_add_u64_spec(
                                old(self).stats.operations_completed,
                                1,
                            ),
                            ..old(self).stats
                        }),
                        ..*old(self)
                    })
                }
            },
    {
        let config = match &self.config {
            Some(c) => *c,
            None => {
                return Err(StorageError::DeviceNotReady);
            },
        };

        // Validate the sector range.
        if start_sector >= config.total_sectors {
            return Err(StorageError::InvalidSector(start_sector));
        }
        if sector_count as u64 > config.total_sectors - start_sector {
            return Err(StorageError::InvalidSector(sat_add_u64(start_sector, sector_count as u64)));
        }

        // Validate the buffer size.
        proof {
            assert(sector_count * config.sector_size <= (u32::MAX as int) * (u32::MAX as int))
                by (nonlinear_arith)
                requires
                    sector_count <= u32::MAX,
                    config.sector_size <= u32::MAX,
            ;
            assert(sector_count * config.sector_size >= 0) by (nonlinear_arith)
                requires
                    sector_count >= 0,
                    config.sector_size >= 0,
            ;
        }
        let expected_size: u64 = sector_count as u64 * config.sector_size as u64;
        if (buffer.len() as u64) < expected_size {
            return Err(StorageError::SectorSizeMismatch);
        }

        // Simulate the read.
        let n = expected_size as usize;
        let mut i: usize = 0;
        while i < n
            invariant
                0 <= i <= n,
                n <= buffer.len(),
                buffer.len() == old(buffer).len(),
                forall|k: int| 0 <= k < i ==> buffer@[k] == (k % 256) as u8,
                forall|k: int| n <= k < buffer.len() ==> buffer@[k] == old(buffer)@[k],
            decreases n - i,
        {
            buffer.set(i, (i % 256) as u8);
            i = i + 1;
        }

        self.stats.bytes_transferred = sat_add_u64(self.stats.bytes_transferred, expected_size);
        self.stats.operations_completed = sat_add_u64(self.stats.operations_completed, 1);

        Ok(())
    }

    /// Write `sector_count` sectors starting at `start_sector`: the target
    /// must be writable, the bounds and buffer size valid; the simulated
    /// device then only advances the statistics.
    fn write_sectors(&mut self, start_sector: u64, sector_count: u32, buffer: &Vec<u8>) -> (r:
        StorageResult<()>)
        ensures
            old(self).config is None ==> r == Err::<(), StorageError>(StorageError::DeviceNotReady)
                && *final(self) == *old(self),
            old(self).config matches Some(c) ==> {
                let size = transfer_size(c, sector_count);
                &&& (r is Ok <==> !c.read_only && sector_range_ok(c, start_sector, sector_count)
                    && buffer.len() >= size)
                &&& r is Err ==> *final(self) == *old(self)
                &&& c.read_only ==> r == Err::<(), StorageError>(StorageError::ReadOnlyDevice)
                &&& (!c.read_only && !(start_sector < c.total_sectors)) ==> r == Err::<
                    (),
                    StorageError,
                >(StorageError::InvalidSector(start_sector))
                &&& (!c.read_only && start_sector < c.total_sectors && !(start_sector + sector_count
                    <= c.total_sectors)) ==> r == Err::<(), StorageError>(
                    StorageError::InvalidSector(sat_add_u64_spec(start_sector, sector_count as u64)),
                )
                &&& (!c.read_only && sector_range_ok(c, start_sector, sector_count) && buffer.len()
                    < size) ==> r == Err::<(), StorageError>(StorageError::SectorSizeMismatch)
                &&& r is Ok ==> *final(self) == (GenericStorageDriver {
                    stats: (DriverStats {
                        bytes_transferred: sat_add_u64_spec(
                            old(self).stats.bytes_transferred,
                            size as u64,
                        ),
                        operations_completed: sat_add_u64_spec(
                            old(self).stats.operations_completed,
                            1,
                        ),
                        ..old(self).stats
                    }),
                    ..*old(self)
                })
            },
    {
        let config = match &self.config {
            Some(c) => *c,
            None => {
                return Err(StorageError::DeviceNotReady);
            },
        };

        if config.read_only {
            return Err(StorageError::ReadOnlyDevice);
        }

        // Validate the sector range.
        if start_sector >= config.total_sectors {
            return Err(StorageError::InvalidSector(start_sector));
        }
        if sector_count as u64 > config.total_sectors - start_sector {
            return Err(StorageError::InvalidSector(sat_add_u64(start_sector, sector_count as u64)));
        }

        // Validate the buffer size.
        proof {
            assert(sector_count * config.sector_size <= (u32::MAX as int) * (u32::MAX as int))
                by (nonlinear_arith)
                requires
                    sector_count <= u32::MAX,
                    config.sector_size <= u32::MAX,
            ;
            assert(sector_count * config.sector_size >= 0) by (nonlinear_arith)
                requires
                    sector_count >= 0,
                    config.sector_size >= 0,
            ;
        }
        let expected_size: u64 = sector_count as u64 * config.sector_size as u64;
        if (buffer.len() as u64) < expected_size {
            return Err(StorageError::SectorSizeMismatch);
        }

        // The simulated device accepts the data without storing it.
        self.stats.bytes_transferred = sat_add_u64(self.stats.bytes_transferred, expected_size);
        self.stats.operations_completed = sat_add_u64(self.stats.operations_completed, 1);

        Ok(())
    }

    fn get_sector_count(&self) -> (r: u64)
        ensures
            r == (match self.config {
                Some(c) => c.total_sectors,
                None => 0,
            }),
    {
        match &self.config {
            Some(c) => c.total_sectors,
            None => 0,
        }
    }

    fn get_sector_size(&self) -> (r: u32)
        ensures
            r == (match self.config {
                Some(c) => c.sector_size,
                None => 512,
            }),
    {
        match &self.config {
            Some(c) => c.sector_size,
            None => 512,
        }
    }

    fn is_read_only(&self) -> (r: bool)
        ensures
            r == (match self.config {
                Some(c) => c.read_only,
                None => true,
            }),
    {
        match &self.config {
            Some(c) => c.read_only,
            None => true,
        }
    }

    fn flush(&mut self) -> (r: StorageResult<()>)
        ensures
            *final(self) == *old(self),
            r is Ok <==> old(self).initialized,
            r is Err ==> r == Err::<(), StorageError>(StorageError::DeviceNotReady),
    {
        if !self.initialized {
            return Err(StorageError::DeviceNotReady);
        }

        // The simulated device has no write-back cache to flush.
        Ok(())
    }
}

/// A device's capacity in bytes: its sector count times its sector size.
pub open spec fn capacity_of(d: GenericStorageDriver) -> int {
    match d.config {
        Some(c) => c.total_sectors * c.sector_size,
        None => 0,
    }
}

/// The summed capacity of a list of devices, in bytes.
pub open spec fn total_capacity_of(s: Seq<GenericStorageDriver>) -> int
    decreases s.len(),
{
    if s.len() == 0 {
        0
    } else {
        total_capacity_of(s.drop_last()) + capacity_of(s.last())
    }
}

/// A device's capacity is never negative.
proof fn lemma_capacity_nonneg(d: GenericStorageDriver)
    ensures
        capacity_of(d) >= 0,
{
    match d.config {
        Some(c) => {
            assert(c.total_sectors * c.sector_size >= 0) by (nonlinear_arith)
                requires
                    c.total_sectors >= 0,
                    c.sector_size >= 0,
            ;
        },
        None => {},
    }
}

/// The capacity of the first `i` devices never exceeds the capacity of all.
proof fn lemma_total_capacity_prefix(s: Seq<GenericStorageDriver>, i: int)
    requires
        0 <= i <= s.len(),
    ensures
        total_capacity_of(s.take(i)) <= total_capacity_of(s),
    decreases s.len() - i,
{
    if i == s.len() {
        assert(s.take(i) =~= s);
    } else {
        assert(s.take(i + 1).drop_last() =~= s.take(i));
        assert(s.take(i + 1).last() == s[i]);
        lemma_capacity_nonneg(s[i]);
        lemma_total_capacity_prefix(s, i + 1);
    }
}

/// Storage manager for handling multiple storage devices.
pub struct StorageManager {
    devices: Vec<GenericStorageDriver>,
}

impl StorageManager {
    /// The managed devices.
    pub closed spec fn devices(self) -> Seq<GenericStorageDriver> {
        self.devices@
    }

    /// Create a new storage manager with no devices.
    pub fn new() -> (r: Self)
        ensures
            r.devices() == Seq::<GenericStorageDriver>::empty(),
    {
        let r = Self { devices: Vec::new() };
        proof {
            assert(r.devices() =~= Seq::<GenericStorageDriver>::empty());
        }
        r
    }

    /// Add a storage device.
    pub fn add_device(&mut self, device: GenericStorageDriver)
        ensures
            final(self).devices() == old(self).devices().push(device),
    {
        self.devices.push(device);
    }

    /// The number of storage devices.
    pub fn device_count(&self) -> (r: usize)
        ensures
            r == self.devices().len(),
    {
        self.devices.len()
    }

    /// Total storage capacity across all devices, in bytes. The machine-width
    /// bound on the sum is the one assumption; each device's share is read
    /// through the device abstraction.
    #[verifier::loop_isolation(false)]
    pub fn total_capacity(&self) -> (r: u64)
        requires
            total_capacity_of(self.devices()) <= u64::MAX,
        ensures
            r == total_capacity_of(self.devices()),
    {
        let ghost s = self.devices();
        let n = self.devices.len();
        let mut sum: u64 = 0;
        let mut i: usize = 0;
        proof {
            assert(s.take(0) =~= Seq::<GenericStorageDriver>::empty());
        }
        while i < n
            invariant
                0 <= i <= n,
                sum == total_capacity_of(s.take(i as int)),
            decreases n - i,
        {
            proof {
                assert(s.take(i as int + 1).drop_last() =~= s.take(i as int));
                assert(s.take(i as int + 1).last() == s[i as int]);
                lemma_total_capacity_prefix(s, i as int + 1);
                lemma_capacity_nonneg(s[i as int]);
            }
            let d = &self.devices[i];
            let sectors = d.get_sector_count();
            let sector_size = d.get_sector_size();
            proof {
                if d.config is Some {
                    assert(sectors * sector_size == capacity_of(s[i as int]));
                } else {
                    assert(sectors == 0);
                    assert(sectors * sector_size == 0) by (nonlinear_arith)
                        requires
                            sectors == 0,
                    ;
                }
            }
            sum = sum + sectors * sector_size as u64;
            i = i + 1;
        }
        proof {
            assert(s.take(n as int) =~= s);
        }
        sum
    }
}

} // verus!
