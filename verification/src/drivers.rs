//! Device driver framework: the driver abstraction, the device catalog, and
//! the input-event vocabulary shared by the peripheral drivers.

pub mod keyboard;
pub mod storage;
pub mod timer;

use vstd::prelude::*;

verus! {

broadcast use vstd::string::group_string_axioms;

/// Device identifier type.
pub type DeviceId = u64;

/// Driver error types.
#[derive(Debug, Clone, PartialEq, Eq)]
pub enum DriverError {
    /// Driver initialization failed.
    InitializationFailed(String),
    /// Device not present or not responding.
    DeviceNotPresent,
    /// I/O operation failed.
    IoError(String),
    /// Unsupported operation for this driver.
    UnsupportedOperation,
    /// Invalid configuration provided.
    InvalidConfiguration,
    /// Resource allocation failed.
    ResourceAllocationFailed,
    /// Interrupt handling failed.
    InterruptHandlingFailed,
    /// Device timeout.
    Timeout,
    /// Hardware error detected.
    HardwareError(String),
}

/// Driver performance and diagnostic statistics.
#[derive(Debug, Clone, Copy, PartialEq, Eq, Structural)]
pub struct DriverStats {
    pub interrupts_handled: u64,
    pub errors_encountered: u64,
    pub bytes_transferred: u64,
    pub operations_completed: u64,
    /// Timestamp of the last error, if any.
    pub last_error: Option<u64>,
}

impl Default for DriverStats {
    /// All counters zero, no error recorded.
    fn default() -> (r: Self)
        ensures
            r.interrupts_handled == 0,
            r.errors_encountered == 0,
            r.bytes_transferred == 0,
            r.operations_completed == 0,
            r.last_error is None,
    {
        Self {
            interrupts_handled: 0,
            errors_encountered: 0,
            bytes_transferred: 0,
            operations_completed: 0,
            last_error: None,
        }
    }
}

/// Generic driver abstraction for device drivers. Peripheral drivers
/// implement it so the kernel can bring them up, tear them down, and route
/// interrupts uniformly.
pub trait Driver {
    type Config;
    type Error;

    /// The driver name.
    fn name(&self) -> &'static str;

    /// The driver version.
    fn version(&self) -> &'static str;

    /// Initialize the driver with configuration.
    fn init(&mut self, config: Self::Config) -> Result<(), Self::Error>;

    /// Deinitialize the driver and release its resources.
    fn deinit(&mut self) -> Result<(), Self::Error>;

    /// Whether the driver is initialized.
    fn is_initialized(&self) -> bool;

    /// Handle a device interrupt.
    fn handle_interrupt(&mut self, irq: u32) -> Result<(), Self::Error>;

    /// Driver statistics.
    fn get_stats(&self) -> DriverStats;

    /// Reset the device.
    fn reset(&mut self) -> Result<(), Self::Error>;
}

/// Device types supported by the system.
#[derive(Debug, Clone, Copy, PartialEq, Eq, Structural)]
pub enum DeviceType {
    Keyboard,
    Mouse,
    TouchScreen,
    Timer,
    Storage,
    Network,
    Audio,
    Graphics,
    Serial,
    Unknown,
}

/// Device descriptor containing device information.
#[derive(Debug)]
pub struct DeviceDescriptor {
    pub id: DeviceId,
    pub device_type: DeviceType,
    pub name: String,
    pub vendor: String,
    pub version: String,
    pub capabilities: Vec<String>,
    pub initialized: bool,
}

/// The descriptors of `s` whose device type is `t`, in order.
pub open spec fn by_type(s: Seq<DeviceDescriptor>, t: DeviceType) -> Seq<DeviceDescriptor>
    decreases s.len(),
{
    if s.len() == 0 {
        Seq::empty()
    } else {
        by_type(s.drop_last(), t) + if s.last().device_type == t {
            seq![s.last()]
        } else {
            Seq::empty()
        }
    }
}

/// Device manager: the catalog of registered devices, each under a unique
/// identifier issued in increasing order.
pub struct DeviceManager {
    devices: Vec<DeviceDescriptor>,
    next_device_id: DeviceId,
}

impl DeviceManager {
    /// The registered devices, in registration order.
    pub closed spec fn devices(self) -> Seq<DeviceDescriptor> {
        self.devices@
    }

    /// The identifier the next registration will receive.
    pub closed spec fn spec_next_id(self) -> DeviceId {
        self.next_device_id
    }

    /// Identifiers are issued in increasing order, so the catalog is sorted
    /// by identifier and every identifier is below the next to be issued.
    pub open spec fn wf(self) -> bool {
        &&& forall|i: int, j: int|
            0 <= i < j < self.devices().len() ==> (#[trigger] self.devices()[i]).id
                < (#[trigger] self.devices()[j]).id
        &&& forall|i: int|
            0 <= i < self.devices().len() ==> (#[trigger] self.devices()[i]).id
                < self.spec_next_id()
        &&& self.spec_next_id() >= 1
    }

    /// Some registered device carries identifier `id`.
    pub open spec fn has_device(self, id: DeviceId) -> bool {
        exists|i: int| 0 <= i < self.devices().len() && (#[trigger] self.devices()[i]).id == id
    }

    /// Create a new device manager with an empty catalog.
    pub fn new() -> (r: Self)
        ensures
            r.devices() == Seq::<DeviceDescriptor>::empty(),
            r.spec_next_id() == 1,
            r.wf(),
    {
        let r = Self { devices: Vec::new(), next_device_id: 1 };
        proof {
            assert(r.devices() =~= Seq::<DeviceDescriptor>::empty());
        }
        r
    }

    /// The identifier the next registration will receive; registration is
    /// possible while this has not reached the largest identifier.
    pub fn next_device_id(&self) -> (r: DeviceId)
        ensures
            r == self.spec_next_id(),
    {
        self.next_device_id
    }

    /// Register a new device: issue it the next identifier and append its
    /// descriptor, version `1.0.0`, no capabilities, not yet initialized.
    pub fn register_device(&mut self, device_type: DeviceType, name: String, vendor: String) -> (r:
        DeviceId)
        requires
            old(self).wf(),
            old(self).spec_next_id() < DeviceId::MAX,
        ensures
            final(self).wf(),
            r == old(self).spec_next_id(),
            final(self).spec_next_id() == old(self).spec_next_id() + 1,
            final(self).devices().len() == old(self).devices().len() + 1,
            final(self).devices().drop_last() == old(self).devices(),
            ({
                let d = final(self).devices().last();
                &&& d.id == r
                &&& d.device_type == device_type
                &&& d.name == name
                &&& d.vendor == vendor
                &&& d.version@ == "1.0.0"@
                &&& d.capabilities.len() == 0
                &&& !d.initialized
            }),
    {
        let device_id = self.next_device_id;
        self.next_device_id = self.next_device_id + 1;

        let descriptor = DeviceDescriptor {
            id: device_id,
            device_type,
            name,
            vendor,
            version: "1.0.0".to_string(),
            capabilities: Vec::new(),
            initialized: false,
        };

        self.devices.push(descriptor);
        proof {
            assert(self.devices().drop_last() =~= old(self).devices());
        }
        device_id
    }

    /// Unregister a device: remove and return its descriptor, or `None`,
    /// changing nothing, if the identifier is unknown.
    pub fn unregister_device(&mut self, device_id: DeviceId) -> (r: Option<DeviceDescriptor>)
        requires
            old(self).wf(),
        ensures
            final(self).wf(),
            final(self).spec_next_id() == old(self).spec_next_id(),
            !old(self).has_device(device_id) ==> r is None && final(self).devices() == old(
                self,
            ).devices(),
            old(self).has_device(device_id) ==> exists|i: int|
                0 <= i < old(self).devices().len() && (#[trigger] old(self).devices()[i]).id
                    == device_id && r == Some(old(self).devices()[i]) && final(self).devices()
                    == old(self).devices().remove(i),
    {
        let n = self.devices.len();
        let mut i: usize = 0;
        while i < n
            invariant
                0 <= i <= n,
                n == self.devices@.len(),
                self == old(self),
                old(self).wf(),
                forall|k: int| 0 <= k < i ==> (#[trigger] self.devices@[k]).id != device_id,
            decreases n - i,
        {
            if self.devices[i].id == device_id {
                let d = self.devices.remove(i);
                proof {
                    old(self).devices().remove_ensures(i as int);
                    assert forall|a: int, b: int|
                        0 <= a < b < self.devices().len() implies (#[trigger] self.devices()[a]).id
                        < (#[trigger] self.devices()[b]).id by {
                        let qa = if a < i {
                            a
                        } else {
                            a + 1
                        };
                        let qb = if b < i {
                            b
                        } else {
                            b + 1
                        };
                        assert(self.devices()[a] == old(self).devices()[qa]);
                        assert(self.devices()[b] == old(self).devices()[qb]);
                    }
                }
                return Some(d);
            }
            i = i + 1;
        }
        None
    }

    /// The descriptor registered under `device_id`, if any.
    pub fn get_device(&self, device_id: DeviceId) -> (r: Option<&DeviceDescriptor>)
        ensures
            !self.has_device(device_id) ==> r is None,
            self.has_device(device_id) ==> exists|i: int|
                0 <= i < self.devices().len() && (#[trigger] self.devices()[i]).id == device_id
                    && r == Some(&self.devices()[i]),
    {
        let n = self.devices.len();
        let mut i: usize = 0;
        while i < n
            invariant
                0 <= i <= n,
                n == self.devices@.len(),
                forall|k: int| 0 <= k < i ==> (#[trigger] self.devices@[k]).id != device_id,
            decreases n - i,
        {
            if self.devices[i].id == device_id {
                return Some(&self.devices[i]);
            }
            i = i + 1;
        }
        None
    }

    /// All devices of the given type, in registration order.
    pub fn list_devices_by_type(&self, device_type: DeviceType) -> (r: Vec<&DeviceDescriptor>)
        ensures
            r@.len() == by_type(self.devices(), device_type).len(),
            forall|k: int|
                0 <= k < r@.len() ==> *(#[trigger] r@[k]) == by_type(
                    self.devices(),
                    device_type,
                )[k],
    {
        let ghost s = self.devices@;
        let mut result: Vec<&DeviceDescriptor> = Vec::new();
        let n = self.devices.len();
        let mut i: usize = 0;
        proof {
            assert(s.take(0) =~= Seq::<DeviceDescriptor>::empty());
        }
        while i < n
            invariant
                0 <= i <= n,
                n == s.len(),
                s == self.devices@,
                result@.len() == by_type(s.take(i as int), device_type).len(),
                forall|k: int|
                    0 <= k < result@.len() ==> *(#[trigger] result@[k]) == by_type(
                        s.take(i as int),
                        device_type,
                    )[k],
            decreases n - i,
        {
            proof {
                assert(s.take(i as int + 1).drop_last() =~= s.take(i as int));
                assert(s.take(i as int + 1).last() == s[i as int]);
            }
            let d = &self.devices[i];
            if d.device_type == device_type {
                result.push(d);
            }
            i = i + 1;
        }
        proof {
            assert(s.take(n as int) =~= s);
        }
        result
    }

    /// Mark the device registered under `device_id` as initialized; unknown
    /// identifiers change nothing.
    pub fn mark_initialized(&mut self, device_id: DeviceId)
        requires
            old(self).wf(),
        ensures
            final(self).wf(),
            final(self).spec_next_id() == old(self).spec_next_id(),
            !old(self).has_device(device_id) ==> final(self).devices() == old(self).devices(),
            old(self).has_device(device_id) ==> exists|i: int|
                0 <= i < old(self).devices().len() && (#[trigger] old(self).devices()[i]).id
                    == device_id && final(self).devices() == old(self).devices().update(
                    i,
                    (DeviceDescriptor { initialized: true, ..old(self).devices()[i] }),
                ),
    {
        let n = self.devices.len();
        let mut i: usize = 0;
        while i < n
            invariant
                0 <= i <= n,
                n == self.devices@.len(),
                self == old(self),
                old(self).wf(),
                forall|k: int| 0 <= k < i ==> (#[trigger] self.devices@[k]).id != device_id,
            decreases n - i,
        {
            if self.devices[i].id == device_id {
                let mut d = self.devices.remove(i);
                d.initialized = true;
                self.devices.insert(i, d);
                proof {
                    assert(self.devices() =~= old(self).devices().update(
                        i as int,
                        (DeviceDescriptor { initialized: true, ..old(self).devices()[i as int] }),
                    ));
                    assert forall|a: int, b: int|
                        0 <= a < b < self.devices().len() implies (#[trigger] self.devices()[a]).id
                        < (#[trigger] self.devices()[b]).id by {
                        assert(old(self).devices()[a].id < old(self).devices()[b].id);
                    }
                }
                return ;
            }
            i = i + 1;
        }
    }
}

/// One keyboard key event: the scancode with the key's press/release edge.
#[derive(Debug, Clone, Copy, PartialEq, Eq, Structural)]
pub struct KeyEvent {
    pub scancode: u8,
    pub pressed: bool,
}

/// Key modifier flags.
#[derive(Debug, Clone, Copy, PartialEq, Eq, Structural)]
pub struct KeyModifiers {
    pub shift: bool,
    pub ctrl: bool,
    pub alt: bool,
    pub meta: bool,
}

impl Default for KeyModifiers {
    /// No modifier held.
    fn default() -> (r: Self)
        ensures
            !r.shift && !r.ctrl && !r.alt && !r.meta,
    {
        Self { shift: false, ctrl: false, alt: false, meta: false }
    }
}

/// Mouse button types.
#[derive(Debug, Clone, Copy, PartialEq, Eq, Structural)]
pub enum MouseButton {
    Left,
    Right,
    Middle,
    Other(u8),
}

/// Touch event types.
#[derive(Debug, Clone, Copy, PartialEq, Eq, Structural)]
pub enum TouchEventType {
    Down,
    Move,
    Up,
    Cancel,
}

} // verus!
