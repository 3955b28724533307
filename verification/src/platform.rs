//! Platform abstraction layer: traits and types for platform-specific
//! functionality, to keep the core portable.
//!
//! Halting the CPU is the one platform operation that cannot live here — it
//! never returns — so it stays with the architecture shim.

pub mod x86_64;

use vstd::prelude::*;

verus! {

/// Platform-specific functionality.
pub trait Platform {
    /// The platform name.
    fn name(&self) -> &'static str;

    /// Initialize the platform.
    fn init(&mut self) -> Result<(), PlatformError>;

    /// Platform-specific information.
    fn info(&self) -> PlatformInfo;
}

/// Platform-specific information.
#[derive(Debug)]
pub struct PlatformInfo {
    pub architecture: &'static str,
    pub vendor: &'static str,
    pub features: Vec<&'static str>,
}

impl Clone for PlatformInfo {
    fn clone(&self) -> (r: Self)
        ensures
            r.architecture == self.architecture,
            r.vendor == self.vendor,
            r.features@ == self.features@,
    {
        let features = self.features.clone();
        proof {
            assert(features@ =~= self.features@);
        }
        PlatformInfo { architecture: self.architecture, vendor: self.vendor, features }
    }
}

/// Error type for platform operations.
#[derive(Debug, Clone, Copy, PartialEq, Eq, Structural)]
pub enum PlatformError {
    InitializationFailed,
    UnsupportedFeature,
    HardwareError,
}

/// Detect the current platform. Only one platform is supported so far.
pub fn detect_platform() -> (r: Option<&'static str>)
    ensures
        r matches Some(name) && name@ == "x86_64"@,
{
    proof {
        reveal_strlit("x86_64");
    }
    Some("x86_64")
}

} // verus!
