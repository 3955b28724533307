//! x86-64 platform implementation.

use vstd::prelude::*;

use crate::platform::Platform;
use crate::platform::PlatformError;
use crate::platform::PlatformInfo;

verus! {

/// x86-64 platform implementation.
#[derive(Debug)]
pub struct X86_64Platform {
    info: PlatformInfo,
}

impl X86_64Platform {
    /// The platform information this instance reports.
    pub closed spec fn spec_info(self) -> PlatformInfo {
        self.info
    }

    /// Create a new x86-64 platform instance.
    pub fn new() -> (r: Self)
        ensures
            r.spec_info().architecture@ == "x86_64"@,
            r.spec_info().vendor@ == "Generic x86_64"@,
            r.spec_info().features@.len() == 3,
            r.spec_info().features@[0]@ == "long_mode"@,
            r.spec_info().features@[1]@ == "sse"@,
            r.spec_info().features@[2]@ == "apic"@,
    {
        let mut features: Vec<&'static str> = Vec::new();
        features.push("long_mode");
        features.push("sse");
        features.push("apic");
        Self {
            info: PlatformInfo { architecture: "x86_64", vendor: "Generic x86_64", features },
        }
    }
}

impl Platform for X86_64Platform {
    fn name(&self) -> (r: &'static str)
        ensures
            r@ == "x86_64"@,
    {
        "x86_64"
    }

    /// Nothing to set up yet: CPU feature enablement is still to come.
    fn init(&mut self) -> (r: Result<(), PlatformError>)
        ensures
            r is Ok,
            *final(self) == *old(self),
    {
        Ok(())
    }

    fn info(&self) -> (r: PlatformInfo)
        ensures
            r.architecture == self.spec_info().architecture,
            r.vendor == self.spec_info().vendor,
            r.features@ == self.spec_info().features@,
    {
        self.info.clone()
    }
}

/// The CPU vendor string. The identification instruction is not issued yet;
/// the placeholder result is all zeroes.
pub fn get_cpu_vendor() -> (r: [u8; 12])
    ensures
        forall|i: int| 0 <= i < 12 ==> r@[i] == 0,
{
    let vendor = [0; 12];
    vendor
}

} // verus!
