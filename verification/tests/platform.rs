//! Tests for the platform abstraction layer.

use kewve_os::platform::detect_platform;
use kewve_os::platform::x86_64::get_cpu_vendor;
use kewve_os::platform::x86_64::X86_64Platform;
use kewve_os::platform::Platform;

#[test]
fn platform_is_detected() {
    assert_eq!(detect_platform(), Some("x86_64"));
}

#[test]
fn x86_64_platform_reports_itself() {
    let mut platform = X86_64Platform::new();
    assert_eq!(platform.name(), "x86_64");
    assert!(platform.init().is_ok());
    let info = platform.info();
    assert_eq!(info.architecture, "x86_64");
    assert_eq!(info.vendor, "Generic x86_64");
    assert_eq!(info.features, vec!["long_mode", "sse", "apic"]);
}

#[test]
fn cpu_vendor_placeholder_is_zeroed() {
    assert_eq!(get_cpu_vendor(), [0u8; 12]);
}
