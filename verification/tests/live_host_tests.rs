//! These run the environment-reading entry points against the live test
//! host, exercising the real system-identity, capability and resource-limit
//! calls behind them.

use xdp_check::capabilities::{check_capabilities, quick_capability_check};
use xdp_check::host::{kernel_release, memlock_limit};
use xdp_check::kernel::quick_kernel_check;
use xdp_check::system::check_memlock_limit;

#[test]
fn live_kernel_release_is_readable() {
    let release = kernel_release().expect("the host reports a kernel release");
    assert!(!release.is_empty());
}

#[test]
fn live_quick_kernel_check_reports_one_version_record() {
    let results = quick_kernel_check().expect("kernel identity is readable");
    assert_eq!(results.len(), 1);
    assert_eq!(results[0].name, "Kernel Version");
}

#[test]
fn live_memlock_limit_is_readable() {
    let (cur, max) = memlock_limit().expect("the limit is readable");
    assert!(cur <= max);
    let record = check_memlock_limit().expect("the limit is readable");
    assert_eq!(record.name, "Memory Lock Limit");
}

#[test]
fn live_capability_probe_runs() {
    let results = check_capabilities().expect("capability sets are readable");
    // the identity record plus one per required capability, at least
    assert!(results.len() >= 4);
    assert_eq!(results[0].name, "user Privileges");
    let quick = quick_capability_check().expect("capability sets are readable");
    assert_eq!(quick.len(), 1);
    assert_eq!(quick[0].name, "XDP Capabilities");
}
