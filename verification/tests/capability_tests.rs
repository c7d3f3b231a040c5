use xdp_check::capabilities::{
    capability_results, quick_capability_results, required_caps_vec, CapFlags, CapKind,
};
use xdp_check::CheckStatus;

fn flags(net_raw: bool, net_admin: bool, bpf: bool, perfmon: bool, sys_admin: bool) -> CapFlags {
    CapFlags { net_raw, net_admin, bpf, perfmon, sys_admin }
}

#[test]
fn required_set_depends_on_kernel_era() {
    let modern = required_caps_vec(true);
    assert_eq!(
        modern,
        vec![CapKind::NetRaw, CapKind::NetAdmin, CapKind::Bpf, CapKind::Perfmon]
    );
    let legacy = required_caps_vec(false);
    assert_eq!(legacy, vec![CapKind::NetRaw, CapKind::NetAdmin, CapKind::SysAdmin]);
}

#[test]
fn cap_labels() {
    assert_eq!(CapKind::NetRaw.label(), "CAP_NET_RAW");
    assert_eq!(CapKind::Bpf.label(), "CAP_BPF");
    assert_eq!(CapKind::Perfmon.description(), "Performance monitoring");
}

#[test]
fn non_root_without_caps_fails_each() {
    let none = flags(false, false, false, false, false);
    let results = capability_results(1000, true, &none, &none);
    // identity + four era capabilities, no aggregate
    assert_eq!(results.len(), 5);
    assert_eq!(results[0].name, "user Privileges");
    assert!(matches!(results[0].status, CheckStatus::Info));
    assert_eq!(results[0].message, "running as user (UID: 1000)");
    for r in &results[1..] {
        assert!(matches!(r.status, CheckStatus::Fail));
    }
    assert_eq!(results[1].name, "CAP_NET_RAW");
    assert_eq!(
        results[1].details.as_deref().unwrap(),
        "Missing capability. Grant it with: sudo setcap cap_net_raw=ep <binary>"
    );
}

#[test]
fn root_without_caps_warns_each() {
    let none = flags(false, false, false, false, false);
    let results = capability_results(0, false, &none, &none);
    assert_eq!(results.len(), 4);
    assert_eq!(results[0].message, "running as root");
    assert!(matches!(results[0].status, CheckStatus::Pass));
    for r in &results[1..] {
        assert!(matches!(r.status, CheckStatus::Warning));
        assert_eq!(
            r.details.as_deref().unwrap(),
            "Root user but capability not detected (unusual)"
        );
    }
}

#[test]
fn granted_caps_pass() {
    let all = flags(true, true, true, true, true);
    let results = capability_results(1000, true, &all, &all);
    assert_eq!(results.len(), 5);
    for r in &results[1..] {
        assert!(matches!(r.status, CheckStatus::Pass));
        assert_eq!(r.details.as_deref().unwrap(), "Capability granted");
    }
}

#[test]
fn permitted_but_not_effective_aggregate() {
    let eff = flags(true, false, false, false, false);
    let perm = flags(true, true, true, false, false);
    let results = capability_results(1000, true, &eff, &perm);
    // identity + four capabilities + the aggregate
    assert_eq!(results.len(), 6);
    let last = &results[5];
    assert_eq!(last.name, "Available Capabilities");
    assert!(matches!(last.status, CheckStatus::Info));
    assert_eq!(
        last.details.as_deref().unwrap(),
        "Could activate: CAP_NET_ADMIN, CAP_BPF. Consider using ambient capabilities."
    );
}

#[test]
fn quick_capability_tiers() {
    // root passes outright
    let none = flags(false, false, false, false, false);
    let root = quick_capability_results(true, &none);
    assert_eq!(root.len(), 1);
    assert!(matches!(root[0].status, CheckStatus::Pass));
    assert_eq!(root[0].message, "Running as root (all capabilities)");

    // the essential set passes: both network capabilities plus bpf or admin
    let with_bpf = flags(true, true, true, false, false);
    let ok = quick_capability_results(false, &with_bpf);
    assert!(matches!(ok[0].status, CheckStatus::Pass));
    let with_admin = flags(true, true, false, false, true);
    assert!(matches!(
        quick_capability_results(false, &with_admin)[0].status,
        CheckStatus::Pass
    ));

    // one of the network capabilities alone warns
    let partial = flags(true, false, false, false, false);
    let warn = quick_capability_results(false, &partial);
    assert!(matches!(warn[0].status, CheckStatus::Warning));
    assert_eq!(warn[0].message, "Checking essential capabilities");

    // nothing fails
    let fail = quick_capability_results(false, &none);
    assert!(matches!(fail[0].status, CheckStatus::Fail));
    assert_eq!(
        fail[0].details.as_deref().unwrap(),
        "Missing critical capabilities. XDP will not work."
    );
}
