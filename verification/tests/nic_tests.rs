use xdp_check::ethtool::{ifreq_name_bytes, ring_query_outcome, ring_result, RingParams};
use xdp_check::nic::{
    capable_driver, caveat_for, check_all_interfaces, check_interface, interface_driver,
    interface_queues, quick_interface_check, InterfaceHost,
};
use xdp_check::CheckStatus;

fn host(name: &str) -> InterfaceHost {
    InterfaceHost {
        name: name.to_string(),
        exists: true,
        operstate: Some("up\n".to_string()),
        driver_link: Some("mlx5_core".to_string()),
        uevent: None,
        xdp_dir_exists: true,
        xdp_prog_id: Some("0\n".to_string()),
        queue_names: vec!["rx-0".to_string(), "tx-0".to_string()],
        ring: Some((1024, 1024)),
        speed: Some("10000\n".to_string()),
        mtu: Some("1500\n".to_string()),
    }
}

#[test]
fn driver_tables() {
    assert!(capable_driver("i40e"));
    assert!(capable_driver("mlx5_core"));
    assert!(capable_driver("bnxt_en"));
    assert!(!capable_driver("e1000e"));
    assert!(!capable_driver("veth"));
    assert!(caveat_for("i40e").is_some());
    assert!(caveat_for("mlx5_core").is_none());
    assert!(caveat_for("e1000e").is_none());
}

#[test]
fn driver_classification_caveat_and_pass() {
    // a capable driver that is also in the caveat table warns with the note
    let mut h = host("eth0");
    h.driver_link = Some("i40e".to_string());
    let results = check_interface(&h);
    let driver = &results[1];
    assert_eq!(driver.name, "eth0: Driver");
    assert!(matches!(driver.status, CheckStatus::Warning));
    let note = driver.details.as_deref().unwrap();
    assert!(note.contains("KNOWN ISSUE"));
    assert!(note.len() > "Driver: i40e".len());

    // a capable driver without a caveat passes
    let mut h2 = host("eth1");
    h2.driver_link = Some("mlx5_core".to_string());
    let results2 = check_interface(&h2);
    let driver2 = &results2[1];
    assert!(matches!(driver2.status, CheckStatus::Pass));
    assert_eq!(driver2.details.as_deref().unwrap(), "Driver: mlx5_core");

    // a driver in neither table warns, with no caveat note
    let mut h3 = host("eth2");
    h3.driver_link = Some("e1000e".to_string());
    let results3 = check_interface(&h3);
    let driver3 = &results3[1];
    assert!(matches!(driver3.status, CheckStatus::Warning));
    assert_eq!(driver3.details.as_deref().unwrap(), "Driver: e1000e");
}

#[test]
fn driver_resolution_fallbacks() {
    assert_eq!(interface_driver(&Some("ixgbe".to_string()), &None), "ixgbe");
    let uevent = Some("INTERFACE=br0\nDEVTYPE=bridge\nIFINDEX=4\n".to_string());
    assert_eq!(interface_driver(&None, &uevent), "bridge");
    assert_eq!(interface_driver(&None, &Some("IFINDEX=4\n".to_string())), "unknown");
    assert_eq!(interface_driver(&None, &None), "unknown");
}

#[test]
fn missing_interface_is_an_error_record() {
    let mut h = host("nosuch0");
    h.exists = false;
    let results = check_interface(&h);
    assert_eq!(results.len(), 1);
    assert_eq!(results[0].name, "Interface: nosuch0");
    assert!(matches!(results[0].status, CheckStatus::Error));
    assert_eq!(results[0].details.as_deref().unwrap(), "No such interface: nosuch0");
}

#[test]
fn full_interface_record_set() {
    let h = host("eth0");
    let results = check_interface(&h);
    assert_eq!(results.len(), 7);
    assert_eq!(results[0].name, "eth0: Status");
    assert!(matches!(results[0].status, CheckStatus::Pass));
    assert_eq!(results[0].message, "Interface state: up");
    assert_eq!(results[2].name, "eth0: XDP Support");
    assert_eq!(results[2].message, "XDP-ready (no program attached)");
    assert_eq!(results[3].message, "RX queues: 1, TX queues: 1");
    assert_eq!(results[4].name, "eth0: Ring Buffers");
    assert_eq!(results[4].message, "RX: 1024, TX: 1024");
    assert_eq!(results[5].name, "eth0: Speed");
    assert_eq!(results[5].message, "10 Gbps");
    assert_eq!(results[6].name, "eth0: MTU");
    assert_eq!(results[6].message, "MTU: 1500 bytes");
}

#[test]
fn xdp_support_variants() {
    // attached program
    let mut h = host("eth0");
    h.xdp_prog_id = Some("42\n".to_string());
    let results = check_interface(&h);
    assert_eq!(results[2].message, "XDP program attached (ID: 42)");
    assert!(matches!(results[2].status, CheckStatus::Pass));

    // no capability marker, capable driver
    let mut h2 = host("eth1");
    h2.xdp_dir_exists = false;
    let results2 = check_interface(&h2);
    assert_eq!(results2[2].message, "XDP-capable (driver supports native XDP)");
    assert!(matches!(results2[2].status, CheckStatus::Pass));

    // no marker, unknown driver
    let mut h3 = host("eth2");
    h3.xdp_dir_exists = false;
    h3.driver_link = Some("e1000e".to_string());
    let results3 = check_interface(&h3);
    assert_eq!(results3[2].message, "No XDP support detected");
    assert!(matches!(results3[2].status, CheckStatus::Warning));
}

#[test]
fn speed_below_ten_gig_and_unreadable() {
    let mut h = host("eth0");
    h.speed = Some("1000\n".to_string());
    let results = check_interface(&h);
    assert_eq!(results[5].message, "1000 Mbps");
    // an unparsable speed is omitted
    let mut h2 = host("eth1");
    h2.speed = Some("-1\n".to_string());
    let results2 = check_interface(&h2);
    assert_eq!(results2.len(), 6);
    assert_eq!(results2[5].name, "eth1: MTU");
}

#[test]
fn queue_counting_defaults_to_one() {
    let names = vec![
        "rx-0".to_string(),
        "rx-1".to_string(),
        "tx-0".to_string(),
        "other".to_string(),
    ];
    assert_eq!(interface_queues(&names), (2, 1));
    assert_eq!(interface_queues(&vec![]), (1, 1));
    assert_eq!(interface_queues(&vec!["misc".to_string()]), (1, 1));
}

#[test]
fn ring_outcome_is_error_or_fully_populated() {
    let mut params = RingParams::new_query();
    assert_eq!(params.cmd, 0x10);
    assert_eq!(params.rx_pending, 0);
    params.rx_pending = 512;
    params.tx_pending = 1024;
    // a failed control call yields nothing, never a partial pair
    assert_eq!(ring_query_outcome(-1, &params), None);
    // a successful one yields exactly the populated pair
    assert_eq!(ring_query_outcome(0, &params), Some((512, 1024)));

    let failed = ring_result("eth0", &None);
    assert!(matches!(failed.status, CheckStatus::Warning));
    assert_eq!(failed.message, "Unable to determine ring buffer sizes");
}

#[test]
fn ifreq_name_is_truncated_and_terminated() {
    let short = ifreq_name_bytes("eth0");
    assert_eq!(short.len(), 16);
    assert_eq!(&short[0..4], b"eth0");
    assert!(short[4..].iter().all(|&b| b == 0));

    let long = ifreq_name_bytes("averyveryverylongname0");
    assert_eq!(long.len(), 16);
    assert_eq!(&long[0..15], b"averyveryverylo");
    assert_eq!(long[15], 0);
}

#[test]
fn all_interfaces_skips_loopback_and_warns_when_empty() {
    let empty: Vec<InterfaceHost> = vec![];
    let results = check_all_interfaces(&empty);
    assert_eq!(results.len(), 1);
    assert_eq!(results[0].name, "Network Interfaces");
    assert!(matches!(results[0].status, CheckStatus::Warning));

    let mut lo = host("lo");
    lo.driver_link = None;
    let results2 = check_all_interfaces(&vec![lo, host("eth0")]);
    // only eth0's records; none mention lo
    assert_eq!(results2.len(), 7);
    assert!(results2.iter().all(|r| r.name.starts_with("eth0")));

    // a listing of loopback alone yields no records at all
    let results3 = check_all_interfaces(&vec![host("lo")]);
    assert_eq!(results3.len(), 0);
}

#[test]
fn quick_interface_summary() {
    let mut bad = host("eth1");
    bad.driver_link = Some("e1000e".to_string());
    let results = quick_interface_check(&vec![host("lo"), host("eth0"), bad]);
    assert_eq!(results.len(), 1);
    assert!(matches!(results[0].status, CheckStatus::Pass));
    assert_eq!(results[0].message, "Found 1 XDP-capable interface(s)");
    assert_eq!(results[0].details.as_deref().unwrap(), "XDP-ready: eth0 (mlx5_core)");

    let mut only_bad = host("eth1");
    only_bad.driver_link = Some("e1000e".to_string());
    let warn = quick_interface_check(&vec![only_bad]);
    assert!(matches!(warn[0].status, CheckStatus::Warning));
    assert_eq!(
        warn[0].details.as_deref().unwrap(),
        "Interfaces without native XDP: eth1 (e1000e)"
    );

    let none = quick_interface_check(&vec![]);
    assert!(matches!(none[0].status, CheckStatus::Fail));
    assert_eq!(none[0].message, "Found 0 XDP-capable interface(s)");
    assert_eq!(none[0].details.as_deref().unwrap(), "No network interfaces detected");
}
