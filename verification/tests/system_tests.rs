use xdp_check::system::{
    check_cpu_info, check_huge_pages, check_irq_affinity, check_system_load,
    check_system_resources, classify_memlock, memlock_result, parse_load_centi, SystemHost,
    RLIM_INFINITY,
};
use xdp_check::{CheckStatus, ProbeError};

const MB: u64 = 1024 * 1024;

#[test]
fn memlock_boundaries() {
    // exactly 512 MB passes
    assert!(matches!(classify_memlock(512 * MB), CheckStatus::Pass));
    // 511 MB is above the 64 MB floor, so it warns
    assert!(matches!(classify_memlock(511 * MB), CheckStatus::Warning));
    // exactly 64 MB warns
    assert!(matches!(classify_memlock(64 * MB), CheckStatus::Warning));
    // below 64 MB fails
    assert!(matches!(classify_memlock(63 * MB), CheckStatus::Fail));
    assert!(matches!(classify_memlock(0), CheckStatus::Fail));
    // the unlimited sentinel passes regardless of the numeric value
    assert!(matches!(classify_memlock(RLIM_INFINITY), CheckStatus::Pass));
}

#[test]
fn memlock_messages() {
    let unlimited = memlock_result(RLIM_INFINITY, RLIM_INFINITY);
    assert_eq!(unlimited.message, "Unlimited memory lock");
    assert!(matches!(unlimited.status, CheckStatus::Pass));

    let bounded = memlock_result(64 * MB, 512 * MB);
    assert_eq!(bounded.message, "Current: 64 MB, Max: 512 MB");
    assert!(matches!(bounded.status, CheckStatus::Warning));

    let unlimited_max = memlock_result(8 * MB, RLIM_INFINITY);
    assert_eq!(unlimited_max.message, "Current: 8 MB, Max: unlimited MB");
    assert!(matches!(unlimited_max.status, CheckStatus::Fail));
}

#[test]
fn huge_pages_messages() {
    let none = check_huge_pages(&Some("0\n".to_string()), &None);
    assert!(matches!(none.status, CheckStatus::Info));
    assert_eq!(none.message, "No huge pages available");

    let only_2mb = check_huge_pages(&Some("2\n".to_string()), &Some("0\n".to_string()));
    assert!(matches!(only_2mb.status, CheckStatus::Pass));
    assert_eq!(only_2mb.message, "2 x 2MB huge pages available");

    let only_1gb = check_huge_pages(&None, &Some("4\n".to_string()));
    assert_eq!(only_1gb.message, "4 x 1GB huge pages available");

    let both = check_huge_pages(&Some("128\n".to_string()), &Some("2\n".to_string()));
    assert_eq!(both.message, "2MB: 128, 1GB: 2 pages available");

    // unparsable counter reads as zero
    let bad = check_huge_pages(&Some("n/a\n".to_string()), &None);
    assert!(matches!(bad.status, CheckStatus::Info));
}

#[test]
fn cpu_info_records() {
    let results = check_cpu_info(8, &Some("performance\n".to_string()), &Some("2-3\n".to_string()));
    assert_eq!(results.len(), 3);
    assert_eq!(results[0].message, "8 CPU cores available");
    assert!(matches!(results[0].status, CheckStatus::Info));
    assert_eq!(results[1].message, "CPU frequency governor: performance");
    assert!(matches!(results[1].status, CheckStatus::Pass));
    assert_eq!(results[2].message, "Isolated CPUs: 2-3");
    assert!(matches!(results[2].status, CheckStatus::Pass));

    let powersave = check_cpu_info(4, &Some("powersave\n".to_string()), &Some("\n".to_string()));
    // an isolated file holding only whitespace emits nothing
    assert_eq!(powersave.len(), 2);
    assert!(matches!(powersave[1].status, CheckStatus::Warning));

    let other = check_cpu_info(2, &Some("schedutil\n".to_string()), &None);
    assert_eq!(other.len(), 2);
    assert!(matches!(other[1].status, CheckStatus::Info));
    assert!(other[1].details.is_none());
}

#[test]
fn irq_balance_records() {
    let running = check_irq_affinity(true);
    assert!(matches!(running.status, CheckStatus::Info));
    assert_eq!(running.message, "irqbalance service is running");
    let stopped = check_irq_affinity(false);
    assert!(matches!(stopped.status, CheckStatus::Pass));
    assert_eq!(stopped.message, "irqbalance is not running");
}

#[test]
fn load_parsing_in_hundredths() {
    assert_eq!(parse_load_centi("0.52"), 52);
    assert_eq!(parse_load_centi("1.05"), 105);
    assert_eq!(parse_load_centi("12.00"), 1200);
    assert_eq!(parse_load_centi("3"), 300);
    assert_eq!(parse_load_centi("0.5"), 50);
    assert_eq!(parse_load_centi("0.527"), 52);
    assert_eq!(parse_load_centi("bogus"), 0);
    assert_eq!(parse_load_centi("1.2.3"), 0);
    assert_eq!(parse_load_centi(""), 0);
}

#[test]
fn load_classification_and_message() {
    let pass = check_system_load("0.52 0.58 0.59 1/389 12345", 1);
    assert!(matches!(pass.status, CheckStatus::Pass));
    assert_eq!(pass.message, "Load average: 0.52 (52% of 1 cores)");

    // 0.70 of one core is not strictly below the threshold
    let warn = check_system_load("0.70 0.1 0.1 1/1 1", 1);
    assert!(matches!(warn.status, CheckStatus::Warning));

    // a high load also warns; there is no failing tier for load
    let high = check_system_load("9.99 0.1 0.1 1/1 1", 2);
    assert!(matches!(high.status, CheckStatus::Warning));
    assert_eq!(high.message, "Load average: 9.99 (499% of 2 cores)");

    // eight cores absorb the same load
    let spread = check_system_load("0.52 0.58 0.59 1/389 12345", 8);
    assert!(matches!(spread.status, CheckStatus::Pass));
    assert_eq!(spread.message, "Load average: 0.52 (6% of 8 cores)");

    let short = check_system_load("0.52 0.58", 1);
    assert!(matches!(short.status, CheckStatus::Warning));
    assert_eq!(short.message, "Unable to determine system load");
}

#[test]
fn whole_resource_probe_and_fatal_tier() {
    let host = SystemHost {
        hugepages_2mb: Some("0\n".to_string()),
        hugepages_1gb: None,
        memlock: Some((RLIM_INFINITY, RLIM_INFINITY)),
        cpu_count: 4,
        governor: None,
        isolated: None,
        irqbalance_running: false,
        loadavg: Some("0.10 0.10 0.10 1/100 99".to_string()),
    };
    let results = check_system_resources(&host).unwrap();
    assert_eq!(results.len(), 5);
    assert_eq!(results[0].name, "Huge Pages");
    assert_eq!(results[1].name, "Memory Lock Limit");
    assert_eq!(results[2].name, "CPU Cores");
    assert_eq!(results[3].name, "IRQ Balance");
    assert_eq!(results[4].name, "System Load");

    let no_limit = SystemHost {
        hugepages_2mb: None,
        hugepages_1gb: None,
        memlock: None,
        cpu_count: 1,
        governor: None,
        isolated: None,
        irqbalance_running: false,
        loadavg: Some("0 0 0 0/0 0".to_string()),
    };
    assert_eq!(
        check_system_resources(&no_limit).unwrap_err(),
        ProbeError::ResourceLimit
    );

    let no_load = SystemHost {
        hugepages_2mb: None,
        hugepages_1gb: None,
        memlock: Some((0, 0)),
        cpu_count: 1,
        governor: None,
        isolated: None,
        irqbalance_running: false,
        loadavg: None,
    };
    assert_eq!(check_system_resources(&no_load).unwrap_err(), ProbeError::LoadAverage);
}
