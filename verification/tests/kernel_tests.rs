use xdp_check::kernel::{
    check_btf_support, check_kernel_compatibility, check_kernel_config, check_kernel_modules,
    check_kernel_version, classify_version, release_5_8_plus, KernelConfig, KernelHost,
};
use xdp_check::{CheckStatus, ProbeError};

#[test]
fn version_classification_three_way() {
    // below the minimum pair
    assert!(matches!(classify_version(4, 17), CheckStatus::Fail));
    assert!(matches!(classify_version(3, 19), CheckStatus::Fail));
    // at or above minimum but below recommended
    assert!(matches!(classify_version(4, 18), CheckStatus::Warning));
    assert!(matches!(classify_version(5, 15), CheckStatus::Warning));
    assert!(matches!(classify_version(6, 9), CheckStatus::Warning));
    // at or above recommended
    assert!(matches!(classify_version(6, 10), CheckStatus::Pass));
    assert!(matches!(classify_version(6, 11), CheckStatus::Pass));
    assert!(matches!(classify_version(7, 0), CheckStatus::Pass));
}

#[test]
fn version_classification_never_downgrades() {
    // raising major or minor from sampled points never worsens the outcome
    let rank = |s: CheckStatus| match s {
        CheckStatus::Fail => 0,
        CheckStatus::Warning => 1,
        _ => 2,
    };
    let samples: [(u32, u32); 6] = [(3, 0), (4, 17), (4, 18), (5, 15), (6, 10), (8, 2)];
    for &(maj, min) in samples.iter() {
        let here = rank(classify_version(maj, min));
        assert!(rank(classify_version(maj + 1, min)) >= here);
        assert!(rank(classify_version(maj, min + 1)) >= here);
    }
}

#[test]
fn kernel_version_check_parses_release_strings() {
    let r = check_kernel_version("5.15.0-91-generic");
    assert_eq!(r.name, "Kernel Version");
    assert!(matches!(r.status, CheckStatus::Warning));
    assert_eq!(r.message, "Kernel version: 5.15.0-91-generic (5.15)");
    assert_eq!(
        r.details.unwrap(),
        "Kernel 5.15 supports AF_XDP but 6.10+ is recommended for better stability"
    );

    let pass = check_kernel_version("6.10.4-arch1-1");
    assert!(matches!(pass.status, CheckStatus::Pass));
    assert_eq!(
        pass.details.unwrap(),
        "Kernel 6.10 meets recommended version 6.10 for stable AF_XDP support"
    );

    let fail = check_kernel_version("4.4.0");
    assert!(matches!(fail.status, CheckStatus::Fail));
    assert_eq!(fail.details.unwrap(), "Kernel 4.4 is too old. Minimum required: 4.18");
}

#[test]
fn unparsable_release_is_an_error_result() {
    let r = check_kernel_version("unknown");
    assert!(matches!(r.status, CheckStatus::Error));
    assert_eq!(r.message, "Unable to parse kernel version: unknown");
    assert!(r.details.is_none());
}

#[test]
fn non_numeric_fields_are_an_error_result() {
    // fields exist but are not numerals: the release is unparsable, so the
    // check reports an Error record rather than classifying a made-up pair
    let r = check_kernel_version("abc.def-x");
    assert!(matches!(r.status, CheckStatus::Error));
    assert_eq!(r.message, "Unable to parse kernel version: abc.def-x");

    let half = check_kernel_version("5.x-generic");
    assert!(matches!(half.status, CheckStatus::Error));
    assert_eq!(half.message, "Unable to parse kernel version: 5.x-generic");

    // trailing non-numeric fields beyond the pair do not matter
    let rc = check_kernel_version("4.18-rc1");
    assert!(matches!(rc.status, CheckStatus::Warning));
    assert_eq!(rc.message, "Kernel version: 4.18-rc1 (4.18)");
}

#[test]
fn capability_era_boundary() {
    assert!(release_5_8_plus("5.8.0"));
    assert!(release_5_8_plus("6.1.0-foo"));
    assert!(!release_5_8_plus("5.7.19"));
    assert!(!release_5_8_plus("4.18.0"));
    // one field only: minor reads as zero
    assert!(release_5_8_plus("6"));
    assert!(!release_5_8_plus("5"));
}

#[test]
fn config_flags_pass_fail_and_warn() {
    let config = Some(KernelConfig {
        path: "/boot/config-test".to_string(),
        content: "CONFIG_XDP_SOCKETS=y\nCONFIG_BPF=m\nCONFIG_NET=y\nCONFIG_NETLINK=y\n"
            .to_string(),
    });
    let results = check_kernel_config(&config);
    assert_eq!(results.len(), 6);
    assert_eq!(results[0].name, "CONFIG_XDP_SOCKETS");
    assert!(matches!(results[0].status, CheckStatus::Pass));
    assert_eq!(results[0].details.as_deref().unwrap(), "Enabled in /boot/config-test");
    // built as module counts as enabled
    assert!(matches!(results[1].status, CheckStatus::Pass));
    // a missing required flag fails
    assert_eq!(results[2].name, "CONFIG_BPF_SYSCALL");
    assert!(matches!(results[2].status, CheckStatus::Fail));
    assert_eq!(
        results[2].details.as_deref().unwrap(),
        "Not found or disabled in /boot/config-test. Required for XDP."
    );
    // a missing recommended flag only warns
    assert_eq!(results[4].name, "CONFIG_DEBUG_INFO_BTF");
    assert!(matches!(results[4].status, CheckStatus::Warning));
    // a present recommended flag passes
    assert!(matches!(results[5].status, CheckStatus::Pass));
}

#[test]
fn missing_config_degrades_to_one_warning() {
    let results = check_kernel_config(&None);
    assert_eq!(results.len(), 1);
    assert_eq!(results[0].name, "Kernel Config");
    assert!(matches!(results[0].status, CheckStatus::Warning));
    assert_eq!(results[0].message, "Unable to find kernel configuration file");
}

#[test]
fn disabled_flag_is_not_enabled() {
    // "is not set" comments must not count as enabled
    let config = Some(KernelConfig {
        path: "/boot/config-test".to_string(),
        content: "# CONFIG_XDP_SOCKETS is not set\n".to_string(),
    });
    let results = check_kernel_config(&config);
    assert!(matches!(results[0].status, CheckStatus::Fail));
}

#[test]
fn btf_artifact_check() {
    let present = check_btf_support(true);
    assert!(matches!(present.status, CheckStatus::Pass));
    assert_eq!(present.message, "BTF type information available");
    let absent = check_btf_support(false);
    assert!(matches!(absent.status, CheckStatus::Warning));
    assert_eq!(absent.message, "BTF type information not found");
}

#[test]
fn module_list_check() {
    let loaded = check_kernel_modules("xsk_diag 16384 0 - Live 0x0000000000000000\n");
    assert_eq!(loaded.len(), 1);
    assert!(matches!(loaded[0].status, CheckStatus::Pass));
    assert_eq!(loaded[0].message, "XSK diagnostic module loaded");
    let missing = check_kernel_modules("ext4 737280 1 - Live\n");
    assert!(matches!(missing[0].status, CheckStatus::Info));
    assert_eq!(missing[0].message, "XSK diagnostic module not loaded");
}

#[test]
fn whole_kernel_probe_and_fatal_tier() {
    let host = KernelHost {
        release: Some("6.11.0".to_string()),
        config: None,
        btf_present: true,
        modules: Some("xsk 1 0\n".to_string()),
    };
    let results = check_kernel_compatibility(&host).unwrap();
    // version + one config warning + btf + module
    assert_eq!(results.len(), 4);
    assert_eq!(results[0].name, "Kernel Version");
    assert_eq!(results[1].name, "Kernel Config");
    assert_eq!(results[2].name, "BTF Support");
    assert_eq!(results[3].name, "XSK Module");

    let no_release = KernelHost {
        release: None,
        config: None,
        btf_present: false,
        modules: Some(String::new()),
    };
    assert_eq!(
        check_kernel_compatibility(&no_release).unwrap_err(),
        ProbeError::KernelIdentity
    );

    let no_modules = KernelHost {
        release: Some("6.11.0".to_string()),
        config: None,
        btf_present: false,
        modules: None,
    };
    assert_eq!(check_kernel_compatibility(&no_modules).unwrap_err(), ProbeError::Modules);
}
