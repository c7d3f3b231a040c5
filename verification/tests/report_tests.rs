use xdp_check::report::Report;
use xdp_check::{CheckResult, CheckStatus};

fn result(name: &str, status: CheckStatus) -> CheckResult {
    CheckResult {
        name: name.to_string(),
        status,
        message: format!("{} message", name),
        details: None,
    }
}

#[test]
fn empty_report_is_compatible() {
    let report = Report::new();
    assert!(report.is_compatible());
}

#[test]
fn compatible_with_only_non_failing_severities() {
    let mut report = Report::new();
    report.add_section(
        "Kernel",
        vec![
            result("a", CheckStatus::Pass),
            result("b", CheckStatus::Warning),
            result("c", CheckStatus::Info),
        ],
    );
    assert!(report.is_compatible());
}

#[test]
fn one_fail_in_any_section_flips_verdict() {
    let mut report = Report::new();
    report.add_section("Kernel", vec![result("a", CheckStatus::Pass)]);
    report.add_section("NIC", vec![result("b", CheckStatus::Info)]);
    assert!(report.is_compatible());
    report.add_section(
        "Runtime",
        vec![result("c", CheckStatus::Pass), result("d", CheckStatus::Fail)],
    );
    assert!(!report.is_compatible());
}

#[test]
fn error_severity_also_fails_the_verdict() {
    let mut report = Report::new();
    report.add_section("Kernel", vec![result("a", CheckStatus::Error)]);
    assert!(!report.is_compatible());
}

#[test]
fn check_counts_match_severity_cardinalities() {
    // a synthetic report of {3 Pass, 1 Warning, 2 Info}
    let mut report = Report::new();
    report.add_section(
        "One",
        vec![result("a", CheckStatus::Pass), result("b", CheckStatus::Warning)],
    );
    report.add_section(
        "Two",
        vec![
            result("c", CheckStatus::Pass),
            result("d", CheckStatus::Info),
            result("e", CheckStatus::Pass),
            result("f", CheckStatus::Info),
        ],
    );
    let counts = report.check_counts();
    assert_eq!(counts.pass, 3);
    assert_eq!(counts.warning, 1);
    assert_eq!(counts.info, 2);
    assert_eq!(counts.fail, 0);
    assert_eq!(counts.error, 0);
    assert_eq!(report.total_results(), Some(6));
}

#[test]
fn human_render_visits_sections_in_insertion_order() {
    let mut report = Report::new();
    report.add_section("Kernel", vec![result("a", CheckStatus::Pass)]);
    report.add_section("Capabilities", vec![]);
    report.add_section("NIC", vec![result("b", CheckStatus::Pass)]);
    assert_eq!(report.names(), &vec!["Kernel", "Capabilities", "NIC"]);
    assert_eq!(report.entries().len(), 3);
    let lines = report.render_human(false);
    let kernel_pos = lines.iter().position(|l| l == "Kernel").unwrap();
    let caps_pos = lines.iter().position(|l| l == "Capabilities").unwrap();
    let nic_pos = lines.iter().position(|l| l == "NIC").unwrap();
    assert!(kernel_pos < caps_pos);
    assert!(caps_pos < nic_pos);
    // each header is preceded by a blank line and followed by a dash rule
    assert_eq!(lines[kernel_pos - 1], "");
    assert_eq!(lines[kernel_pos + 1], "------");
    assert_eq!(lines[caps_pos + 1], "------------");
}

#[test]
fn human_render_lines_and_summary() {
    let mut report = Report::new();
    report.add_section(
        "Kernel",
        vec![CheckResult {
            name: "Kernel Version".to_string(),
            status: CheckStatus::Pass,
            message: "Kernel version: 6.11.0 (6.11)".to_string(),
            details: Some("all good".to_string()),
        }],
    );
    let lines = report.render_human(false);
    assert_eq!(lines[0], "");
    assert_eq!(lines[1], "Kernel");
    assert_eq!(lines[2], "------");
    assert_eq!(lines[3], "  ✓ Kernel Version - Kernel version: 6.11.0 (6.11)");
    // a passing result's details are hidden without the verbosity flag
    assert!(!lines.iter().any(|l| l.contains("all good")));
    assert!(lines.iter().any(|l| l == "✅ XDP compatibility check PASSED"));
    assert!(lines.iter().any(|l| l == "   System is ready for XDP deployment!"));
    // the verbose tip only appears when something failed or warned
    assert!(!lines.iter().any(|l| l.contains("--verbose")));
}

#[test]
fn human_render_shows_details_for_warnings_and_verbose() {
    let mut report = Report::new();
    report.add_section(
        "NIC",
        vec![CheckResult {
            name: "eth0: Driver".to_string(),
            status: CheckStatus::Warning,
            message: "Network driver: e1000e".to_string(),
            details: Some("Driver: e1000e\nsecond line".to_string()),
        }],
    );
    let lines = report.render_human(false);
    assert!(lines.iter().any(|l| l == "      Driver: e1000e"));
    assert!(lines.iter().any(|l| l == "      second line"));
    assert!(lines
        .iter()
        .any(|l| l == "⚠️  XDP compatibility check PASSED with warnings"));
    assert!(lines
        .iter()
        .any(|l| l == "💡 Run with --verbose for detailed information"));
    // verbose shows details of passing results too
    let mut verbose_report = Report::new();
    verbose_report.add_section(
        "NIC",
        vec![CheckResult {
            name: "eth0: Status".to_string(),
            status: CheckStatus::Pass,
            message: "Interface state: up".to_string(),
            details: Some("hidden unless verbose".to_string()),
        }],
    );
    let terse = verbose_report.render_human(false);
    assert!(!terse.iter().any(|l| l.contains("hidden unless verbose")));
    let verbose = verbose_report.render_human(true);
    assert!(verbose.iter().any(|l| l == "      hidden unless verbose"));
}

#[test]
fn failed_summary_banner() {
    let mut report = Report::new();
    report.add_section("Kernel", vec![result("a", CheckStatus::Fail)]);
    let lines = report.render_human(true);
    assert!(lines.iter().any(|l| l == "❌ XDP compatibility check FAILED"));
    assert!(lines
        .iter()
        .any(|l| l == "   Some critical requirements are not met."));
    // verbose run: no tip line
    assert!(!lines.iter().any(|l| l.contains("--verbose")));
}

#[test]
fn duplicate_section_overwrites_content_in_place() {
    let mut report = Report::new();
    report.add_section("Kernel", vec![result("a", CheckStatus::Fail)]);
    assert!(!report.is_compatible());
    report.add_section("Kernel", vec![result("a", CheckStatus::Pass)]);
    assert!(report.is_compatible());
    // the name's order position is recorded twice, so the block renders twice
    let lines = report.render_human(false);
    assert_eq!(lines.iter().filter(|l| *l == "Kernel").count(), 2);
}

#[test]
fn status_helpers() {
    assert!(CheckStatus::Fail.is_failure());
    assert!(CheckStatus::Error.is_failure());
    assert!(!CheckStatus::Pass.is_failure());
    assert!(!CheckStatus::Warning.is_failure());
    assert!(!CheckStatus::Info.is_failure());
    assert_eq!(CheckStatus::Pass.to_icon(), "✓");
    assert_eq!(CheckStatus::Fail.to_icon(), "✗");
    assert_eq!(CheckStatus::Warning.to_icon(), "⚠");
    assert_eq!(CheckStatus::Info.to_icon(), "ℹ");
    assert_eq!(CheckStatus::Error.to_icon(), "!");
    assert_eq!(CheckStatus::Pass.to_text(), "PASS");
    assert_eq!(CheckStatus::Fail.to_text(), "FAIL");
    assert_eq!(CheckStatus::Warning.to_text(), "WARN");
    assert_eq!(CheckStatus::Info.to_text(), "INFO");
    assert_eq!(CheckStatus::Error.to_text(), "ERROR");
}
