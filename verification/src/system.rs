//! The resource probe: huge pages, the locked-memory limit, CPU count and
//! governor, IRQ balancing, and the one-minute load average.

use vstd::prelude::*;

use crate::status::{views, CheckResult, CheckStatus, CheckView, ProbeError};
use crate::text;

verus! {

/// The sentinel the kernel uses for an unlimited resource limit.
pub const RLIM_INFINITY: u64 = 18446744073709551615;

pub const BYTES_PER_MB: u64 = 1048576;

/// Everything the resource probe reads from the host: raw file contents
/// where a file was readable, the resource limit pair, the CPU count, and
/// whether an IRQ-balancing daemon was seen running. `None` in `memlock` or
/// `loadavg` records that a mandatory read failed.
#[derive(Debug)]
pub struct SystemHost {
    pub hugepages_2mb: Option<String>,
    pub hugepages_1gb: Option<String>,
    pub memlock: Option<(u64, u64)>,
    pub cpu_count: u64,
    pub governor: Option<String>,
    pub isolated: Option<String>,
    pub irqbalance_running: bool,
    pub loadavg: Option<String>,
}

pub open spec fn opt_view(s: Option<String>) -> Option<Seq<char>> {
    match s {
        Some(t) => Some(t@),
        None => None,
    }
}

// ---------------------------------------------------------------------------
// Huge pages
// ---------------------------------------------------------------------------

/// A free-page count read from a counter file: the trimmed content as a
/// decimal, zero where the file was absent or unparsable.
pub open spec fn page_count(content: Option<Seq<char>>) -> u64 {
    match content {
        Some(t) => text::parse_u64_or_zero_spec(text::trim_spec(t)),
        None => 0,
    }
}

pub open spec fn huge_pages_message(huge_2mb: u64, huge_1gb: u64) -> Seq<char> {
    if huge_1gb > 0 && huge_2mb > 0 {
        "2MB: "@ + text::dec_digits(huge_2mb as nat) + ", 1GB: "@ + text::dec_digits(
            huge_1gb as nat,
        ) + " pages available"@
    } else if huge_2mb > 0 {
        text::dec_digits(huge_2mb as nat) + " x 2MB huge pages available"@
    } else if huge_1gb > 0 {
        text::dec_digits(huge_1gb as nat) + " x 1GB huge pages available"@
    } else {
        "No huge pages available"@
    }
}

/// The huge-page check: any nonzero class passes, none is informational.
pub open spec fn huge_pages_check(c2: Option<Seq<char>>, c1: Option<Seq<char>>) -> CheckView {
    let huge_2mb = page_count(c2);
    let huge_1gb = page_count(c1);
    let pass = huge_2mb > 0 || huge_1gb > 0;
    CheckView {
        name: "Huge Pages"@,
        status: if pass {
            CheckStatus::Pass
        } else {
            CheckStatus::Info
        },
        message: huge_pages_message(huge_2mb, huge_1gb),
        details: Some(
            if pass {
                "Huge pages improve XDP performance by reducing TLB misses"@
            } else {
                "XDP will use regular 4KB pages. Consider enabling huge pages for better performance."@
            },
        ),
    }
}

fn parse_page_count(content: &Option<String>) -> (r: u64)
    ensures
        r == page_count(opt_view(*content)),
{
    match content {
        Some(t) => {
            let trimmed = text::trim(t.as_str());
            text::parse_u64_or_zero(trimmed.as_str())
        },
        None => 0,
    }
}

/// Reports the free 2 MB and 1 GB huge-page counts.
pub fn check_huge_pages(c2: &Option<String>, c1: &Option<String>) -> (r: CheckResult)
    ensures
        r@ == huge_pages_check(opt_view(*c2), opt_view(*c1)),
{
    let huge_2mb = parse_page_count(c2);
    let huge_1gb = parse_page_count(c1);
    let pass = huge_2mb > 0 || huge_1gb > 0;
    let message: String = if huge_1gb > 0 && huge_2mb > 0 {
        let mut m = String::from_str("2MB: ");
        let a = text::u64_to_string(huge_2mb);
        m.append(a.as_str());
        m.append(", 1GB: ");
        let b = text::u64_to_string(huge_1gb);
        m.append(b.as_str());
        m.append(" pages available");
        m
    } else if huge_2mb > 0 {
        let mut m = text::u64_to_string(huge_2mb);
        m.append(" x 2MB huge pages available");
        m
    } else if huge_1gb > 0 {
        let mut m = text::u64_to_string(huge_1gb);
        m.append(" x 1GB huge pages available");
        m
    } else {
        String::from_str("No huge pages available")
    };
    let r = CheckResult {
        name: String::from_str("Huge Pages"),
        status: if pass {
            CheckStatus::Pass
        } else {
            CheckStatus::Info
        },
        message,
        details: Some(
            if pass {
                String::from_str("Huge pages improve XDP performance by reducing TLB misses")
            } else {
                String::from_str(
                    "XDP will use regular 4KB pages. Consider enabling huge pages for better performance.",
                )
            },
        ),
    };
    proof {
        assert(r@ == huge_pages_check(opt_view(*c2), opt_view(*c1)));
    }
    r
}

// ---------------------------------------------------------------------------
// Locked-memory limit
// ---------------------------------------------------------------------------

/// The three-way locked-memory classification: unlimited or at least 512 MB
/// passes, at least 64 MB warns, less fails.
pub open spec fn classify_memlock_spec(cur: u64) -> CheckStatus {
    if cur == RLIM_INFINITY || cur / BYTES_PER_MB >= 512 {
        CheckStatus::Pass
    } else if cur / BYTES_PER_MB >= 64 {
        CheckStatus::Warning
    } else {
        CheckStatus::Fail
    }
}

/// Classifies the current locked-memory limit in bytes.
pub fn classify_memlock(cur: u64) -> (r: CheckStatus)
    ensures
        r == classify_memlock_spec(cur),
{
    if cur == RLIM_INFINITY || cur / BYTES_PER_MB >= 512 {
        CheckStatus::Pass
    } else if cur / BYTES_PER_MB >= 64 {
        CheckStatus::Warning
    } else {
        CheckStatus::Fail
    }
}

pub open spec fn memlock_message(cur: u64, max: u64) -> Seq<char> {
    if cur == RLIM_INFINITY {
        "Unlimited memory lock"@
    } else {
        "Current: "@ + text::dec_digits((cur / BYTES_PER_MB) as nat) + " MB, Max: "@ + (if max
            == RLIM_INFINITY {
            "unlimited"@
        } else {
            text::dec_digits((max / BYTES_PER_MB) as nat)
        }) + " MB"@
    }
}

/// The locked-memory check for a limit pair `(current, maximum)`.
pub open spec fn memlock_check(cur: u64, max: u64) -> CheckView {
    let st = classify_memlock_spec(cur);
    CheckView {
        name: "Memory Lock Limit"@,
        status: st,
        message: memlock_message(cur, max),
        details: match st {
            CheckStatus::Pass => Some("Sufficient memory lock limit for XDP"@),
            CheckStatus::Warning => Some(
                "Memory lock limit may be insufficient for large XDP deployments. Consider increasing with 'ulimit -l'."@,
            ),
            CheckStatus::Fail => Some(
                "Memory lock limit too low for XDP. Increase with 'ulimit -l unlimited' or edit /etc/security/limits.conf."@,
            ),
            _ => None,
        },
    }
}

/// Builds the locked-memory record from a limit pair.
pub fn memlock_result(cur: u64, max: u64) -> (r: CheckResult)
    ensures
        r@ == memlock_check(cur, max),
{
    let status = classify_memlock(cur);
    let message: String = if cur == RLIM_INFINITY {
        String::from_str("Unlimited memory lock")
    } else {
        let mut m = String::from_str("Current: ");
        let a = text::u64_to_string(cur / BYTES_PER_MB);
        m.append(a.as_str());
        m.append(" MB, Max: ");
        if max == RLIM_INFINITY {
            m.append("unlimited");
        } else {
            let b = text::u64_to_string(max / BYTES_PER_MB);
            m.append(b.as_str());
        }
        m.append(" MB");
        m
    };
    let details: Option<String> = match status {
        CheckStatus::Pass => Some(String::from_str("Sufficient memory lock limit for XDP")),
        CheckStatus::Warning => Some(
            String::from_str(
                "Memory lock limit may be insufficient for large XDP deployments. Consider increasing with 'ulimit -l'.",
            ),
        ),
        CheckStatus::Fail => Some(
            String::from_str(
                "Memory lock limit too low for XDP. Increase with 'ulimit -l unlimited' or edit /etc/security/limits.conf.",
            ),
        ),
        _ => None,
    };
    let r = CheckResult { name: String::from_str("Memory Lock Limit"), status, message, details };
    proof {
        assert(r@ == memlock_check(cur, max));
    }
    r
}

// ---------------------------------------------------------------------------
// CPU information
// ---------------------------------------------------------------------------

pub open spec fn cpu_count_check(cpu_count: u64) -> CheckView {
    CheckView {
        name: "CPU Cores"@,
        status: CheckStatus::Info,
        message: text::dec_digits(cpu_count as nat) + " CPU cores available"@,
        details: Some("More cores allow processing XDP on multiple queues"@),
    }
}

pub open spec fn governor_status(g: Seq<char>) -> CheckStatus {
    if g == "performance"@ {
        CheckStatus::Pass
    } else if g == "powersave"@ || g == "conservative"@ {
        CheckStatus::Warning
    } else {
        CheckStatus::Info
    }
}

pub open spec fn governor_check(g: Seq<char>) -> CheckView {
    CheckView {
        name: "CPU Governor"@,
        status: governor_status(g),
        message: "CPU frequency governor: "@ + g,
        details: if g == "performance"@ {
            Some("Optimal for XDP performance"@)
        } else if g == "powersave"@ || g == "conservative"@ {
            Some("Consider switching to 'performance' governor for better XDP throughput"@)
        } else {
            None
        },
    }
}

pub open spec fn isolated_check(trimmed: Seq<char>) -> CheckView {
    CheckView {
        name: "Isolated CPUs"@,
        status: CheckStatus::Pass,
        message: "Isolated CPUs: "@ + trimmed,
        details: Some("Isolated CPUs can be dedicated to XDP processing"@),
    }
}

/// The CPU records: the core count, the frequency governor where exposed,
/// and the isolated-CPU set where non-empty.
pub open spec fn cpu_checks(
    cpu_count: u64,
    governor: Option<Seq<char>>,
    isolated: Option<Seq<char>>,
) -> Seq<CheckView> {
    seq![cpu_count_check(cpu_count)] + (match governor {
        Some(g) => seq![governor_check(text::trim_spec(g))],
        None => Seq::<CheckView>::empty(),
    }) + (match isolated {
        Some(s) => if text::trim_spec(s).len() > 0 {
            seq![isolated_check(text::trim_spec(s))]
        } else {
            Seq::<CheckView>::empty()
        },
        None => Seq::<CheckView>::empty(),
    })
}

/// Reports CPU count, governor and isolated set.
pub fn check_cpu_info(
    cpu_count: u64,
    governor: &Option<String>,
    isolated: &Option<String>,
) -> (r: Vec<CheckResult>)
    ensures
        views(r@) == cpu_checks(cpu_count, opt_view(*governor), opt_view(*isolated)),
{
    let mut r: Vec<CheckResult> = Vec::new();
    let mut count_message = text::u64_to_string(cpu_count);
    count_message.append(" CPU cores available");
    r.push(CheckResult {
        name: String::from_str("CPU Cores"),
        status: CheckStatus::Info,
        message: count_message,
        details: Some(String::from_str("More cores allow processing XDP on multiple queues")),
    });
    match governor {
        Some(g) => {
            let gt = text::trim(g.as_str());
            let is_perf = text::str_eq(gt.as_str(), "performance");
            let is_save = text::str_eq(gt.as_str(), "powersave") || text::str_eq(
                gt.as_str(),
                "conservative",
            );
            let status = if is_perf {
                CheckStatus::Pass
            } else if is_save {
                CheckStatus::Warning
            } else {
                CheckStatus::Info
            };
            let mut message = String::from_str("CPU frequency governor: ");
            message.append(gt.as_str());
            let details: Option<String> = if is_perf {
                Some(String::from_str("Optimal for XDP performance"))
            } else if is_save {
                Some(
                    String::from_str(
                        "Consider switching to 'performance' governor for better XDP throughput",
                    ),
                )
            } else {
                None
            };
            r.push(CheckResult { name: String::from_str("CPU Governor"), status, message, details });
        },
        None => {},
    }
    match isolated {
        Some(s) => {
            let st = text::trim(s.as_str());
            if st.as_str().unicode_len() > 0 {
                let mut message = String::from_str("Isolated CPUs: ");
                message.append(st.as_str());
                r.push(CheckResult {
                    name: String::from_str("Isolated CPUs"),
                    status: CheckStatus::Pass,
                    message,
                    details: Some(
                        String::from_str("Isolated CPUs can be dedicated to XDP processing"),
                    ),
                });
            }
        },
        None => {},
    }
    proof {
        assert(views(r@) =~= cpu_checks(cpu_count, opt_view(*governor), opt_view(*isolated)));
    }
    r
}

// ---------------------------------------------------------------------------
// IRQ balancing
// ---------------------------------------------------------------------------

/// The IRQ-balancing check: a running daemon is informational (manual
/// affinity tuning is suggested), an absent one passes.
pub open spec fn irq_check(running: bool) -> CheckView {
    if running {
        CheckView {
            name: "IRQ Balance"@,
            status: CheckStatus::Info,
            message: "irqbalance service is running"@,
            details: Some(
                "Consider stopping irqbalance and manually setting IRQ affinity for XDP NICs"@,
            ),
        }
    } else {
        CheckView {
            name: "IRQ Balance"@,
            status: CheckStatus::Pass,
            message: "irqbalance is not running"@,
            details: Some(
                "Manual IRQ affinity configuration recommended for optimal XDP performance"@,
            ),
        }
    }
}

/// Reports whether an IRQ-balancing daemon is active.
pub fn check_irq_affinity(running: bool) -> (r: CheckResult)
    ensures
        r@ == irq_check(running),
{
    if running {
        CheckResult {
            name: String::from_str("IRQ Balance"),
            status: CheckStatus::Info,
            message: String::from_str("irqbalance service is running"),
            details: Some(
                String::from_str(
                    "Consider stopping irqbalance and manually setting IRQ affinity for XDP NICs",
                ),
            ),
        }
    } else {
        CheckResult {
            name: String::from_str("IRQ Balance"),
            status: CheckStatus::Pass,
            message: String::from_str("irqbalance is not running"),
            details: Some(
                String::from_str(
                    "Manual IRQ affinity configuration recommended for optimal XDP performance",
                ),
            ),
        }
    }
}

// ---------------------------------------------------------------------------
// Load average
// ---------------------------------------------------------------------------

/// The load token in hundredths: an integer or a fixed-point field `A.B`
/// read to two fractional places, saturating at the `u64` maximum; zero for
/// anything else, the way a parse-or-default reads it.
pub open spec fn load_centi_spec(token: Seq<char>) -> u64 {
    let f = text::dot_fields(token);
    if f.len() == 1 && text::is_digit_run(f[0]) {
        sat_mul100(text::digits_val(f[0]))
    } else if f.len() == 2 && text::is_digit_run(f[0]) && text::is_digit_run(f[1]) {
        sat_add(sat_mul100(text::digits_val(f[0])), frac_centi(f[1]))
    } else {
        0
    }
}

pub open spec fn sat_mul100(v: nat) -> u64 {
    if v * 100 <= u64::MAX {
        (v * 100) as u64
    } else {
        u64::MAX
    }
}

pub open spec fn sat_add(a: u64, b: u64) -> u64 {
    if a + b <= u64::MAX {
        (a + b) as u64
    } else {
        u64::MAX
    }
}

/// The first two fractional digits as hundredths.
pub open spec fn frac_centi(b: Seq<char>) -> u64
    recommends
        text::is_digit_run(b),
{
    if b.len() >= 2 {
        (text::digit_val(b[0]) * 10 + text::digit_val(b[1])) as u64
    } else if b.len() == 1 {
        (text::digit_val(b[0]) * 10) as u64
    } else {
        0
    }
}

/// Reads the load token in hundredths.
pub fn parse_load_centi(token: &str) -> (r: u64)
    ensures
        r == load_centi_spec(token@),
{
    let fields = text::split_dot(token);
    if fields.len() == 1 {
        match text::parse_digit_run_sat(fields[0].as_str()) {
            Some(v) => {
                proof {
                    assert(fields.deep_view()[0] == text::dot_fields(token@)[0]);
                }
                match v.checked_mul(100) {
                    Some(c) => c,
                    None => u64::MAX,
                }
            },
            None => 0,
        }
    } else if fields.len() == 2 {
        let int_part = text::parse_digit_run_sat(fields[0].as_str());
        let frac_part = text::parse_digit_run_sat(fields[1].as_str());
        proof {
            assert(fields.deep_view()[0] == text::dot_fields(token@)[0]);
            assert(fields.deep_view()[1] == text::dot_fields(token@)[1]);
        }
        match (int_part, frac_part) {
            (Some(v), Some(_)) => {
                let whole: u64 = match v.checked_mul(100) {
                    Some(c) => c,
                    None => u64::MAX,
                };
                let frac_field = &fields[1];
                let n = frac_field.as_str().unicode_len();
                let d0 = match text::digit_value(frac_field.as_str().get_char(0)) {
                    Some(d) => d,
                    None => 0,
                };
                let frac: u64 = if n >= 2 {
                    let d1 = match text::digit_value(frac_field.as_str().get_char(1)) {
                        Some(d) => d,
                        None => 0,
                    };
                    d0 * 10 + d1
                } else {
                    d0 * 10
                };
                proof {
                    assert(frac == frac_centi(text::dot_fields(token@)[1]));
                }
                match whole.checked_add(frac) {
                    Some(c) => c,
                    None => u64::MAX,
                }
            },
            _ => 0,
        }
    } else {
        0
    }
}

/// The load classification: below 0.7 of the core count passes; everything
/// above is the same Warning tier, with no failing tier.
pub open spec fn classify_load_spec(load_centi: u64, cpu_count: u64) -> CheckStatus {
    if load_centi < 70 * cpu_count {
        CheckStatus::Pass
    } else {
        CheckStatus::Warning
    }
}

/// The load check over the raw load-average text: fewer than three fields
/// warns, otherwise the first field is read in hundredths and classified.
/// The message echoes the field as read.
pub open spec fn load_check(loadavg: Seq<char>, cpu_count: u64) -> CheckView {
    let parts = text::split_ws_spec(loadavg);
    if parts.len() < 3 {
        CheckView {
            name: "System Load"@,
            status: CheckStatus::Warning,
            message: "Unable to determine system load"@,
            details: None,
        }
    } else {
        let centi = load_centi_spec(parts[0]);
        let st = classify_load_spec(centi, cpu_count);
        CheckView {
            name: "System Load"@,
            status: st,
            message: "Load average: "@ + parts[0] + " ("@ + text::dec_digits(
                (centi / cpu_count) as nat,
            ) + "% of "@ + text::dec_digits(cpu_count as nat) + " cores)"@,
            details: match st {
                CheckStatus::Pass => Some("System has capacity for XDP processing"@),
                _ => Some("System is under load. XDP performance may be affected."@),
            },
        }
    }
}

/// Reports the one-minute load relative to the core count.
pub fn check_system_load(loadavg: &str, cpu_count: u64) -> (r: CheckResult)
    requires
        cpu_count >= 1,
    ensures
        r@ == load_check(loadavg@, cpu_count),
{
    let parts = text::split_ws(loadavg);
    if parts.len() < 3 {
        return CheckResult {
            name: String::from_str("System Load"),
            status: CheckStatus::Warning,
            message: String::from_str("Unable to determine system load"),
            details: None,
        };
    }
    proof {
        assert(parts.deep_view()[0] == text::split_ws_spec(loadavg@)[0]);
    }
    let centi = parse_load_centi(parts[0].as_str());
    let threshold: Option<u64> = 70u64.checked_mul(cpu_count);
    let status = match threshold {
        Some(t) => if centi < t {
            CheckStatus::Pass
        } else {
            CheckStatus::Warning
        },
        None => CheckStatus::Pass,
    };
    let percent = centi / cpu_count;
    let mut message = String::from_str("Load average: ");
    message.append(parts[0].as_str());
    message.append(" (");
    let p = text::u64_to_string(percent);
    message.append(p.as_str());
    message.append("% of ");
    let c = text::u64_to_string(cpu_count);
    message.append(c.as_str());
    message.append(" cores)");
    let details: Option<String> = match status {
        CheckStatus::Pass => Some(String::from_str("System has capacity for XDP processing")),
        _ => Some(String::from_str("System is under load. XDP performance may be affected.")),
    };
    let r = CheckResult { name: String::from_str("System Load"), status, message, details };
    proof {
        assert(r@ == load_check(loadavg@, cpu_count));
    }
    r
}

// ---------------------------------------------------------------------------
// The whole resource probe
// ---------------------------------------------------------------------------

/// The full sequence the resource probe emits for a host snapshot.
pub open spec fn system_checks(h: &SystemHost) -> Seq<CheckView>
    recommends
        h.memlock is Some,
        h.loadavg is Some,
{
    let memlock = match h.memlock {
        Some(p) => p,
        None => (0u64, 0u64),
    };
    let loadavg = match h.loadavg {
        Some(l) => l@,
        None => Seq::empty(),
    };
    seq![
        huge_pages_check(opt_view(h.hugepages_2mb), opt_view(h.hugepages_1gb)),
        memlock_check(memlock.0, memlock.1),
    ] + cpu_checks(h.cpu_count, opt_view(h.governor), opt_view(h.isolated)) + seq![
        irq_check(h.irqbalance_running),
        load_check(loadavg, h.cpu_count),
    ]
}

/// Runs the whole resource probe on a host snapshot. An unreadable resource
/// limit or load table is the fatal tier; everything else is absorbed.
pub fn check_system_resources(host: &SystemHost) -> (r: Result<Vec<CheckResult>, ProbeError>)
    requires
        host.cpu_count >= 1,
    ensures
        match r {
            Ok(v) => host.memlock is Some && host.loadavg is Some && views(v@) == system_checks(
                host,
            ),
            Err(e) => (host.memlock is None && e == ProbeError::ResourceLimit) || (
            host.memlock is Some && host.loadavg is None && e == ProbeError::LoadAverage),
        },
{
    let (cur, max) = match host.memlock {
        Some(p) => p,
        None => {
            return Err(ProbeError::ResourceLimit);
        },
    };
    let loadavg = match &host.loadavg {
        Some(l) => l,
        None => {
            return Err(ProbeError::LoadAverage);
        },
    };
    let mut results: Vec<CheckResult> = Vec::new();
    results.push(check_huge_pages(&host.hugepages_2mb, &host.hugepages_1gb));
    results.push(memlock_result(cur, max));
    let mut cpu = check_cpu_info(host.cpu_count, &host.governor, &host.isolated);
    let ghost cpu_views = views(cpu@);
    results.append(&mut cpu);
    results.push(check_irq_affinity(host.irqbalance_running));
    results.push(check_system_load(loadavg.as_str(), host.cpu_count));
    proof {
        assert(views(results@) =~= system_checks(host));
    }
    Ok(results)
}


/// Reads and classifies the running process's locked-memory limit: whatever
/// pair the host reported, the result is the pure classification of it. A
/// failed read is the fatal tier.
pub fn check_memlock_limit() -> (r: Result<CheckResult, ProbeError>)
    ensures
        match r {
            Ok(c) => exists|cur: u64, max: u64| c@ == #[trigger] memlock_check(cur, max),
            Err(e) => e == ProbeError::ResourceLimit,
        },
{
    match crate::host::memlock_limit() {
        Some(pair) => {
            let c = memlock_result(pair.0, pair.1);
            proof {
                assert(c@ == memlock_check(pair.0, pair.1));
            }
            Ok(c)
        },
        None => Err(ProbeError::ResourceLimit),
    }
}

} // verus!
