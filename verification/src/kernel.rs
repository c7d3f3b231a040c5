//! The kernel probe: release-version classification, build-configuration
//! flags, the type-information artifact, and the diagnostic module list.

use vstd::prelude::*;
use vstd::string::StringSliceAdditionalSpecFns;
use vstd::utf8::encode_utf8;

use crate::status::{views, CheckResult, CheckStatus, CheckView, ProbeError};
use crate::text;

verus! {

/// Below this version the technology does not work at all.
pub const MIN_KERNEL_MAJOR: u32 = 4;

pub const MIN_KERNEL_MINOR: u32 = 18;

/// Below this version it works but older kernels are best avoided.
pub const RECOMMENDED_KERNEL_MAJOR: u32 = 6;

pub const RECOMMENDED_KERNEL_MINOR: u32 = 10;

/// `(major, minor)` is at or above the threshold `(tmaj, tmin)`.
pub open spec fn version_at_least(major: u32, minor: u32, tmaj: u32, tmin: u32) -> bool {
    major > tmaj || (major == tmaj && minor >= tmin)
}

/// The three-way version classification: below minimum fails, at or above
/// the recommended pair passes, in between warns.
pub open spec fn classify_version_spec(major: u32, minor: u32) -> CheckStatus {
    if version_at_least(major, minor, MIN_KERNEL_MAJOR, MIN_KERNEL_MINOR) {
        if version_at_least(major, minor, RECOMMENDED_KERNEL_MAJOR, RECOMMENDED_KERNEL_MINOR) {
            CheckStatus::Pass
        } else {
            CheckStatus::Warning
        }
    } else {
        CheckStatus::Fail
    }
}

/// Classifies a parsed kernel version pair.
pub fn classify_version(major: u32, minor: u32) -> (r: CheckStatus)
    ensures
        r == classify_version_spec(major, minor),
{
    if major > MIN_KERNEL_MAJOR || (major == MIN_KERNEL_MAJOR && minor >= MIN_KERNEL_MINOR) {
        if major > RECOMMENDED_KERNEL_MAJOR || (major == RECOMMENDED_KERNEL_MAJOR && minor
            >= RECOMMENDED_KERNEL_MINOR) {
            CheckStatus::Pass
        } else {
            CheckStatus::Warning
        }
    } else {
        CheckStatus::Fail
    }
}

/// Raising either version number never downgrades the classification: a
/// passing version still passes, a warning version passes or warns.
pub proof fn lemma_classification_monotonic(
    a_major: u32,
    a_minor: u32,
    b_major: u32,
    b_minor: u32,
)
    requires
        a_major <= b_major,
        a_minor <= b_minor,
    ensures
        classify_version_spec(a_major, a_minor) is Pass ==> classify_version_spec(
            b_major,
            b_minor,
        ) is Pass,
        classify_version_spec(a_major, a_minor) is Warning ==> !(classify_version_spec(
            b_major,
            b_minor,
        ) is Fail),
{
}

// ---------------------------------------------------------------------------
// Release parsing
// ---------------------------------------------------------------------------

/// The release string parses as a major.minor version pair: it splits into
/// at least two fields at `'.'` and `'-'`, and the first two fields are
/// decimal numerals. Anything else is an unparsable release and yields an
/// Error record, never a fabricated classification.
pub open spec fn release_parses(release: Seq<char>) -> bool {
    let f = text::release_fields(release);
    f.len() >= 2 && text::is_u32_numeral(f[0]) && text::is_u32_numeral(f[1])
}

/// The major number of a release that parses.
pub open spec fn release_major(release: Seq<char>) -> u32
    recommends
        release_parses(release),
{
    text::parse_u32_or_zero_spec(text::release_fields(release)[0])
}

/// The minor number of a release that parses.
pub open spec fn release_minor(release: Seq<char>) -> u32
    recommends
        release_parses(release),
{
    text::parse_u32_or_zero_spec(text::release_fields(release)[1])
}

/// The kernel is at or above the 5.8 capability boundary; the privilege
/// probe keys its required set on this. Deliberately, a missing or
/// non-numeric field reads as zero here: the privilege probe has no error
/// tier for an unparsable release, so such a release selects the older
/// kernels' capability set, the conservative choice.
pub open spec fn release_is_5_8_plus(release: Seq<char>) -> bool {
    let f = text::release_fields(release);
    let major = text::parse_u32_or_zero_spec(f[0]);
    let minor: u32 = if f.len() > 1 {
        text::parse_u32_or_zero_spec(f[1])
    } else {
        0
    };
    major > 5 || (major == 5 && minor >= 8)
}

/// Tests the 5.8 capability boundary on a release string.
pub fn release_5_8_plus(release: &str) -> (r: bool)
    ensures
        r == release_is_5_8_plus(release@),
{
    let parts = text::split_release(release);
    proof {
        assert(parts.deep_view()[0] == text::release_fields(release@)[0]);
    }
    let major = text::parse_u32_or_zero(parts[0].as_str());
    let minor: u32 = if parts.len() > 1 {
        proof {
            assert(parts.deep_view()[1] == text::release_fields(release@)[1]);
        }
        text::parse_u32_or_zero(parts[1].as_str())
    } else {
        0
    };
    major > 5 || (major == 5 && minor >= 8)
}

pub open spec fn version_message(release: Seq<char>, major: u32, minor: u32) -> Seq<char> {
    "Kernel version: "@ + release + " ("@ + text::dec_digits(major as nat) + "."@
        + text::dec_digits(minor as nat) + ")"@
}

pub open spec fn version_details(st: CheckStatus, major: u32, minor: u32) -> Option<Seq<char>> {
    match st {
        CheckStatus::Pass => Some(
            "Kernel "@ + text::dec_digits(major as nat) + "."@ + text::dec_digits(minor as nat)
                + " meets recommended version "@ + text::dec_digits(
                RECOMMENDED_KERNEL_MAJOR as nat,
            ) + "."@ + text::dec_digits(RECOMMENDED_KERNEL_MINOR as nat)
                + " for stable AF_XDP support"@,
        ),
        CheckStatus::Warning => Some(
            "Kernel "@ + text::dec_digits(major as nat) + "."@ + text::dec_digits(minor as nat)
                + " supports AF_XDP but "@ + text::dec_digits(RECOMMENDED_KERNEL_MAJOR as nat)
                + "."@ + text::dec_digits(RECOMMENDED_KERNEL_MINOR as nat)
                + "+ is recommended for better stability"@,
        ),
        CheckStatus::Fail => Some(
            "Kernel "@ + text::dec_digits(major as nat) + "."@ + text::dec_digits(minor as nat)
                + " is too old. Minimum required: "@ + text::dec_digits(MIN_KERNEL_MAJOR as nat)
                + "."@ + text::dec_digits(MIN_KERNEL_MINOR as nat),
        ),
        _ => None,
    }
}

/// The whole version check: an error record for an unparsable release,
/// otherwise the classification with its message and details.
pub open spec fn kernel_version_check(release: Seq<char>) -> CheckView {
    if !release_parses(release) {
        CheckView {
            name: "Kernel Version"@,
            status: CheckStatus::Error,
            message: "Unable to parse kernel version: "@ + release,
            details: None,
        }
    } else {
        let major = release_major(release);
        let minor = release_minor(release);
        let st = classify_version_spec(major, minor);
        CheckView {
            name: "Kernel Version"@,
            status: st,
            message: version_message(release, major, minor),
            details: version_details(st, major, minor),
        }
    }
}

/// Appends `major.minor` in decimal to `s`.
fn append_version_pair(s: &mut String, major: u32, minor: u32)
    ensures
        final(s)@ == old(s)@ + text::dec_digits(major as nat) + "."@ + text::dec_digits(
            minor as nat,
        ),
{
    let mj = text::u64_to_string(major as u64);
    s.append(mj.as_str());
    s.append(".");
    let mn = text::u64_to_string(minor as u64);
    s.append(mn.as_str());
}

/// Parses and classifies one kernel release string.
pub fn check_kernel_version(release: &str) -> (r: CheckResult)
    ensures
        r@ == kernel_version_check(release@),
{
    let parts = text::split_release(release);
    let parsed = if parts.len() < 2 {
        false
    } else {
        proof {
            assert(parts.deep_view()[0] == text::release_fields(release@)[0]);
            assert(parts.deep_view()[1] == text::release_fields(release@)[1]);
        }
        text::is_u32_numeral_exec(parts[0].as_str()) && text::is_u32_numeral_exec(
            parts[1].as_str(),
        )
    };
    if !parsed {
        let mut message = String::from_str("Unable to parse kernel version: ");
        message.append(release);
        let r = CheckResult {
            name: String::from_str("Kernel Version"),
            status: CheckStatus::Error,
            message,
            details: None,
        };
        proof {
            assert(r@ == kernel_version_check(release@));
        }
        return r;
    }
    let major = text::parse_u32_or_zero(parts[0].as_str());
    let minor = text::parse_u32_or_zero(parts[1].as_str());
    proof {
        assert(parts.deep_view()[0] == text::release_fields(release@)[0]);
        assert(parts.deep_view()[1] == text::release_fields(release@)[1]);
    }
    let status = classify_version(major, minor);
    let mut message = String::from_str("Kernel version: ");
    message.append(release);
    message.append(" (");
    append_version_pair(&mut message, major, minor);
    message.append(")");
    let details: Option<String> = match status {
        CheckStatus::Pass => {
            let mut d = String::from_str("Kernel ");
            append_version_pair(&mut d, major, minor);
            d.append(" meets recommended version ");
            append_version_pair(&mut d, RECOMMENDED_KERNEL_MAJOR, RECOMMENDED_KERNEL_MINOR);
            d.append(" for stable AF_XDP support");
            Some(d)
        },
        CheckStatus::Warning => {
            let mut d = String::from_str("Kernel ");
            append_version_pair(&mut d, major, minor);
            d.append(" supports AF_XDP but ");
            append_version_pair(&mut d, RECOMMENDED_KERNEL_MAJOR, RECOMMENDED_KERNEL_MINOR);
            d.append("+ is recommended for better stability");
            Some(d)
        },
        CheckStatus::Fail => {
            let mut d = String::from_str("Kernel ");
            append_version_pair(&mut d, major, minor);
            d.append(" is too old. Minimum required: ");
            append_version_pair(&mut d, MIN_KERNEL_MAJOR, MIN_KERNEL_MINOR);
            Some(d)
        },
        _ => None,
    };
    let r = CheckResult { name: String::from_str("Kernel Version"), status, message, details };
    proof {
        assert(r@.message == version_message(release@, major, minor));
        assert(r@.details == version_details(status, major, minor));
        assert(r@ == kernel_version_check(release@));
    }
    r
}

// ---------------------------------------------------------------------------
// Build-configuration flags
// ---------------------------------------------------------------------------

/// A kernel build-configuration source: where it was found and its text.
#[derive(Debug, Clone)]
pub struct KernelConfig {
    pub path: String,
    pub content: String,
}

impl View for KernelConfig {
    type V = (Seq<char>, Seq<char>);

    open spec fn view(&self) -> (Seq<char>, Seq<char>) {
        (self.path@, self.content@)
    }
}

/// The flag is enabled: assigned `y` (built in) or `m` (module) in the
/// configuration text.
pub open spec fn flag_enabled(content: Seq<char>, option: Seq<char>) -> bool {
    text::contains_seq(encode_utf8(content), encode_utf8(option + "=y"@)) || text::contains_seq(
        encode_utf8(content),
        encode_utf8(option + "=m"@),
    )
}

/// One configuration-flag check: required flags fail when absent, optional
/// ones only warn.
pub open spec fn config_flag_check(
    path: Seq<char>,
    content: Seq<char>,
    option: Seq<char>,
    description: Seq<char>,
    required: bool,
) -> CheckView {
    let enabled = flag_enabled(content, option);
    CheckView {
        name: option,
        status: if enabled {
            CheckStatus::Pass
        } else if required {
            CheckStatus::Fail
        } else {
            CheckStatus::Warning
        },
        message: description,
        details: Some(
            if enabled {
                "Enabled in "@ + path
            } else if required {
                "Not found or disabled in "@ + path + ". Required for XDP."@
            } else {
                "Not enabled in "@ + path + ". Recommended for better XDP support."@
            },
        ),
    }
}

/// The one Warning emitted when no configuration source could be found.
pub open spec fn config_missing_check() -> CheckView {
    CheckView {
        name: "Kernel Config"@,
        status: CheckStatus::Warning,
        message: "Unable to find kernel configuration file"@,
        details: Some("Cannot verify XDP-related kernel options. They might still be enabled."@),
    }
}

/// All configuration-flag checks: four required flags and two recommended
/// ones, or the single Warning where no source was found.
pub open spec fn kernel_config_checks(config: Option<(Seq<char>, Seq<char>)>) -> Seq<CheckView> {
    match config {
        None => seq![config_missing_check()],
        Some((path, content)) => seq![
            config_flag_check(path, content, "CONFIG_XDP_SOCKETS"@, "AF_XDP socket support"@, true),
            config_flag_check(path, content, "CONFIG_BPF"@, "BPF subsystem"@, true),
            config_flag_check(path, content, "CONFIG_BPF_SYSCALL"@, "BPF system call"@, true),
            config_flag_check(path, content, "CONFIG_NET"@, "Networking support"@, true),
            config_flag_check(
                path,
                content,
                "CONFIG_DEBUG_INFO_BTF"@,
                "BTF type information"@,
                false,
            ),
            config_flag_check(
                path,
                content,
                "CONFIG_NETLINK"@,
                "Netlink support for routing"@,
                false,
            ),
        ],
    }
}

/// Tests one flag in the configuration text and builds its record.
fn flag_check(
    path: &str,
    content: &str,
    option: &str,
    description: &str,
    required: bool,
) -> (r: CheckResult)
    ensures
        r@ == config_flag_check(path@, content@, option@, description@, required),
{
    let mut needle_y = String::from_str(option);
    needle_y.append("=y");
    let mut needle_m = String::from_str(option);
    needle_m.append("=m");
    let enabled = text::str_contains(content, needle_y.as_str()) || text::str_contains(
        content,
        needle_m.as_str(),
    );
    let status = if enabled {
        CheckStatus::Pass
    } else if required {
        CheckStatus::Fail
    } else {
        CheckStatus::Warning
    };
    let details = if enabled {
        let mut d = String::from_str("Enabled in ");
        d.append(path);
        Some(d)
    } else if required {
        let mut d = String::from_str("Not found or disabled in ");
        d.append(path);
        d.append(". Required for XDP.");
        Some(d)
    } else {
        let mut d = String::from_str("Not enabled in ");
        d.append(path);
        d.append(". Recommended for better XDP support.");
        Some(d)
    };
    let r = CheckResult {
        name: String::from_str(option),
        status,
        message: String::from_str(description),
        details,
    };
    proof {
        assert(r@ == config_flag_check(path@, content@, option@, description@, required));
    }
    r
}

/// Checks the required and recommended configuration flags; a missing
/// configuration source degrades to one Warning, never a failure.
pub fn check_kernel_config(config: &Option<KernelConfig>) -> (r: Vec<CheckResult>)
    ensures
        views(r@) == kernel_config_checks(
            match config {
                Some(c) => Some(c@),
                None => None,
            },
        ),
{
    let mut r: Vec<CheckResult> = Vec::new();
    match config {
        None => {
            r.push(CheckResult {
                name: String::from_str("Kernel Config"),
                status: CheckStatus::Warning,
                message: String::from_str("Unable to find kernel configuration file"),
                details: Some(
                    String::from_str(
                        "Cannot verify XDP-related kernel options. They might still be enabled.",
                    ),
                ),
            });
            proof {
                assert(views(r@) =~= seq![config_missing_check()]);
            }
        },
        Some(c) => {
            let path = c.path.as_str();
            let content = c.content.as_str();
            r.push(flag_check(path, content, "CONFIG_XDP_SOCKETS", "AF_XDP socket support", true));
            r.push(flag_check(path, content, "CONFIG_BPF", "BPF subsystem", true));
            r.push(flag_check(path, content, "CONFIG_BPF_SYSCALL", "BPF system call", true));
            r.push(flag_check(path, content, "CONFIG_NET", "Networking support", true));
            r.push(
                flag_check(path, content, "CONFIG_DEBUG_INFO_BTF", "BTF type information", false),
            );
            r.push(
                flag_check(path, content, "CONFIG_NETLINK", "Netlink support for routing", false),
            );
            proof {
                assert(views(r@) =~= kernel_config_checks(Some(c@)));
            }
        },
    }
    r
}

// ---------------------------------------------------------------------------
// Type-information artifact and module list
// ---------------------------------------------------------------------------

/// The check for the kernel type-information artifact: present passes,
/// absent only warns.
pub open spec fn btf_check(present: bool) -> CheckView {
    if present {
        CheckView {
            name: "BTF Support"@,
            status: CheckStatus::Pass,
            message: "BTF type information available"@,
            details: Some("Found at /sys/kernel/btf/vmlinux"@),
        }
    } else {
        CheckView {
            name: "BTF Support"@,
            status: CheckStatus::Warning,
            message: "BTF type information not found"@,
            details: Some(
                "BTF improves eBPF program compatibility but is not strictly required"@,
            ),
        }
    }
}

/// Reports whether the kernel type-information artifact is present.
pub fn check_btf_support(present: bool) -> (r: CheckResult)
    ensures
        r@ == btf_check(present),
{
    if present {
        CheckResult {
            name: String::from_str("BTF Support"),
            status: CheckStatus::Pass,
            message: String::from_str("BTF type information available"),
            details: Some(String::from_str("Found at /sys/kernel/btf/vmlinux")),
        }
    } else {
        CheckResult {
            name: String::from_str("BTF Support"),
            status: CheckStatus::Warning,
            message: String::from_str("BTF type information not found"),
            details: Some(
                String::from_str(
                    "BTF improves eBPF program compatibility but is not strictly required",
                ),
            ),
        }
    }
}

/// The diagnostic-module check over the module-list text: loaded passes,
/// not loaded is informational only.
pub open spec fn modules_check(modules: Seq<char>) -> CheckView {
    let loaded = text::contains_seq(encode_utf8(modules), encode_utf8("xsk"@));
    CheckView {
        name: "XSK Module"@,
        status: if loaded {
            CheckStatus::Pass
        } else {
            CheckStatus::Info
        },
        message: if loaded {
            "XSK diagnostic module loaded"@
        } else {
            "XSK diagnostic module not loaded"@
        },
        details: Some(
            if loaded {
                "Module is loaded for AF_XDP socket diagnostics"@
            } else {
                "Optional module for AF_XDP diagnostics. Core functionality still works."@
            },
        ),
    }
}

/// Looks for the XSK diagnostic module in the module-list text.
pub fn check_kernel_modules(modules: &str) -> (r: Vec<CheckResult>)
    ensures
        views(r@) == seq![modules_check(modules@)],
{
    let loaded = text::str_contains(modules, "xsk");
    let mut r: Vec<CheckResult> = Vec::new();
    r.push(
        CheckResult {
            name: String::from_str("XSK Module"),
            status: if loaded {
                CheckStatus::Pass
            } else {
                CheckStatus::Info
            },
            message: if loaded {
                String::from_str("XSK diagnostic module loaded")
            } else {
                String::from_str("XSK diagnostic module not loaded")
            },
            details: Some(
                if loaded {
                    String::from_str("Module is loaded for AF_XDP socket diagnostics")
                } else {
                    String::from_str(
                        "Optional module for AF_XDP diagnostics. Core functionality still works.",
                    )
                },
            ),
        },
    );
    proof {
        assert(views(r@) =~= seq![modules_check(modules@)]);
    }
    r
}

// ---------------------------------------------------------------------------
// The whole kernel probe
// ---------------------------------------------------------------------------

/// Everything the kernel probe reads from the host, gathered before the
/// probe runs: the release string, an optional configuration source, the
/// presence of the type-information artifact, and the module-list text.
/// `None` in `release` or `modules` records that a mandatory read failed.
#[derive(Debug)]
pub struct KernelHost {
    pub release: Option<String>,
    pub config: Option<KernelConfig>,
    pub btf_present: bool,
    pub modules: Option<String>,
}

impl KernelHost {
    pub open spec fn spec_release(&self) -> Seq<char>
        recommends
            self.release is Some,
    {
        match self.release {
            Some(r) => r@,
            None => Seq::empty(),
        }
    }

    pub open spec fn spec_config(&self) -> Option<(Seq<char>, Seq<char>)> {
        match self.config {
            Some(c) => Some(c@),
            None => None,
        }
    }

    pub open spec fn spec_modules(&self) -> Seq<char>
        recommends
            self.modules is Some,
    {
        match self.modules {
            Some(m) => m@,
            None => Seq::empty(),
        }
    }
}

/// The full sequence the kernel probe emits for a host snapshot.
pub open spec fn kernel_checks(h: &KernelHost) -> Seq<CheckView> {
    seq![kernel_version_check(h.spec_release())] + kernel_config_checks(h.spec_config()) + seq![
        btf_check(h.btf_present),
        modules_check(h.spec_modules()),
    ]
}

/// Runs the whole kernel probe on a host snapshot: the version check, the
/// configuration flags, the type-information artifact and the module list.
/// A missing release string or module list is the fatal tier; everything
/// else is absorbed into results.
pub fn check_kernel_compatibility(host: &KernelHost) -> (r: Result<Vec<CheckResult>, ProbeError>)
    ensures
        match r {
            Ok(v) => host.release is Some && host.modules is Some && views(v@) == kernel_checks(
                host,
            ),
            Err(e) => (host.release is None && e == ProbeError::KernelIdentity) || (
            host.release is Some && host.modules is None && e == ProbeError::Modules),
        },
{
    let release = match &host.release {
        Some(r) => r,
        None => {
            return Err(ProbeError::KernelIdentity);
        },
    };
    let modules = match &host.modules {
        Some(m) => m,
        None => {
            return Err(ProbeError::Modules);
        },
    };
    let mut results: Vec<CheckResult> = Vec::new();
    let version_result = check_kernel_version(release.as_str());
    let ghost version_view = version_result@;
    results.push(version_result);
    let mut config_results = check_kernel_config(&host.config);
    let ghost cfg = config_results@;
    results.append(&mut config_results);
    let btf_result = check_btf_support(host.btf_present);
    let ghost btf_view = btf_result@;
    results.push(btf_result);
    let mut module_results = check_kernel_modules(modules.as_str());
    let ghost mods = module_results@;
    results.append(&mut module_results);
    proof {
        assert(views(cfg) == kernel_config_checks(host.spec_config()));
        assert(views(mods) == seq![modules_check(host.spec_modules())]);
        assert(views(results@) =~= seq![version_view] + views(cfg) + seq![btf_view] + views(
            mods,
        ));
        assert(seq![version_view] + views(cfg) + seq![btf_view] + views(mods)
            =~= kernel_checks(host));
    }
    Ok(results)
}


/// Runs the version-only kernel check against the running kernel: whatever
/// release string the host reported, the result is the pure version check
/// of that string.
pub fn quick_kernel_check() -> (r: Result<Vec<CheckResult>, ProbeError>)
    ensures
        match r {
            Ok(v) => exists|release: Seq<char>|
                views(v@) == seq![#[trigger] kernel_version_check(release)],
            Err(e) => e == ProbeError::KernelIdentity,
        },
{
    match crate::host::kernel_release() {
        Some(release) => {
            let one = check_kernel_version(release.as_str());
            let mut v: Vec<CheckResult> = Vec::new();
            v.push(one);
            proof {
                assert(views(v@) =~= seq![kernel_version_check(release@)]);
            }
            Ok(v)
        },
        None => Err(ProbeError::KernelIdentity),
    }
}

} // verus!
