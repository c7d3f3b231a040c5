//! The privilege probe: effective identity, the per-era required capability
//! set, per-capability classification, and the permitted-but-not-effective
//! aggregate.

use vstd::prelude::*;

use crate::status::{views, CheckResult, CheckStatus, CheckView, ProbeError};
use crate::text;

verus! {

/// The process capabilities the probe reasons about.
#[derive(Debug, Clone, Copy, PartialEq, Eq, Structural)]
pub enum CapKind {
    /// Raw packet I/O.
    NetRaw,
    /// Network administration.
    NetAdmin,
    /// BPF operations, split out of system administration in the 5.8 era.
    Bpf,
    /// Performance monitoring, split out likewise.
    Perfmon,
    /// The broad administrative capability older kernels require instead.
    SysAdmin,
}

impl CapKind {
    pub open spec fn spec_label(self) -> Seq<char> {
        match self {
            CapKind::NetRaw => "CAP_NET_RAW"@,
            CapKind::NetAdmin => "CAP_NET_ADMIN"@,
            CapKind::Bpf => "CAP_BPF"@,
            CapKind::Perfmon => "CAP_PERFMON"@,
            CapKind::SysAdmin => "CAP_SYS_ADMIN"@,
        }
    }

    /// The capability's name, as the kernel spells it.
    pub fn label(&self) -> (r: String)
        ensures
            r@ == self.spec_label(),
    {
        match self {
            CapKind::NetRaw => String::from_str("CAP_NET_RAW"),
            CapKind::NetAdmin => String::from_str("CAP_NET_ADMIN"),
            CapKind::Bpf => String::from_str("CAP_BPF"),
            CapKind::Perfmon => String::from_str("CAP_PERFMON"),
            CapKind::SysAdmin => String::from_str("CAP_SYS_ADMIN"),
        }
    }

    pub open spec fn spec_token(self) -> Seq<char> {
        match self {
            CapKind::NetRaw => "net_raw"@,
            CapKind::NetAdmin => "net_admin"@,
            CapKind::Bpf => "bpf"@,
            CapKind::Perfmon => "perfmon"@,
            CapKind::SysAdmin => "sys_admin"@,
        }
    }

    /// The lower-case name without its prefix, as a grant command writes it.
    pub fn token(&self) -> (r: &'static str)
        ensures
            r@ == self.spec_token(),
    {
        match self {
            CapKind::NetRaw => "net_raw",
            CapKind::NetAdmin => "net_admin",
            CapKind::Bpf => "bpf",
            CapKind::Perfmon => "perfmon",
            CapKind::SysAdmin => "sys_admin",
        }
    }

    pub open spec fn spec_description(self) -> Seq<char> {
        match self {
            CapKind::NetRaw => "Raw socket operations"@,
            CapKind::NetAdmin => "Network administration"@,
            CapKind::Bpf => "BPF operations"@,
            CapKind::Perfmon => "Performance monitoring"@,
            CapKind::SysAdmin => "System administration (for BPF on older kernels)"@,
        }
    }

    /// Why the capability is required.
    pub fn description(&self) -> (r: &'static str)
        ensures
            r@ == self.spec_description(),
    {
        match self {
            CapKind::NetRaw => "Raw socket operations",
            CapKind::NetAdmin => "Network administration",
            CapKind::Bpf => "BPF operations",
            CapKind::Perfmon => "Performance monitoring",
            CapKind::SysAdmin => "System administration (for BPF on older kernels)",
        }
    }
}

/// Which of the probe's capabilities a capability set holds.
#[derive(Debug, Clone, Copy, PartialEq, Eq, Structural)]
pub struct CapFlags {
    pub net_raw: bool,
    pub net_admin: bool,
    pub bpf: bool,
    pub perfmon: bool,
    pub sys_admin: bool,
}

impl CapFlags {
    pub open spec fn has(self, c: CapKind) -> bool {
        match c {
            CapKind::NetRaw => self.net_raw,
            CapKind::NetAdmin => self.net_admin,
            CapKind::Bpf => self.bpf,
            CapKind::Perfmon => self.perfmon,
            CapKind::SysAdmin => self.sys_admin,
        }
    }

    pub fn contains(&self, c: &CapKind) -> (r: bool)
        ensures
            r == self.has(*c),
    {
        match c {
            CapKind::NetRaw => self.net_raw,
            CapKind::NetAdmin => self.net_admin,
            CapKind::Bpf => self.bpf,
            CapKind::Perfmon => self.perfmon,
            CapKind::SysAdmin => self.sys_admin,
        }
    }
}

/// The capability set the kernel era requires: kernels at or above 5.8 use
/// the BPF-specific pair, older ones the broad administrative capability,
/// each in addition to raw packet I/O and network administration.
pub open spec fn required_caps(kernel_5_8_plus: bool) -> Seq<CapKind> {
    if kernel_5_8_plus {
        seq![CapKind::NetRaw, CapKind::NetAdmin, CapKind::Bpf, CapKind::Perfmon]
    } else {
        seq![CapKind::NetRaw, CapKind::NetAdmin, CapKind::SysAdmin]
    }
}

/// Builds the required capability list for a kernel era.
pub fn required_caps_vec(kernel_5_8_plus: bool) -> (r: Vec<CapKind>)
    ensures
        r@ == required_caps(kernel_5_8_plus),
{
    let mut r: Vec<CapKind> = Vec::new();
    r.push(CapKind::NetRaw);
    r.push(CapKind::NetAdmin);
    if kernel_5_8_plus {
        r.push(CapKind::Bpf);
        r.push(CapKind::Perfmon);
    } else {
        r.push(CapKind::SysAdmin);
    }
    proof {
        assert(r@ =~= required_caps(kernel_5_8_plus));
    }
    r
}

/// The effective-identity record: root passes, a plain user is
/// informational.
pub open spec fn privilege_check(uid: u32) -> CheckView {
    if uid == 0 {
        CheckView {
            name: "user Privileges"@,
            status: CheckStatus::Pass,
            message: "running as root"@,
            details: None,
        }
    } else {
        CheckView {
            name: "user Privileges"@,
            status: CheckStatus::Info,
            message: "running as user (UID: "@ + text::dec_digits(uid as nat) + ")"@,
            details: Some("non-root users need specific capabilities for XDP"@),
        }
    }
}

/// One capability's classification: present passes; absent warns for root
/// (unusual, not failing) and fails for anyone else.
pub open spec fn cap_status(has: bool, is_root: bool) -> CheckStatus {
    if has {
        CheckStatus::Pass
    } else if is_root {
        CheckStatus::Warning
    } else {
        CheckStatus::Fail
    }
}

pub open spec fn cap_check(c: CapKind, eff: CapFlags, is_root: bool) -> CheckView {
    let st = cap_status(eff.has(c), is_root);
    CheckView {
        name: c.spec_label(),
        status: st,
        message: c.spec_description(),
        details: match st {
            CheckStatus::Pass => Some("Capability granted"@),
            CheckStatus::Fail => Some(
                "Missing capability. Grant it with: sudo setcap cap_"@ + c.spec_token()
                    + "=ep <binary>"@,
            ),
            CheckStatus::Warning => Some("Root user but capability not detected (unusual)"@),
            _ => None,
        },
    }
}

/// The per-capability records, in the required list's order.
pub open spec fn cap_checks(req: Seq<CapKind>, eff: CapFlags, is_root: bool) -> Seq<CheckView>
    decreases req.len(),
{
    if req.len() == 0 {
        Seq::empty()
    } else {
        cap_checks(req.drop_last(), eff, is_root) + seq![cap_check(req.last(), eff, is_root)]
    }
}

/// The names of the required capabilities that are permitted but not
/// currently effective, in the required list's order.
pub open spec fn available_names(req: Seq<CapKind>, eff: CapFlags, perm: CapFlags) -> Seq<
    Seq<char>,
>
    decreases req.len(),
{
    if req.len() == 0 {
        Seq::empty()
    } else {
        available_names(req.drop_last(), eff, perm) + (if perm.has(req.last()) && !eff.has(
            req.last(),
        ) {
            seq![req.last().spec_label()]
        } else {
            Seq::<Seq<char>>::empty()
        })
    }
}

/// The informational aggregate naming what could be activated.
pub open spec fn available_check(names: Seq<Seq<char>>) -> CheckView {
    CheckView {
        name: "Available Capabilities"@,
        status: CheckStatus::Info,
        message: "Some capabilities are permitted but not effective"@,
        details: Some(
            "Could activate: "@ + text::join_comma_spec(names)
                + ". Consider using ambient capabilities."@,
        ),
    }
}

/// Everything the privilege probe emits for an identity and a pair of
/// capability sets: the identity record, one record per required
/// capability, and the aggregate of what could be activated where any
/// could.
pub open spec fn capability_checks(
    uid: u32,
    kernel_5_8_plus: bool,
    eff: CapFlags,
    perm: CapFlags,
) -> Seq<CheckView> {
    let req = required_caps(kernel_5_8_plus);
    let avail = available_names(req, eff, perm);
    seq![privilege_check(uid)] + cap_checks(req, eff, uid == 0) + (if avail.len() > 0 {
        seq![available_check(avail)]
    } else {
        Seq::<CheckView>::empty()
    })
}

/// Classifies the effective identity and both capability sets for a kernel
/// era. The probe is a pure function of these; the callers read them from
/// the process.
pub fn capability_results(
    uid: u32,
    kernel_5_8_plus: bool,
    eff: &CapFlags,
    perm: &CapFlags,
) -> (r: Vec<CheckResult>)
    ensures
        views(r@) == capability_checks(uid, kernel_5_8_plus, *eff, *perm),
{
    let is_root = uid == 0;
    let mut results: Vec<CheckResult> = Vec::new();
    if is_root {
        results.push(CheckResult {
            name: String::from_str("user Privileges"),
            status: CheckStatus::Pass,
            message: String::from_str("running as root"),
            details: None,
        });
    } else {
        let mut m = String::from_str("running as user (UID: ");
        let u = text::u64_to_string(uid as u64);
        m.append(u.as_str());
        m.append(")");
        results.push(CheckResult {
            name: String::from_str("user Privileges"),
            status: CheckStatus::Info,
            message: m,
            details: Some(String::from_str("non-root users need specific capabilities for XDP")),
        });
    }
    let req = required_caps_vec(kernel_5_8_plus);
    let n = req.len();
    let mut i: usize = 0;
    proof {
        assert(views(results@) =~= seq![privilege_check(uid)]);
        assert(cap_checks(req@.subrange(0, 0), *eff, is_root) =~= Seq::<CheckView>::empty());
        assert(req@.subrange(0, 0) =~= Seq::<CapKind>::empty());
    }
    while i < n
        invariant
            n == req@.len(),
            0 <= i <= n,
            req@ == required_caps(kernel_5_8_plus),
            is_root == (uid == 0),
            views(results@) == seq![privilege_check(uid)] + cap_checks(
                req@.subrange(0, i as int),
                *eff,
                is_root,
            ),
        decreases n - i,
    {
        let ghost prefix = req@.subrange(0, i as int);
        let ghost cur = req@.subrange(0, i + 1);
        proof {
            assert(cur.drop_last() =~= prefix);
            assert(cur.last() == req@[i as int]);
        }
        let c = req[i];
        let has = eff.contains(&c);
        let status = if has {
            CheckStatus::Pass
        } else if is_root {
            CheckStatus::Warning
        } else {
            CheckStatus::Fail
        };
        let details: Option<String> = if has {
            Some(String::from_str("Capability granted"))
        } else if is_root {
            Some(String::from_str("Root user but capability not detected (unusual)"))
        } else {
            let mut d = String::from_str("Missing capability. Grant it with: sudo setcap cap_");
            d.append(c.token());
            d.append("=ep <binary>");
            Some(d)
        };
        let record = CheckResult {
            name: c.label(),
            status,
            message: String::from_str(c.description()),
            details,
        };
        proof {
            assert(record@ == cap_check(req@[i as int], *eff, is_root));
        }
        let ghost pre_views = views(results@);
        results.push(record);
        proof {
            assert(views(results@) =~= pre_views.push(cap_check(req@[i as int], *eff, is_root)));
            assert(pre_views.push(cap_check(req@[i as int], *eff, is_root)) =~= seq![
                privilege_check(uid),
            ] + cap_checks(cur, *eff, is_root));
        }
        i += 1;
    }
    proof {
        assert(req@.subrange(0, n as int) =~= req@);
    }
    // the permitted-but-not-effective aggregate
    let mut avail: Vec<String> = Vec::new();
    let mut j: usize = 0;
    proof {
        assert(avail.deep_view() =~= Seq::<Seq<char>>::empty());
        assert(available_names(req@.subrange(0, 0), *eff, *perm) =~= Seq::<Seq<char>>::empty());
        assert(req@.subrange(0, 0) =~= Seq::<CapKind>::empty());
    }
    while j < n
        invariant
            n == req@.len(),
            0 <= j <= n,
            avail.deep_view() == available_names(req@.subrange(0, j as int), *eff, *perm),
        decreases n - j,
    {
        let ghost prefix = req@.subrange(0, j as int);
        let ghost cur = req@.subrange(0, j + 1);
        proof {
            assert(cur.drop_last() =~= prefix);
            assert(cur.last() == req@[j as int]);
        }
        let c = req[j];
        if perm.contains(&c) && !eff.contains(&c) {
            let ghost pre = avail.deep_view();
            avail.push(c.label());
            proof {
                assert(avail.deep_view() =~= pre.push(req@[j as int].spec_label()));
                assert(pre.push(req@[j as int].spec_label()) =~= pre + seq![
                    req@[j as int].spec_label(),
                ]);
            }
        }
        j += 1;
    }
    proof {
        assert(req@.subrange(0, n as int) =~= req@);
    }
    if avail.len() > 0 {
        let mut d = String::from_str("Could activate: ");
        let joined = text::join_comma(&avail);
        d.append(joined.as_str());
        d.append(". Consider using ambient capabilities.");
        results.push(CheckResult {
            name: String::from_str("Available Capabilities"),
            status: CheckStatus::Info,
            message: String::from_str("Some capabilities are permitted but not effective"),
            details: Some(d),
        });
    }
    proof {
        assert(views(results@) =~= capability_checks(uid, kernel_5_8_plus, *eff, *perm));
    }
    results
}

// ---------------------------------------------------------------------------
// Quick capability check
// ---------------------------------------------------------------------------

/// The quick classification: root or the full essential set passes, any of
/// the two network capabilities warns, neither fails.
pub open spec fn quick_cap_status(is_root: bool, eff: CapFlags) -> CheckStatus {
    if is_root || (eff.net_admin && eff.net_raw && (eff.bpf || eff.sys_admin)) {
        CheckStatus::Pass
    } else if eff.net_admin || eff.net_raw {
        CheckStatus::Warning
    } else {
        CheckStatus::Fail
    }
}

/// The one record of the quick capability check.
pub open spec fn quick_cap_check(is_root: bool, eff: CapFlags) -> CheckView {
    let st = quick_cap_status(is_root, eff);
    CheckView {
        name: "XDP Capabilities"@,
        status: st,
        message: if is_root {
            "Running as root (all capabilities)"@
        } else {
            "Checking essential capabilities"@
        },
        details: match st {
            CheckStatus::Pass => Some("All required capabilities present"@),
            CheckStatus::Warning => Some(
                "Some capabilities missing. XDP may work with limitations."@,
            ),
            CheckStatus::Fail => Some("Missing critical capabilities. XDP will not work."@),
            _ => None,
        },
    }
}

/// The quick capability check over the effective set alone.
pub fn quick_capability_results(is_root: bool, eff: &CapFlags) -> (r: Vec<CheckResult>)
    ensures
        views(r@) == seq![quick_cap_check(is_root, *eff)],
{
    let status = if is_root || (eff.net_admin && eff.net_raw && (eff.bpf || eff.sys_admin)) {
        CheckStatus::Pass
    } else if eff.net_admin || eff.net_raw {
        CheckStatus::Warning
    } else {
        CheckStatus::Fail
    };
    let details: Option<String> = match status {
        CheckStatus::Pass => Some(String::from_str("All required capabilities present")),
        CheckStatus::Warning => Some(
            String::from_str("Some capabilities missing. XDP may work with limitations."),
        ),
        CheckStatus::Fail => Some(
            String::from_str("Missing critical capabilities. XDP will not work."),
        ),
        _ => None,
    };
    let mut results: Vec<CheckResult> = Vec::new();
    results.push(CheckResult {
        name: String::from_str("XDP Capabilities"),
        status,
        message: if is_root {
            String::from_str("Running as root (all capabilities)")
        } else {
            String::from_str("Checking essential capabilities")
        },
        details,
    });
    proof {
        assert(views(results@) =~= seq![quick_cap_check(is_root, *eff)]);
    }
    results
}


// ---------------------------------------------------------------------------
// Entry points against the running process
// ---------------------------------------------------------------------------

/// Runs the whole privilege probe against the running process: whatever
/// identity, kernel era and capability sets the host reported, the results
/// are the pure classification of those values. A failed capability or
/// identity read is the fatal tier.
pub fn check_capabilities() -> (r: Result<Vec<CheckResult>, ProbeError>)
    ensures
        match r {
            Ok(v) => exists|uid: u32, k58: bool, eff: CapFlags, perm: CapFlags|
                views(v@) == #[trigger] capability_checks(uid, k58, eff, perm),
            Err(e) => e == ProbeError::KernelIdentity || e == ProbeError::Capabilities,
        },
{
    let uid = crate::host::effective_uid();
    let release = match crate::host::kernel_release() {
        Some(r) => r,
        None => {
            return Err(ProbeError::KernelIdentity);
        },
    };
    let k58 = crate::kernel::release_5_8_plus(release.as_str());
    let eff = match crate::host::read_cap_flags(true) {
        Some(f) => f,
        None => {
            return Err(ProbeError::Capabilities);
        },
    };
    let perm = match crate::host::read_cap_flags(false) {
        Some(f) => f,
        None => {
            return Err(ProbeError::Capabilities);
        },
    };
    let v = capability_results(uid, k58, &eff, &perm);
    proof {
        assert(views(v@) == capability_checks(uid, k58, eff, perm));
    }
    Ok(v)
}

/// Runs the quick capability check against the running process's effective
/// set.
pub fn quick_capability_check() -> (r: Result<Vec<CheckResult>, ProbeError>)
    ensures
        match r {
            Ok(v) => exists|is_root: bool, eff: CapFlags|
                views(v@) == seq![#[trigger] quick_cap_check(is_root, eff)],
            Err(e) => e == ProbeError::Capabilities,
        },
{
    let uid = crate::host::effective_uid();
    let is_root = uid == 0;
    let eff = match crate::host::read_cap_flags(true) {
        Some(f) => f,
        None => {
            return Err(ProbeError::Capabilities);
        },
    };
    let v = quick_capability_results(is_root, &eff);
    proof {
        assert(views(v@) == seq![quick_cap_check(is_root, eff)]);
    }
    Ok(v)
}

} // verus!
