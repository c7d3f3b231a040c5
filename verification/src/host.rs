//! Thin trusted wrappers around the process- and kernel-introspection calls
//! the probes need: system identity, the effective user, the locked-memory
//! limit and capability membership. Each result depends on the running
//! host, so no wrapper promises anything of its value; the probes take the
//! values as arguments and are verified for every value.

use vstd::prelude::*;

use crate::capabilities::{CapFlags, CapKind};

verus! {

/// Relies on nix::sys::utsname::uname for the kernel release string;
/// `None` where the call failed. The value depends on the running kernel.
#[verifier::external_body]
pub(crate) fn uname_release() -> (r: Option<String>) {
    match nix::sys::utsname::uname() {
        Ok(u) => Some(u.release().to_string_lossy().into_owned()),
        Err(_) => None,
    }
}

/// Relies on nix::unistd::geteuid, which POSIX requires to succeed, for the
/// effective user id of this process.
#[verifier::external_body]
pub(crate) fn effective_uid() -> (r: u32) {
    nix::unistd::geteuid().as_raw()
}

/// Relies on nix::sys::resource::getrlimit for the locked-memory limit pair
/// `(current, maximum)` in bytes; `None` where the read failed.
#[verifier::external_body]
pub(crate) fn memlock_rlimit() -> (r: Option<(u64, u64)>) {
    match nix::sys::resource::getrlimit(nix::sys::resource::Resource::RLIMIT_MEMLOCK) {
        Ok(pair) => Some(pair),
        Err(_) => None,
    }
}

/// Relies on caps::has_cap for membership of one capability in this
/// process's effective or permitted set; `None` where the read failed.
#[verifier::external_body]
pub(crate) fn has_capability(effective: bool, cap: &CapKind) -> (r: Option<bool>) {
    let cset = if effective {
        caps::CapSet::Effective
    } else {
        caps::CapSet::Permitted
    };
    let c = match cap {
        CapKind::NetRaw => caps::Capability::CAP_NET_RAW,
        CapKind::NetAdmin => caps::Capability::CAP_NET_ADMIN,
        CapKind::Bpf => caps::Capability::CAP_BPF,
        CapKind::Perfmon => caps::Capability::CAP_PERFMON,
        CapKind::SysAdmin => caps::Capability::CAP_SYS_ADMIN,
    };
    caps::has_cap(None, cset, c).ok()
}

/// Reads one capability set into flags; `None` where any membership read
/// failed, the way a whole-set read fails as one.
pub(crate) fn read_cap_flags(effective: bool) -> (r: Option<CapFlags>) {
    let net_raw = match has_capability(effective, &CapKind::NetRaw) {
        Some(b) => b,
        None => {
            return None;
        },
    };
    let net_admin = match has_capability(effective, &CapKind::NetAdmin) {
        Some(b) => b,
        None => {
            return None;
        },
    };
    let bpf = match has_capability(effective, &CapKind::Bpf) {
        Some(b) => b,
        None => {
            return None;
        },
    };
    let perfmon = match has_capability(effective, &CapKind::Perfmon) {
        Some(b) => b,
        None => {
            return None;
        },
    };
    let sys_admin = match has_capability(effective, &CapKind::SysAdmin) {
        Some(b) => b,
        None => {
            return None;
        },
    };
    Some(CapFlags { net_raw, net_admin, bpf, perfmon, sys_admin })
}

/// The running kernel's release string, where the host reports one.
pub fn kernel_release() -> (r: Option<String>) {
    uname_release()
}

/// The locked-memory limit pair `(current, maximum)` in bytes, where the
/// host reports one.
pub fn memlock_limit() -> (r: Option<(u64, u64)>) {
    memlock_rlimit()
}

} // verus!
