//! The runtime probe: attached XDP programs and their mode, AF_XDP socket
//! counts, loaded program listings, pinned artifacts and the pinning
//! filesystem. Everything here is best-effort: a missing introspection
//! mechanism degrades to Info or Warning, never a fatal error.

use vstd::prelude::*;
use vstd::string::StringSliceAdditionalSpecFns;
use vstd::utf8::encode_utf8;

use crate::nic::attached_prog_id;
use crate::status::{views, CheckResult, CheckStatus, CheckView};
use crate::text;

verus! {

// ---------------------------------------------------------------------------
// Host snapshots
// ---------------------------------------------------------------------------

/// What the probe reads about one interface's program-id file when walking
/// the whole listing: whether the file exists, and its content where it was
/// readable.
#[derive(Debug)]
pub struct XdpIfaceState {
    pub name: String,
    pub has_prog_file: bool,
    pub prog_id: Option<String>,
}

/// Mathematical model of an [`XdpIfaceState`].
pub struct XdpIfaceStateView {
    pub name: Seq<char>,
    pub has_prog_file: bool,
    pub prog_id: Option<Seq<char>>,
}

impl View for XdpIfaceState {
    type V = XdpIfaceStateView;

    open spec fn view(&self) -> XdpIfaceStateView {
        XdpIfaceStateView {
            name: self.name@,
            has_prog_file: self.has_prog_file,
            prog_id: opt_view(self.prog_id),
        }
    }
}

pub open spec fn opt_view(s: Option<String>) -> Option<Seq<char>> {
    match s {
        Some(t) => Some(t@),
        None => None,
    }
}

pub open spec fn xviews(s: Seq<XdpIfaceState>) -> Seq<XdpIfaceStateView> {
    s.map_values(|h: XdpIfaceState| h@)
}

/// What the probe reads about one targeted interface: the program-id file,
/// the captured program-details line where an introspection tool produced
/// one, and the mode file.
#[derive(Debug)]
pub struct IfaceRuntime {
    pub name: String,
    pub has_prog_file: bool,
    pub prog_id: Option<String>,
    pub prog_info: Option<String>,
    pub mode: Option<String>,
}

/// Mathematical model of an [`IfaceRuntime`].
pub struct IfaceRuntimeView {
    pub name: Seq<char>,
    pub has_prog_file: bool,
    pub prog_id: Option<Seq<char>>,
    pub prog_info: Option<Seq<char>>,
    pub mode: Option<Seq<char>>,
}

impl View for IfaceRuntime {
    type V = IfaceRuntimeView;

    open spec fn view(&self) -> IfaceRuntimeView {
        IfaceRuntimeView {
            name: self.name@,
            has_prog_file: self.has_prog_file,
            prog_id: opt_view(self.prog_id),
            prog_info: opt_view(self.prog_info),
            mode: opt_view(self.mode),
        }
    }
}

/// Whether the probe looks at one interface or walks the whole listing.
#[derive(Debug)]
pub enum RuntimeScope {
    All(Vec<XdpIfaceState>),
    One(IfaceRuntime),
}

/// Everything the runtime probe reads from the host: the scope, the AF_XDP
/// socket table, the module list, the captured program listing where the
/// introspection tool ran, the pinned entry names where the pinning
/// directory exists, and the mount table.
#[derive(Debug)]
pub struct RuntimeHost {
    pub scope: RuntimeScope,
    pub xsk_table: Option<String>,
    pub modules: Option<String>,
    pub bpftool_xdp: Option<String>,
    pub pinned_names: Option<Vec<String>>,
    pub mounts: Option<String>,
}

// ---------------------------------------------------------------------------
// Attached programs across the listing
// ---------------------------------------------------------------------------

/// The trimmed program id of an interface whose program file was readable
/// and holds an id other than zero.
pub open spec fn active_id(h: XdpIfaceStateView) -> Option<Seq<char>> {
    if h.name != "lo"@ && h.has_prog_file {
        match h.prog_id {
            Some(c) => attached_prog_id(c),
            None => None,
        }
    } else {
        None
    }
}

/// The `name (prog_id: id)` entries of the interfaces with an attached
/// program, in listing order.
pub open spec fn active_entries(hs: Seq<XdpIfaceStateView>) -> Seq<Seq<char>>
    decreases hs.len(),
{
    if hs.len() == 0 {
        Seq::empty()
    } else {
        active_entries(hs.drop_last()) + (match active_id(hs.last()) {
            Some(id) => seq![hs.last().name + " (prog_id: "@ + id + ")"@],
            None => Seq::<Seq<char>>::empty(),
        })
    }
}

/// The one record of the listing walk: any attached program passes, none is
/// informational.
pub open spec fn all_runtime_check(hs: Seq<XdpIfaceStateView>) -> CheckView {
    let active = active_entries(hs);
    CheckView {
        name: "Active XDP Programs"@,
        status: if active.len() > 0 {
            CheckStatus::Pass
        } else {
            CheckStatus::Info
        },
        message: text::dec_digits(active.len()) + " interface(s) with XDP programs"@,
        details: Some(
            if active.len() > 0 {
                "Active on: "@ + text::join_comma_spec(active)
            } else {
                "No XDP programs currently attached to any interface"@
            },
        ),
    }
}

/// The trimmed program id where the content holds one, as the probes read
/// it: the content trimmed, empty and `"0"` meaning none.
pub fn parse_prog_id(content: &str) -> (r: Option<String>)
    ensures
        match r {
            Some(t) => attached_prog_id(content@) == Some(t@),
            None => attached_prog_id(content@) is None,
        },
{
    let t = text::trim(content);
    let zero = text::str_eq(t.as_str(), "0");
    if !zero && t.as_str().unicode_len() > 0 {
        Some(t)
    } else {
        None
    }
}

/// Walks the interface listing for attached programs.
pub fn check_all_xdp_runtime(ifaces: &Vec<XdpIfaceState>) -> (r: Vec<CheckResult>)
    ensures
        views(r@) == seq![all_runtime_check(xviews(ifaces@))],
{
    let n = ifaces.len();
    let mut active: Vec<String> = Vec::new();
    let mut i: usize = 0;
    proof {
        assert(xviews(ifaces@).subrange(0, 0) =~= Seq::<XdpIfaceStateView>::empty());
        assert(active.deep_view() =~= Seq::<Seq<char>>::empty());
    }
    while i < n
        invariant
            n == ifaces@.len(),
            0 <= i <= n,
            active.deep_view() == active_entries(xviews(ifaces@).subrange(0, i as int)),
        decreases n - i,
    {
        let ghost prefix = xviews(ifaces@).subrange(0, i as int);
        let ghost cur = xviews(ifaces@).subrange(0, i + 1);
        proof {
            assert(cur.drop_last() =~= prefix);
            assert(cur.last() == xviews(ifaces@)[i as int]);
        }
        let h = &ifaces[i];
        if !text::str_eq(h.name.as_str(), "lo") && h.has_prog_file {
            match &h.prog_id {
                Some(c) => {
                    match parse_prog_id(c.as_str()) {
                        Some(id) => {
                            let mut entry = String::from_str(h.name.as_str());
                            entry.append(" (prog_id: ");
                            entry.append(id.as_str());
                            entry.append(")");
                            let ghost pre = active.deep_view();
                            let ghost av = active_id(xviews(ifaces@)[i as int]);
                            proof {
                                assert(av == Some(id@));
                                assert(entry@ == xviews(ifaces@)[i as int].name + " (prog_id: "@
                                    + id@ + ")"@);
                            }
                            active.push(entry);
                            proof {
                                assert(active.deep_view() =~= pre.push(
                                    xviews(ifaces@)[i as int].name + " (prog_id: "@ + id@ + ")"@,
                                ));
                                assert(pre.push(
                                    xviews(ifaces@)[i as int].name + " (prog_id: "@ + id@ + ")"@,
                                ) =~= pre + seq![
                                    xviews(ifaces@)[i as int].name + " (prog_id: "@ + id@ + ")"@,
                                ]);
                            }
                        },
                        None => {},
                    }
                },
                None => {},
            }
        }
        i += 1;
    }
    proof {
        assert(xviews(ifaces@).subrange(0, n as int) =~= xviews(ifaces@));
    }
    let mut message = text::u64_to_string(active.len() as u64);
    message.append(" interface(s) with XDP programs");
    let details: String = if active.len() > 0 {
        let mut d = String::from_str("Active on: ");
        let joined = text::join_comma(&active);
        d.append(joined.as_str());
        d
    } else {
        String::from_str("No XDP programs currently attached to any interface")
    };
    let mut results: Vec<CheckResult> = Vec::new();
    results.push(CheckResult {
        name: String::from_str("Active XDP Programs"),
        status: if active.len() > 0 {
            CheckStatus::Pass
        } else {
            CheckStatus::Info
        },
        message,
        details: Some(details),
    });
    proof {
        assert(views(results@) =~= seq![all_runtime_check(xviews(ifaces@))]);
    }
    results
}

// ---------------------------------------------------------------------------
// One targeted interface
// ---------------------------------------------------------------------------

/// The mode classification: native/driver and hardware offload pass,
/// generic/SKB warns, anything unrecognized is informational.
pub open spec fn mode_status(t: Seq<char>) -> CheckStatus {
    if t == "native"@ || t == "driver"@ || t == "offload"@ || t == "hw"@ {
        CheckStatus::Pass
    } else if t == "generic"@ || t == "skb"@ {
        CheckStatus::Warning
    } else {
        CheckStatus::Info
    }
}

pub open spec fn mode_details(t: Seq<char>) -> Option<Seq<char>> {
    if t == "native"@ || t == "driver"@ {
        Some("Native/Driver mode - best performance"@)
    } else if t == "generic"@ || t == "skb"@ {
        Some("Generic/SKB mode - slower, fallback mode"@)
    } else if t == "offload"@ || t == "hw"@ {
        Some("Hardware offload - NIC processes XDP"@)
    } else {
        None
    }
}

/// The mode record for a readable mode file.
pub open spec fn mode_check(name: Seq<char>, content: Seq<char>) -> CheckView {
    let t = text::trim_spec(content);
    CheckView {
        name: name + ": XDP Mode"@,
        status: mode_status(t),
        message: "XDP mode: "@ + t,
        details: mode_details(t),
    }
}

/// The program records for one targeted interface: the attached-program
/// record with the captured details line where one was taken, the
/// no-program record, or the Warning where the program file is missing;
/// then the mode record where the mode file was readable.
pub open spec fn iface_runtime_checks(h: IfaceRuntimeView) -> Seq<CheckView> {
    let prog: Seq<CheckView> = if h.has_prog_file {
        match h.prog_id {
            Some(c) => match attached_prog_id(c) {
                Some(id) => seq![
                    CheckView {
                        name: h.name + ": XDP Program"@,
                        status: CheckStatus::Pass,
                        message: "XDP program active (ID: "@ + id + ")"@,
                        details: Some("XDP program is currently attached and running"@),
                    },
                ] + (match h.prog_info {
                    Some(info) => seq![
                        CheckView {
                            name: h.name + ": XDP Program Info"@,
                            status: CheckStatus::Info,
                            message: "Program details"@,
                            details: Some(info),
                        },
                    ],
                    None => Seq::<CheckView>::empty(),
                }),
                None => seq![
                    CheckView {
                        name: h.name + ": XDP Program"@,
                        status: CheckStatus::Info,
                        message: "No XDP program attached"@,
                        details: None,
                    },
                ],
            },
            None => Seq::<CheckView>::empty(),
        }
    } else {
        seq![
            CheckView {
                name: h.name + ": XDP Runtime"@,
                status: CheckStatus::Warning,
                message: "Unable to check XDP status"@,
                details: Some("XDP status file not found. Interface may not support XDP."@),
            },
        ]
    };
    let mode: Seq<CheckView> = match h.mode {
        Some(m) => seq![mode_check(h.name, m)],
        None => Seq::<CheckView>::empty(),
    };
    prog + mode
}

/// Reports the attached program and mode of one targeted interface.
pub fn check_interface_xdp_runtime(h: &IfaceRuntime) -> (r: Vec<CheckResult>)
    ensures
        views(r@) == iface_runtime_checks(h@),
{
    let mut results: Vec<CheckResult> = Vec::new();
    if h.has_prog_file {
        match &h.prog_id {
            Some(c) => {
                match parse_prog_id(c.as_str()) {
                    Some(id) => {
                        let mut m = String::from_str("XDP program active (ID: ");
                        m.append(id.as_str());
                        m.append(")");
                        let mut rn = String::from_str(h.name.as_str());
                        rn.append(": XDP Program");
                        results.push(CheckResult {
                            name: rn,
                            status: CheckStatus::Pass,
                            message: m,
                            details: Some(
                                String::from_str("XDP program is currently attached and running"),
                            ),
                        });
                        match &h.prog_info {
                            Some(info) => {
                                let mut rn2 = String::from_str(h.name.as_str());
                                rn2.append(": XDP Program Info");
                                results.push(CheckResult {
                                    name: rn2,
                                    status: CheckStatus::Info,
                                    message: String::from_str("Program details"),
                                    details: Some(String::from_str(info.as_str())),
                                });
                            },
                            None => {},
                        }
                    },
                    None => {
                        let mut rn = String::from_str(h.name.as_str());
                        rn.append(": XDP Program");
                        results.push(CheckResult {
                            name: rn,
                            status: CheckStatus::Info,
                            message: String::from_str("No XDP program attached"),
                            details: None,
                        });
                    },
                }
            },
            None => {},
        }
    } else {
        let mut rn = String::from_str(h.name.as_str());
        rn.append(": XDP Runtime");
        results.push(CheckResult {
            name: rn,
            status: CheckStatus::Warning,
            message: String::from_str("Unable to check XDP status"),
            details: Some(
                String::from_str("XDP status file not found. Interface may not support XDP."),
            ),
        });
    }
    match &h.mode {
        Some(m) => {
            let t = text::trim(m.as_str());
            let pass_native = text::str_eq(t.as_str(), "native") || text::str_eq(
                t.as_str(),
                "driver",
            );
            let warn_generic = text::str_eq(t.as_str(), "generic") || text::str_eq(
                t.as_str(),
                "skb",
            );
            let pass_offload = text::str_eq(t.as_str(), "offload") || text::str_eq(
                t.as_str(),
                "hw",
            );
            let status = if pass_native || pass_offload {
                CheckStatus::Pass
            } else if warn_generic {
                CheckStatus::Warning
            } else {
                CheckStatus::Info
            };
            let details: Option<String> = if pass_native {
                Some(String::from_str("Native/Driver mode - best performance"))
            } else if warn_generic {
                Some(String::from_str("Generic/SKB mode - slower, fallback mode"))
            } else if pass_offload {
                Some(String::from_str("Hardware offload - NIC processes XDP"))
            } else {
                None
            };
            let mut message = String::from_str("XDP mode: ");
            message.append(t.as_str());
            let mut rn = String::from_str(h.name.as_str());
            rn.append(": XDP Mode");
            results.push(CheckResult { name: rn, status, message, details });
        },
        None => {},
    }
    proof {
        assert(views(results@) =~= iface_runtime_checks(h@));
    }
    results
}

// ---------------------------------------------------------------------------
// AF_XDP sockets
// ---------------------------------------------------------------------------

/// The AF_XDP socket record: active sockets in the diagnostic table pass;
/// with no table, a loaded diagnostic module is informational; else the
/// record notes that monitoring may be unavailable.
pub open spec fn xsk_check(table: Option<Seq<char>>, modules: Option<Seq<char>>) -> CheckView {
    let table_lines: int = match table {
        Some(c) => text::lines_spec(c).len() as int,
        None => 0,
    };
    if table_lines > 1 {
        CheckView {
            name: "AF_XDP Sockets"@,
            status: CheckStatus::Pass,
            message: text::dec_digits((table_lines - 1) as nat) + " AF_XDP socket(s) active"@,
            details: Some("Active AF_XDP sockets detected"@),
        }
    } else {
        let diag = match modules {
            Some(m) => text::contains_seq(encode_utf8(m), encode_utf8("xsk_diag"@)),
            None => false,
        };
        if diag {
            CheckView {
                name: "AF_XDP Support"@,
                status: CheckStatus::Info,
                message: "XSK diagnostic module loaded"@,
                details: Some("AF_XDP support available but no active sockets"@),
            }
        } else {
            CheckView {
                name: "AF_XDP Sockets"@,
                status: CheckStatus::Info,
                message: "No AF_XDP sockets detected"@,
                details: Some("AF_XDP socket monitoring may not be available"@),
            }
        }
    }
}

/// Reports active AF_XDP sockets from the diagnostic table or module list.
pub fn check_xsk_sockets(table: &Option<String>, modules: &Option<String>) -> (r: CheckResult)
    ensures
        r@ == xsk_check(opt_view(*table), opt_view(*modules)),
{
    match table {
        Some(c) => {
            let ls = text::split_lines(c.as_str());
            if ls.len() > 1 {
                let mut m = text::u64_to_string((ls.len() - 1) as u64);
                m.append(" AF_XDP socket(s) active");
                let r = CheckResult {
                    name: String::from_str("AF_XDP Sockets"),
                    status: CheckStatus::Pass,
                    message: m,
                    details: Some(String::from_str("Active AF_XDP sockets detected")),
                };
                proof {
                    assert(ls.deep_view().len() == text::lines_spec(c@).len());
                    assert(r@ == xsk_check(opt_view(*table), opt_view(*modules)));
                }
                return r;
            }
            proof {
                assert(ls.deep_view().len() == text::lines_spec(c@).len());
            }
        },
        None => {},
    }
    let diag = match modules {
        Some(m) => text::str_contains(m.as_str(), "xsk_diag"),
        None => false,
    };
    let r = if diag {
        CheckResult {
            name: String::from_str("AF_XDP Support"),
            status: CheckStatus::Info,
            message: String::from_str("XSK diagnostic module loaded"),
            details: Some(String::from_str("AF_XDP support available but no active sockets")),
        }
    } else {
        CheckResult {
            name: String::from_str("AF_XDP Sockets"),
            status: CheckStatus::Info,
            message: String::from_str("No AF_XDP sockets detected"),
            details: Some(String::from_str("AF_XDP socket monitoring may not be available")),
        }
    };
    proof {
        assert(r@ == xsk_check(opt_view(*table), opt_view(*modules)));
    }
    r
}

// ---------------------------------------------------------------------------
// Loaded and pinned programs
// ---------------------------------------------------------------------------

/// The entry is an XDP-related artifact name.
pub open spec fn is_xdp_artifact(name: Seq<char>) -> bool {
    text::contains_seq(encode_utf8(name), encode_utf8("xdp"@)) || text::contains_seq(
        encode_utf8(name),
        encode_utf8("xsk"@),
    )
}

/// How many entry names are XDP-related.
pub open spec fn count_artifacts(names: Seq<Seq<char>>) -> nat
    decreases names.len(),
{
    if names.len() == 0 {
        0
    } else {
        count_artifacts(names.drop_last()) + if is_xdp_artifact(names.last()) {
            1nat
        } else {
            0nat
        }
    }
}

/// The loaded-programs record from the captured listing: any line counts as
/// one loaded program, and any loaded program of the type passes. No single
/// program name is singled out.
pub open spec fn bpf_listing_check(out: Seq<char>) -> CheckView {
    let count = text::lines_spec(out).len();
    CheckView {
        name: "BPF Programs (XDP)"@,
        status: if count > 0 {
            CheckStatus::Pass
        } else {
            CheckStatus::Info
        },
        message: text::dec_digits(count) + " XDP program(s) loaded"@,
        details: if count > 0 {
            Some("Use 'bpftool prog list type xdp' for details"@)
        } else {
            None
        },
    }
}

/// The pinned-artifacts record, emitted only where at least one entry is
/// XDP-related.
pub open spec fn pinned_check(count: nat) -> CheckView {
    CheckView {
        name: "Pinned BPF Programs"@,
        status: CheckStatus::Info,
        message: text::dec_digits(count) + " XDP-related pinned program(s)"@,
        details: Some("Found in /sys/fs/bpf"@),
    }
}

/// The pinning-filesystem record, emitted where the mount table names it.
pub open spec fn bpf_fs_check() -> CheckView {
    CheckView {
        name: "BPF Filesystem"@,
        status: CheckStatus::Pass,
        message: "BPF filesystem mounted"@,
        details: Some("BPF filesystem is available for pinning programs"@),
    }
}

/// The program-listing records: the captured listing where the tool ran,
/// the pinned artifacts where any exist, the mounted pinning filesystem.
pub open spec fn bpf_checks(
    bpftool_xdp: Option<Seq<char>>,
    pinned_names: Option<Seq<Seq<char>>>,
    mounts: Option<Seq<char>>,
) -> Seq<CheckView> {
    (match bpftool_xdp {
        Some(out) => seq![bpf_listing_check(out)],
        None => Seq::<CheckView>::empty(),
    }) + (match pinned_names {
        Some(names) => if count_artifacts(names) > 0 {
            seq![pinned_check(count_artifacts(names))]
        } else {
            Seq::<CheckView>::empty()
        },
        None => Seq::<CheckView>::empty(),
    }) + (match mounts {
        Some(m) => if text::contains_seq(encode_utf8(m), encode_utf8("bpf"@)) {
            seq![bpf_fs_check()]
        } else {
            Seq::<CheckView>::empty()
        },
        None => Seq::<CheckView>::empty(),
    })
}

pub open spec fn opt_names_view(s: &Option<Vec<String>>) -> Option<Seq<Seq<char>>> {
    match s {
        Some(v) => Some(v.deep_view()),
        None => None,
    }
}

/// Counts the XDP-related entry names.
fn count_xdp_artifacts(names: &Vec<String>) -> (r: usize)
    ensures
        r == count_artifacts(names.deep_view()),
        r <= names.deep_view().len(),
{
    let n = names.len();
    let mut count: usize = 0;
    let mut i: usize = 0;
    while i < n
        invariant
            n == names@.len(),
            0 <= i <= n,
            count == count_artifacts(names.deep_view().subrange(0, i as int)),
            count <= i,
        decreases n - i,
    {
        let ghost pre = names.deep_view().subrange(0, i as int);
        let ghost cur = names.deep_view().subrange(0, i + 1);
        proof {
            assert(cur.drop_last() =~= pre);
            assert(cur.last() == names.deep_view()[i as int]);
        }
        if text::str_contains(names[i].as_str(), "xdp") || text::str_contains(
            names[i].as_str(),
            "xsk",
        ) {
            count += 1;
        }
        i += 1;
    }
    proof {
        assert(names.deep_view().subrange(0, n as int) =~= names.deep_view());
    }
    count
}

/// Reports loaded, pinned and mountable program state.
pub fn check_bpf_programs(
    bpftool_xdp: &Option<String>,
    pinned_names: &Option<Vec<String>>,
    mounts: &Option<String>,
) -> (r: Vec<CheckResult>)
    ensures
        views(r@) == bpf_checks(opt_view(*bpftool_xdp), opt_names_view(pinned_names), opt_view(
            *mounts,
        )),
{
    let mut results: Vec<CheckResult> = Vec::new();
    match bpftool_xdp {
        Some(out) => {
            let ls = text::split_lines(out.as_str());
            let count = ls.len();
            proof {
                assert(ls.deep_view().len() == text::lines_spec(out@).len());
            }
            let mut m = text::u64_to_string(count as u64);
            m.append(" XDP program(s) loaded");
            results.push(CheckResult {
                name: String::from_str("BPF Programs (XDP)"),
                status: if count > 0 {
                    CheckStatus::Pass
                } else {
                    CheckStatus::Info
                },
                message: m,
                details: if count > 0 {
                    Some(String::from_str("Use 'bpftool prog list type xdp' for details"))
                } else {
                    None
                },
            });
        },
        None => {},
    }
    match pinned_names {
        Some(names) => {
            let count = count_xdp_artifacts(names);
            if count > 0 {
                let mut m = text::u64_to_string(count as u64);
                m.append(" XDP-related pinned program(s)");
                results.push(CheckResult {
                    name: String::from_str("Pinned BPF Programs"),
                    status: CheckStatus::Info,
                    message: m,
                    details: Some(String::from_str("Found in /sys/fs/bpf")),
                });
            }
        },
        None => {},
    }
    match mounts {
        Some(m) => {
            if text::str_contains(m.as_str(), "bpf") {
                results.push(CheckResult {
                    name: String::from_str("BPF Filesystem"),
                    status: CheckStatus::Pass,
                    message: String::from_str("BPF filesystem mounted"),
                    details: Some(
                        String::from_str("BPF filesystem is available for pinning programs"),
                    ),
                });
            }
        },
        None => {},
    }
    proof {
        assert(views(results@) =~= bpf_checks(
            opt_view(*bpftool_xdp),
            opt_names_view(pinned_names),
            opt_view(*mounts),
        ));
    }
    results
}

// ---------------------------------------------------------------------------
// The whole runtime probe
// ---------------------------------------------------------------------------

/// The full sequence the runtime probe emits for a host snapshot.
pub open spec fn runtime_checks(h: &RuntimeHost) -> Seq<CheckView> {
    (match h.scope {
        RuntimeScope::All(ref ifaces) => seq![all_runtime_check(xviews(ifaces@))],
        RuntimeScope::One(ref iface) => iface_runtime_checks(iface@),
    }) + seq![xsk_check(opt_view(h.xsk_table), opt_view(h.modules))] + bpf_checks(
        opt_view(h.bpftool_xdp),
        opt_names_view(&h.pinned_names),
        opt_view(h.mounts),
    )
}

/// Runs the whole runtime probe on a host snapshot: the attached programs
/// for the scope, the AF_XDP sockets, and the loaded and pinned programs.
pub fn check_xdp_runtime(host: &RuntimeHost) -> (r: Vec<CheckResult>)
    ensures
        views(r@) == runtime_checks(host),
{
    let mut results: Vec<CheckResult> = match &host.scope {
        RuntimeScope::All(ifaces) => check_all_xdp_runtime(ifaces),
        RuntimeScope::One(iface) => check_interface_xdp_runtime(iface),
    };
    let ghost scope_views = views(results@);
    results.push(check_xsk_sockets(&host.xsk_table, &host.modules));
    let mut bpf = check_bpf_programs(&host.bpftool_xdp, &host.pinned_names, &host.mounts);
    let ghost bpf_views = views(bpf@);
    results.append(&mut bpf);
    proof {
        assert(views(results@) =~= scope_views + seq![
            xsk_check(opt_view(host.xsk_table), opt_view(host.modules)),
        ] + bpf_views);
        assert(views(results@) =~= runtime_checks(host));
    }
    results
}

/// The captured program-details line: the first line of a successful
/// introspection run's output, where the output is non-empty.
pub open spec fn prog_info_line(output: Option<Seq<char>>) -> Option<Seq<char>> {
    match output {
        Some(info) => if info.len() > 0 && text::lines_spec(info).len() > 0 {
            Some(text::lines_spec(info)[0])
        } else {
            None
        },
        None => None,
    }
}

/// Extracts the program-details line from a captured introspection output.
pub fn bpf_prog_info_line(output: &Option<String>) -> (r: Option<String>)
    ensures
        match r {
            Some(line) => prog_info_line(opt_view(*output)) == Some(line@),
            None => prog_info_line(opt_view(*output)) is None,
        },
{
    match output {
        Some(info) => {
            if info.as_str().unicode_len() > 0 {
                let ls = text::split_lines(info.as_str());
                if ls.len() > 0 {
                    let line = String::from_str(ls[0].as_str());
                    proof {
                        assert(ls.deep_view()[0] == text::lines_spec(info@)[0]);
                    }
                    Some(line)
                } else {
                    None
                }
            } else {
                None
            }
        },
        None => None,
    }
}

} // verus!
