//! The interface/driver probe: operational state, driver resolution and
//! classification against the static driver tables, native-XDP capability,
//! queue counts, ring-buffer sizes, speed and MTU.

use vstd::prelude::*;

use crate::ethtool;
use crate::status::{views, CheckResult, CheckStatus, CheckView};
use crate::text;

verus! {

// ---------------------------------------------------------------------------
// Driver tables
// ---------------------------------------------------------------------------

/// The static allow-list of drivers known to support native XDP.
pub open spec fn is_capable_driver(d: Seq<char>) -> bool {
    ||| d == "i40e"@
    ||| d == "ixgbe"@
    ||| d == "ice"@
    ||| d == "igb"@
    ||| d == "igc"@
    ||| d == "mlx5_core"@
    ||| d == "mlx4_core"@
    ||| d == "nfp"@
    ||| d == "bnxt_en"@
}

/// The static table of drivers with documented caveats; a driver may also
/// be in the capable list.
pub open spec fn driver_caveat(d: Seq<char>) -> Option<Seq<char>> {
    if d == "i40e"@ {
        Some("multi-fragment packet bugs - requires workaround in slowgave XDP"@)
    } else {
        None
    }
}

/// Looks a driver up in the capable table.
pub fn capable_driver(d: &str) -> (r: bool)
    ensures
        r == is_capable_driver(d@),
{
    text::str_eq(d, "i40e") || text::str_eq(d, "ixgbe") || text::str_eq(d, "ice") || text::str_eq(
        d,
        "igb",
    ) || text::str_eq(d, "igc") || text::str_eq(d, "mlx5_core") || text::str_eq(d, "mlx4_core")
        || text::str_eq(d, "nfp") || text::str_eq(d, "bnxt_en")
}

/// Looks a driver up in the caveat table.
pub fn caveat_for(d: &str) -> (r: Option<&'static str>)
    ensures
        match r {
            Some(s) => driver_caveat(d@) == Some(s@),
            None => driver_caveat(d@) is None,
        },
{
    if text::str_eq(d, "i40e") {
        Some("multi-fragment packet bugs - requires workaround in slowgave XDP")
    } else {
        None
    }
}

// ---------------------------------------------------------------------------
// Host snapshot of one interface
// ---------------------------------------------------------------------------

/// Mathematical model of an [`InterfaceHost`].
pub struct IfaceView {
    pub name: Seq<char>,
    pub exists: bool,
    pub operstate: Option<Seq<char>>,
    pub driver_link: Option<Seq<char>>,
    pub uevent: Option<Seq<char>>,
    pub xdp_dir_exists: bool,
    pub xdp_prog_id: Option<Seq<char>>,
    pub queue_names: Seq<Seq<char>>,
    pub ring: Option<(u32, u32)>,
    pub speed: Option<Seq<char>>,
    pub mtu: Option<Seq<char>>,
}

/// Everything the interface probe reads from the host about one interface,
/// gathered before the probe runs: raw file contents where readable, the
/// driver symlink's final component, the queue-directory entry names, and
/// the ring-parameters outcome from the device-control primitive.
#[derive(Debug)]
pub struct InterfaceHost {
    pub name: String,
    pub exists: bool,
    pub operstate: Option<String>,
    pub driver_link: Option<String>,
    pub uevent: Option<String>,
    pub xdp_dir_exists: bool,
    pub xdp_prog_id: Option<String>,
    pub queue_names: Vec<String>,
    pub ring: Option<(u32, u32)>,
    pub speed: Option<String>,
    pub mtu: Option<String>,
}

pub open spec fn opt_view(s: Option<String>) -> Option<Seq<char>> {
    match s {
        Some(t) => Some(t@),
        None => None,
    }
}

impl View for InterfaceHost {
    type V = IfaceView;

    open spec fn view(&self) -> IfaceView {
        IfaceView {
            name: self.name@,
            exists: self.exists,
            operstate: opt_view(self.operstate),
            driver_link: opt_view(self.driver_link),
            uevent: opt_view(self.uevent),
            xdp_dir_exists: self.xdp_dir_exists,
            xdp_prog_id: opt_view(self.xdp_prog_id),
            queue_names: self.queue_names.deep_view(),
            ring: self.ring,
            speed: opt_view(self.speed),
            mtu: opt_view(self.mtu),
        }
    }
}

pub open spec fn iviews(s: Seq<InterfaceHost>) -> Seq<IfaceView> {
    s.map_values(|h: InterfaceHost| h@)
}

// ---------------------------------------------------------------------------
// Driver resolution
// ---------------------------------------------------------------------------

/// The device-type value of the first line carrying the device-type prefix.
pub open spec fn devtype_of_lines(ls: Seq<Seq<char>>) -> Option<Seq<char>>
    decreases ls.len(),
{
    if ls.len() == 0 {
        None
    } else if text::starts_with_spec(ls[0], "DEVTYPE="@) {
        Some(ls[0].subrange(8, ls[0].len() as int))
    } else {
        devtype_of_lines(ls.drop_first())
    }
}

/// The driver name: the symlink's final component, else the device-type
/// field of the auxiliary metadata file, else "unknown".
pub open spec fn resolve_driver_spec(
    link: Option<Seq<char>>,
    uevent: Option<Seq<char>>,
) -> Seq<char> {
    match link {
        Some(d) => d,
        None => match uevent {
            Some(u) => match devtype_of_lines(text::lines_spec(u)) {
                Some(d) => d,
                None => "unknown"@,
            },
            None => "unknown"@,
        },
    }
}

/// Resolves the backing driver name for one interface snapshot.
pub fn interface_driver(link: &Option<String>, uevent: &Option<String>) -> (r: String)
    ensures
        r@ == resolve_driver_spec(opt_view(*link), opt_view(*uevent)),
{
    match link {
        Some(d) => String::from_str(d.as_str()),
        None => {
            match uevent {
                Some(u) => {
                    let ls = text::split_lines(u.as_str());
                    let n = ls.len();
                    let mut t: usize = 0;
                    proof {
                        assert(ls.deep_view().subrange(0, n as int) =~= ls.deep_view());
                        assert(ls.deep_view().subrange(t as int, n as int) =~= ls.deep_view());
                    }
                    while t < n
                        invariant
                            opt_view(*link) is None,
                            opt_view(*uevent) == Some(u@),
                            n == ls@.len(),
                            0 <= t <= n,
                            ls.deep_view() == text::lines_spec(u@),
                            devtype_of_lines(text::lines_spec(u@)) == devtype_of_lines(
                                ls.deep_view().subrange(t as int, n as int),
                            ),
                        decreases n - t,
                    {
                        let ghost rest = ls.deep_view().subrange(t as int, n as int);
                        let line = &ls[t];
                        proof {
                            reveal_strlit("DEVTYPE=");
                        }
                        assert(rest[0] == ls.deep_view()[t as int]);
                        if text::str_starts_with(line.as_str(), "DEVTYPE=") {
                            assert(line@.len() >= 8);
                            let value = line.as_str().substring_char(
                                8,
                                line.as_str().unicode_len(),
                            );
                            let r = String::from_str(value);
                            proof {
                                assert(devtype_of_lines(rest) == Some(
                                    rest[0].subrange(8, rest[0].len() as int),
                                ));
                                assert(r@ == line@.subrange(8, line@.len() as int));
                            }
                            return r;
                        }
                        proof {
                            assert(rest.drop_first() =~= ls.deep_view().subrange(
                                t + 1,
                                n as int,
                            ));
                        }
                        t += 1;
                    }
                    proof {
                        assert(ls.deep_view().subrange(n as int, n as int) =~= Seq::<
                            Seq<char>,
                        >::empty());
                    }
                    String::from_str("unknown")
                },
                None => String::from_str("unknown"),
            }
        },
    }
}

// ---------------------------------------------------------------------------
// Per-interface checks
// ---------------------------------------------------------------------------

/// The record for an interface that does not exist on the host.
pub open spec fn missing_iface_check(name: Seq<char>) -> CheckView {
    CheckView {
        name: "Interface: "@ + name,
        status: CheckStatus::Error,
        message: "Interface not found"@,
        details: Some("No such interface: "@ + name),
    }
}

/// The operational-state record: up passes, anything else is informational.
pub open spec fn operstate_check(name: Seq<char>, operstate: Option<Seq<char>>) -> CheckView {
    let state = match operstate {
        Some(s) => text::trim_spec(s),
        None => "unknown"@,
    };
    CheckView {
        name: name + ": Status"@,
        status: if state == "up"@ {
            CheckStatus::Pass
        } else {
            CheckStatus::Info
        },
        message: "Interface state: "@ + state,
        details: None,
    }
}

/// The driver record: a capable driver passes unless it carries a caveat,
/// in which case it warns with the caveat spelled out; an unknown driver
/// warns.
pub open spec fn driver_check(name: Seq<char>, driver: Seq<char>) -> CheckView {
    let status = if is_capable_driver(driver) {
        if driver == "i40e"@ {
            CheckStatus::Warning
        } else {
            CheckStatus::Pass
        }
    } else {
        CheckStatus::Warning
    };
    let details = match driver_caveat(driver) {
        Some(issue) => "Driver: "@ + driver + " - KNOWN ISSUE: "@ + issue,
        None => "Driver: "@ + driver,
    };
    CheckView {
        name: name + ": Driver"@,
        status,
        message: "Network driver: "@ + driver,
        details: Some(details),
    }
}

/// An XDP program id read from the program-id file: the trimmed content
/// where it is neither empty nor `"0"`.
pub open spec fn attached_prog_id(content: Seq<char>) -> Option<Seq<char>> {
    let t = text::trim_spec(content);
    if t != "0"@ && t.len() > 0 {
        Some(t)
    } else {
        None
    }
}

/// The native-XDP capability record, from the capability marker, the
/// program-id file and the driver table.
pub open spec fn xdp_support_check(
    name: Seq<char>,
    xdp_dir_exists: bool,
    prog_id: Option<Seq<char>>,
    driver: Seq<char>,
) -> CheckView {
    if !xdp_dir_exists {
        if is_capable_driver(driver) {
            CheckView {
                name: name + ": XDP Support"@,
                status: CheckStatus::Pass,
                message: "XDP-capable (driver supports native XDP)"@,
                details: Some(
                    "Driver "@ + driver + " supports XDP but sysfs entries not visible"@,
                ),
            }
        } else {
            CheckView {
                name: name + ": XDP Support"@,
                status: CheckStatus::Warning,
                message: "No XDP support detected"@,
                details: Some(
                    "XDP sysfs entries not found. Driver may not support native XDP."@,
                ),
            }
        }
    } else {
        let attached = match prog_id {
            Some(c) => attached_prog_id(c),
            None => None,
        };
        match attached {
            Some(id) => CheckView {
                name: name + ": XDP Support"@,
                status: CheckStatus::Pass,
                message: "XDP program attached (ID: "@ + id + ")"@,
                details: Some("Interface has an active XDP program"@),
            },
            None => CheckView {
                name: name + ": XDP Support"@,
                status: CheckStatus::Pass,
                message: "XDP-ready (no program attached)"@,
                details: Some("Interface supports XDP but no program is currently attached"@),
            },
        }
    }
}

/// How many entry names carry the prefix.
pub open spec fn count_prefixed(names: Seq<Seq<char>>, p: Seq<char>) -> nat
    decreases names.len(),
{
    if names.len() == 0 {
        0
    } else {
        count_prefixed(names.drop_last(), p) + if text::starts_with_spec(names.last(), p) {
            1nat
        } else {
            0nat
        }
    }
}

/// A queue count: the number of prefixed entries, at least one, because the
/// device always has one of each even when not enumerable.
pub open spec fn queue_count(names: Seq<Seq<char>>, p: Seq<char>) -> nat {
    if count_prefixed(names, p) == 0 {
        1
    } else {
        count_prefixed(names, p)
    }
}

/// Counts the queue-directory entries carrying `p`.
fn count_prefixed_entries(names: &Vec<String>, p: &str) -> (r: usize)
    ensures
        r == count_prefixed(names.deep_view(), p@),
        r <= names.deep_view().len(),
{
    let n = names.len();
    let mut count: usize = 0;
    let mut i: usize = 0;
    while i < n
        invariant
            n == names@.len(),
            0 <= i <= n,
            count == count_prefixed(names.deep_view().subrange(0, i as int), p@),
            count <= i,
        decreases n - i,
    {
        let ghost pre = names.deep_view().subrange(0, i as int);
        let ghost cur = names.deep_view().subrange(0, i + 1);
        proof {
            assert(cur.drop_last() =~= pre);
            assert(cur.last() == names.deep_view()[i as int]);
        }
        if text::str_starts_with(names[i].as_str(), p) {
            count += 1;
        }
        i += 1;
    }
    proof {
        assert(names.deep_view().subrange(0, n as int) =~= names.deep_view());
    }
    count
}

/// Counts RX and TX queues from the queue-directory entry names, defaulting
/// each to one where none are found.
pub fn interface_queues(names: &Vec<String>) -> (r: (usize, usize))
    ensures
        r.0 == queue_count(names.deep_view(), "rx-"@),
        r.1 == queue_count(names.deep_view(), "tx-"@),
{
    let mut rx = count_prefixed_entries(names, "rx-");
    let mut tx = count_prefixed_entries(names, "tx-");
    if rx == 0 {
        rx = 1;
    }
    if tx == 0 {
        tx = 1;
    }
    (rx, tx)
}

/// The queue-count record.
pub open spec fn queues_check(name: Seq<char>, queue_names: Seq<Seq<char>>) -> CheckView {
    CheckView {
        name: name + ": Queues"@,
        status: CheckStatus::Info,
        message: "RX queues: "@ + text::dec_digits(queue_count(queue_names, "rx-"@))
            + ", TX queues: "@ + text::dec_digits(queue_count(queue_names, "tx-"@)),
        details: Some("Multiple queues enable multi-core XDP processing"@),
    }
}

/// The link-speed record, emitted only where the speed file held a number:
/// ten gigabits and up are shown in Gbps.
pub open spec fn speed_checks(name: Seq<char>, speed: Option<Seq<char>>) -> Seq<CheckView> {
    match speed {
        Some(s) => {
            let t = text::trim_spec(s);
            if text::is_u32_numeral(t) {
                let mbps = text::parse_u32_or_zero_spec(t);
                seq![
                    CheckView {
                        name: name + ": Speed"@,
                        status: CheckStatus::Info,
                        message: if mbps >= 10000 {
                            text::dec_digits((mbps / 1000) as nat) + " Gbps"@
                        } else {
                            text::dec_digits(mbps as nat) + " Mbps"@
                        },
                        details: None,
                    },
                ]
            } else {
                Seq::empty()
            }
        },
        None => Seq::empty(),
    }
}

/// The MTU record, emitted where the MTU file was readable; the value is
/// echoed as read.
pub open spec fn mtu_checks(name: Seq<char>, mtu: Option<Seq<char>>) -> Seq<CheckView> {
    match mtu {
        Some(s) => seq![
            CheckView {
                name: name + ": MTU"@,
                status: CheckStatus::Info,
                message: "MTU: "@ + text::trim_spec(s) + " bytes"@,
                details: None,
            },
        ],
        None => Seq::empty(),
    }
}

/// All records of one interface: state, driver, XDP capability, queues,
/// rings, then speed and MTU opportunistically; or the single Error record
/// where the interface does not exist.
pub open spec fn interface_checks(h: IfaceView) -> Seq<CheckView> {
    if !h.exists {
        seq![missing_iface_check(h.name)]
    } else {
        let driver = resolve_driver_spec(h.driver_link, h.uevent);
        seq![
            operstate_check(h.name, h.operstate),
            driver_check(h.name, driver),
            xdp_support_check(h.name, h.xdp_dir_exists, h.xdp_prog_id, driver),
            queues_check(h.name, h.queue_names),
            ethtool::ring_check(h.name, h.ring),
        ] + speed_checks(h.name, h.speed) + mtu_checks(h.name, h.mtu)
    }
}

/// Joins the interface name and a suffix into a record name.
fn iface_name(name: &str, suffix: &str) -> (r: String)
    ensures
        r@ == name@ + suffix@,
{
    let mut r = String::from_str(name);
    r.append(suffix);
    r
}

/// Runs every check for one interface snapshot.
pub fn check_interface(host: &InterfaceHost) -> (r: Vec<CheckResult>)
    ensures
        views(r@) == interface_checks(host@),
{
    let mut results: Vec<CheckResult> = Vec::new();
    if !host.exists {
        let mut details = String::from_str("No such interface: ");
        details.append(host.name.as_str());
        results.push(CheckResult {
            name: iface_name("Interface: ", host.name.as_str()),
            status: CheckStatus::Error,
            message: String::from_str("Interface not found"),
            details: Some(details),
        });
        proof {
            assert(views(results@) =~= interface_checks(host@));
        }
        return results;
    }
    // operational state
    let state: String = match &host.operstate {
        Some(s) => text::trim(s.as_str()),
        None => String::from_str("unknown"),
    };
    let up = text::str_eq(state.as_str(), "up");
    let mut state_message = String::from_str("Interface state: ");
    state_message.append(state.as_str());
    results.push(CheckResult {
        name: iface_name(host.name.as_str(), ": Status"),
        status: if up {
            CheckStatus::Pass
        } else {
            CheckStatus::Info
        },
        message: state_message,
        details: None,
    });
    // driver
    let driver = interface_driver(&host.driver_link, &host.uevent);
    let capable = capable_driver(driver.as_str());
    let is_i40e = text::str_eq(driver.as_str(), "i40e");
    let driver_status = if capable {
        if is_i40e {
            CheckStatus::Warning
        } else {
            CheckStatus::Pass
        }
    } else {
        CheckStatus::Warning
    };
    let driver_details: String = match caveat_for(driver.as_str()) {
        Some(issue) => {
            let mut d = String::from_str("Driver: ");
            d.append(driver.as_str());
            d.append(" - KNOWN ISSUE: ");
            d.append(issue);
            d
        },
        None => {
            let mut d = String::from_str("Driver: ");
            d.append(driver.as_str());
            d
        },
    };
    let mut driver_message = String::from_str("Network driver: ");
    driver_message.append(driver.as_str());
    results.push(CheckResult {
        name: iface_name(host.name.as_str(), ": Driver"),
        status: driver_status,
        message: driver_message,
        details: Some(driver_details),
    });
    // XDP capability
    let xdp_result: CheckResult = if !host.xdp_dir_exists {
        if capable {
            let mut d = String::from_str("Driver ");
            d.append(driver.as_str());
            d.append(" supports XDP but sysfs entries not visible");
            CheckResult {
                name: iface_name(host.name.as_str(), ": XDP Support"),
                status: CheckStatus::Pass,
                message: String::from_str("XDP-capable (driver supports native XDP)"),
                details: Some(d),
            }
        } else {
            CheckResult {
                name: iface_name(host.name.as_str(), ": XDP Support"),
                status: CheckStatus::Warning,
                message: String::from_str("No XDP support detected"),
                details: Some(
                    String::from_str(
                        "XDP sysfs entries not found. Driver may not support native XDP.",
                    ),
                ),
            }
        }
    } else {
        let attached: Option<String> = match &host.xdp_prog_id {
            Some(c) => {
                let t = text::trim(c.as_str());
                let zero = text::str_eq(t.as_str(), "0");
                if !zero && t.as_str().unicode_len() > 0 {
                    Some(t)
                } else {
                    None
                }
            },
            None => None,
        };
        match attached {
            Some(id) => {
                let mut m = String::from_str("XDP program attached (ID: ");
                m.append(id.as_str());
                m.append(")");
                CheckResult {
                    name: iface_name(host.name.as_str(), ": XDP Support"),
                    status: CheckStatus::Pass,
                    message: m,
                    details: Some(String::from_str("Interface has an active XDP program")),
                }
            },
            None => CheckResult {
                name: iface_name(host.name.as_str(), ": XDP Support"),
                status: CheckStatus::Pass,
                message: String::from_str("XDP-ready (no program attached)"),
                details: Some(
                    String::from_str("Interface supports XDP but no program is currently attached"),
                ),
            },
        }
    };
    proof {
        assert(xdp_result@ == xdp_support_check(
            host@.name,
            host@.xdp_dir_exists,
            host@.xdp_prog_id,
            driver@,
        ));
    }
    results.push(xdp_result);
    // queues
    let queues = interface_queues(&host.queue_names);
    let mut qm = String::from_str("RX queues: ");
    let qa = text::u64_to_string(queues.0 as u64);
    qm.append(qa.as_str());
    qm.append(", TX queues: ");
    let qb = text::u64_to_string(queues.1 as u64);
    qm.append(qb.as_str());
    results.push(CheckResult {
        name: iface_name(host.name.as_str(), ": Queues"),
        status: CheckStatus::Info,
        message: qm,
        details: Some(String::from_str("Multiple queues enable multi-core XDP processing")),
    });
    // ring buffers
    results.push(ethtool::ring_result(host.name.as_str(), &host.ring));
    proof {
        assert(views(results@) =~= seq![
            operstate_check(host@.name, host@.operstate),
            driver_check(host@.name, resolve_driver_spec(host@.driver_link, host@.uevent)),
            xdp_support_check(
                host@.name,
                host@.xdp_dir_exists,
                host@.xdp_prog_id,
                resolve_driver_spec(host@.driver_link, host@.uevent),
            ),
            queues_check(host@.name, host@.queue_names),
            ethtool::ring_check(host@.name, host@.ring),
        ]);
    }
    // speed
    match &host.speed {
        Some(s) => {
            let t = text::trim(s.as_str());
            let mbps = text::parse_u32_or_zero(t.as_str());
            let numeric = text::is_u32_numeral_exec(t.as_str());
            if numeric {
                let message: String = if mbps >= 10000 {
                    let mut m = text::u64_to_string((mbps / 1000) as u64);
                    m.append(" Gbps");
                    m
                } else {
                    let mut m = text::u64_to_string(mbps as u64);
                    m.append(" Mbps");
                    m
                };
                results.push(CheckResult {
                    name: iface_name(host.name.as_str(), ": Speed"),
                    status: CheckStatus::Info,
                    message,
                    details: None,
                });
            }
        },
        None => {},
    }
    // MTU
    match &host.mtu {
        Some(s) => {
            let t = text::trim(s.as_str());
            let mut m = String::from_str("MTU: ");
            m.append(t.as_str());
            m.append(" bytes");
            results.push(CheckResult {
                name: iface_name(host.name.as_str(), ": MTU"),
                status: CheckStatus::Info,
                message: m,
                details: None,
            });
        },
        None => {},
    }
    proof {
        assert(views(results@) =~= interface_checks(host@));
    }
    results
}

// ---------------------------------------------------------------------------
// All interfaces
// ---------------------------------------------------------------------------

/// The Warning emitted when the host exposes no interfaces at all.
pub open spec fn no_interfaces_check() -> CheckView {
    CheckView {
        name: "Network Interfaces"@,
        status: CheckStatus::Warning,
        message: "No network interfaces found"@,
        details: Some("Unable to detect network interfaces"@),
    }
}

/// All records of the non-loopback interfaces, in enumeration order.
pub open spec fn non_loopback_checks(hs: Seq<IfaceView>) -> Seq<CheckView>
    decreases hs.len(),
{
    if hs.len() == 0 {
        Seq::empty()
    } else {
        non_loopback_checks(hs.drop_last()) + (if hs.last().name == "lo"@ {
            Seq::<CheckView>::empty()
        } else {
            interface_checks(hs.last())
        })
    }
}

/// What the probe emits for a host's interface listing: the single Warning
/// where the listing is empty, else every non-loopback interface's records.
pub open spec fn all_interfaces_checks(hs: Seq<IfaceView>) -> Seq<CheckView> {
    if hs.len() == 0 {
        seq![no_interfaces_check()]
    } else {
        non_loopback_checks(hs)
    }
}

/// Runs every check for every non-loopback interface of the host; an empty
/// listing degrades to one Warning.
pub fn check_all_interfaces(interfaces: &Vec<InterfaceHost>) -> (r: Vec<CheckResult>)
    ensures
        views(r@) == all_interfaces_checks(iviews(interfaces@)),
{
    let n = interfaces.len();
    let mut results: Vec<CheckResult> = Vec::new();
    if n == 0 {
        results.push(CheckResult {
            name: String::from_str("Network Interfaces"),
            status: CheckStatus::Warning,
            message: String::from_str("No network interfaces found"),
            details: Some(String::from_str("Unable to detect network interfaces")),
        });
        proof {
            assert(views(results@) =~= all_interfaces_checks(iviews(interfaces@)));
        }
        return results;
    }
    let mut i: usize = 0;
    while i < n
        invariant
            n == interfaces@.len(),
            0 <= i <= n,
            views(results@) == non_loopback_checks(iviews(interfaces@).subrange(0, i as int)),
        decreases n - i,
    {
        let ghost pre = iviews(interfaces@).subrange(0, i as int);
        let ghost cur = iviews(interfaces@).subrange(0, i + 1);
        proof {
            assert(cur.drop_last() =~= pre);
            assert(cur.last() == iviews(interfaces@)[i as int]);
        }
        let host = &interfaces[i];
        if !text::str_eq(host.name.as_str(), "lo") {
            let ghost before = views(results@);
            let mut one = check_interface(host);
            let ghost one_views = views(one@);
            results.append(&mut one);
            proof {
                assert(views(results@) =~= before + one_views);
            }
        }
        i += 1;
    }
    proof {
        assert(iviews(interfaces@).subrange(0, n as int) =~= iviews(interfaces@));
    }
    results
}

// ---------------------------------------------------------------------------
// Quick interface check
// ---------------------------------------------------------------------------

/// The `name (driver)` entry of one interface in the quick listing.
pub open spec fn quick_entry(h: IfaceView) -> Seq<char> {
    h.name + " ("@ + resolve_driver_spec(h.driver_link, h.uevent) + ")"@
}

/// The non-loopback interfaces whose driver is in the capable table, as
/// quick-listing entries.
pub open spec fn quick_capable(hs: Seq<IfaceView>) -> Seq<Seq<char>>
    decreases hs.len(),
{
    if hs.len() == 0 {
        Seq::empty()
    } else {
        quick_capable(hs.drop_last()) + (if hs.last().name != "lo"@ && is_capable_driver(
            resolve_driver_spec(hs.last().driver_link, hs.last().uevent),
        ) {
            seq![quick_entry(hs.last())]
        } else {
            Seq::<Seq<char>>::empty()
        })
    }
}

/// The non-loopback interfaces whose driver is not in the capable table.
pub open spec fn quick_non_capable(hs: Seq<IfaceView>) -> Seq<Seq<char>>
    decreases hs.len(),
{
    if hs.len() == 0 {
        Seq::empty()
    } else {
        quick_non_capable(hs.drop_last()) + (if hs.last().name != "lo"@ && !is_capable_driver(
            resolve_driver_spec(hs.last().driver_link, hs.last().uevent),
        ) {
            seq![quick_entry(hs.last())]
        } else {
            Seq::<Seq<char>>::empty()
        })
    }
}

/// The one record of the quick interface check: any capable interface
/// passes, only incapable ones warn, none at all fails.
pub open spec fn quick_interface_check_spec(hs: Seq<IfaceView>) -> CheckView {
    let cap = quick_capable(hs);
    let non = quick_non_capable(hs);
    CheckView {
        name: "XDP-capable Interfaces"@,
        status: if cap.len() > 0 {
            CheckStatus::Pass
        } else if non.len() > 0 {
            CheckStatus::Warning
        } else {
            CheckStatus::Fail
        },
        message: "Found "@ + text::dec_digits(cap.len()) + " XDP-capable interface(s)"@,
        details: Some(
            if cap.len() > 0 {
                "XDP-ready: "@ + text::join_comma_spec(cap)
            } else if non.len() > 0 {
                "Interfaces without native XDP: "@ + text::join_comma_spec(non)
            } else {
                "No network interfaces detected"@
            },
        ),
    }
}

/// The quick check over the interface listing: one summary record naming
/// the XDP-capable interfaces.
pub fn quick_interface_check(interfaces: &Vec<InterfaceHost>) -> (r: Vec<CheckResult>)
    ensures
        views(r@) == seq![quick_interface_check_spec(iviews(interfaces@))],
{
    let n = interfaces.len();
    let mut cap: Vec<String> = Vec::new();
    let mut non: Vec<String> = Vec::new();
    let mut i: usize = 0;
    proof {
        assert(iviews(interfaces@).subrange(0, 0) =~= Seq::<IfaceView>::empty());
        assert(cap.deep_view() =~= Seq::<Seq<char>>::empty());
        assert(non.deep_view() =~= Seq::<Seq<char>>::empty());
    }
    while i < n
        invariant
            n == interfaces@.len(),
            0 <= i <= n,
            cap.deep_view() == quick_capable(iviews(interfaces@).subrange(0, i as int)),
            non.deep_view() == quick_non_capable(iviews(interfaces@).subrange(0, i as int)),
        decreases n - i,
    {
        let ghost prefix = iviews(interfaces@).subrange(0, i as int);
        let ghost cur = iviews(interfaces@).subrange(0, i + 1);
        proof {
            assert(cur.drop_last() =~= prefix);
            assert(cur.last() == iviews(interfaces@)[i as int]);
        }
        let host = &interfaces[i];
        if !text::str_eq(host.name.as_str(), "lo") {
            let driver = interface_driver(&host.driver_link, &host.uevent);
            let mut entry = String::from_str(host.name.as_str());
            entry.append(" (");
            entry.append(driver.as_str());
            entry.append(")");
            proof {
                assert(entry@ == quick_entry(iviews(interfaces@)[i as int]));
            }
            if capable_driver(driver.as_str()) {
                let ghost pre = cap.deep_view();
                cap.push(entry);
                proof {
                    assert(cap.deep_view() =~= pre.push(quick_entry(
                        iviews(interfaces@)[i as int],
                    )));
                    assert(pre.push(quick_entry(iviews(interfaces@)[i as int])) =~= pre + seq![
                        quick_entry(iviews(interfaces@)[i as int]),
                    ]);
                }
            } else {
                let ghost pre = non.deep_view();
                non.push(entry);
                proof {
                    assert(non.deep_view() =~= pre.push(quick_entry(
                        iviews(interfaces@)[i as int],
                    )));
                    assert(pre.push(quick_entry(iviews(interfaces@)[i as int])) =~= pre + seq![
                        quick_entry(iviews(interfaces@)[i as int]),
                    ]);
                }
            }
        }
        i += 1;
    }
    proof {
        assert(iviews(interfaces@).subrange(0, n as int) =~= iviews(interfaces@));
    }
    let status = if cap.len() > 0 {
        CheckStatus::Pass
    } else if non.len() > 0 {
        CheckStatus::Warning
    } else {
        CheckStatus::Fail
    };
    let mut message = String::from_str("Found ");
    let count = text::u64_to_string(cap.len() as u64);
    message.append(count.as_str());
    message.append(" XDP-capable interface(s)");
    let details: String = if cap.len() > 0 {
        let mut d = String::from_str("XDP-ready: ");
        let joined = text::join_comma(&cap);
        d.append(joined.as_str());
        d
    } else if non.len() > 0 {
        let mut d = String::from_str("Interfaces without native XDP: ");
        let joined = text::join_comma(&non);
        d.append(joined.as_str());
        d
    } else {
        String::from_str("No network interfaces detected")
    };
    let mut results: Vec<CheckResult> = Vec::new();
    results.push(CheckResult {
        name: String::from_str("XDP-capable Interfaces"),
        status,
        message,
        details: Some(details),
    });
    proof {
        assert(views(results@) =~= seq![quick_interface_check_spec(iviews(interfaces@))]);
    }
    results
}

} // verus!
