use xdp_check::runtime::{
    bpf_prog_info_line, check_all_xdp_runtime, check_bpf_programs, check_interface_xdp_runtime,
    check_xdp_runtime, check_xsk_sockets, parse_prog_id, IfaceRuntime, RuntimeHost, RuntimeScope,
    XdpIfaceState,
};
use xdp_check::CheckStatus;

fn state(name: &str, has_file: bool, prog: Option<&str>) -> XdpIfaceState {
    XdpIfaceState {
        name: name.to_string(),
        has_prog_file: has_file,
        prog_id: prog.map(|p| p.to_string()),
    }
}

#[test]
fn prog_id_parsing() {
    assert_eq!(parse_prog_id("42\n").as_deref(), Some("42"));
    assert_eq!(parse_prog_id("  7 ").as_deref(), Some("7"));
    assert_eq!(parse_prog_id("0\n"), None);
    assert_eq!(parse_prog_id(""), None);
    assert_eq!(parse_prog_id("   \n"), None);
}

#[test]
fn all_runtime_walk() {
    let ifaces = vec![
        state("lo", true, Some("9\n")),
        state("eth0", true, Some("42\n")),
        state("eth1", true, Some("0\n")),
        state("eth2", false, None),
        state("eth3", true, Some("7\n")),
    ];
    let results = check_all_xdp_runtime(&ifaces);
    assert_eq!(results.len(), 1);
    assert!(matches!(results[0].status, CheckStatus::Pass));
    assert_eq!(results[0].message, "2 interface(s) with XDP programs");
    assert_eq!(
        results[0].details.as_deref().unwrap(),
        "Active on: eth0 (prog_id: 42), eth3 (prog_id: 7)"
    );

    let quiet = check_all_xdp_runtime(&vec![state("eth0", true, Some("0\n"))]);
    assert!(matches!(quiet[0].status, CheckStatus::Info));
    assert_eq!(quiet[0].message, "0 interface(s) with XDP programs");
}

#[test]
fn one_interface_runtime_variants() {
    let attached = IfaceRuntime {
        name: "eth0".to_string(),
        has_prog_file: true,
        prog_id: Some("42\n".to_string()),
        prog_info: Some("42: xdp name slow tag abc".to_string()),
        mode: Some("native\n".to_string()),
    };
    let results = check_interface_xdp_runtime(&attached);
    assert_eq!(results.len(), 3);
    assert_eq!(results[0].name, "eth0: XDP Program");
    assert_eq!(results[0].message, "XDP program active (ID: 42)");
    assert_eq!(results[1].name, "eth0: XDP Program Info");
    assert_eq!(results[1].details.as_deref().unwrap(), "42: xdp name slow tag abc");
    assert_eq!(results[2].name, "eth0: XDP Mode");
    assert!(matches!(results[2].status, CheckStatus::Pass));
    assert_eq!(results[2].details.as_deref().unwrap(), "Native/Driver mode - best performance");

    let none_attached = IfaceRuntime {
        name: "eth1".to_string(),
        has_prog_file: true,
        prog_id: Some("0\n".to_string()),
        prog_info: None,
        mode: Some("skb\n".to_string()),
    };
    let results2 = check_interface_xdp_runtime(&none_attached);
    assert_eq!(results2.len(), 2);
    assert_eq!(results2[0].message, "No XDP program attached");
    assert!(matches!(results2[1].status, CheckStatus::Warning));

    let no_file = IfaceRuntime {
        name: "eth2".to_string(),
        has_prog_file: false,
        prog_id: None,
        prog_info: None,
        mode: Some("something\n".to_string()),
    };
    let results3 = check_interface_xdp_runtime(&no_file);
    assert_eq!(results3[0].name, "eth2: XDP Runtime");
    assert!(matches!(results3[0].status, CheckStatus::Warning));
    // an unrecognized mode is informational, with no details
    assert!(matches!(results3[1].status, CheckStatus::Info));
    assert!(results3[1].details.is_none());

    let offload = IfaceRuntime {
        name: "eth3".to_string(),
        has_prog_file: false,
        prog_id: None,
        prog_info: None,
        mode: Some("hw\n".to_string()),
    };
    let results4 = check_interface_xdp_runtime(&offload);
    assert!(matches!(results4[1].status, CheckStatus::Pass));
    assert_eq!(results4[1].details.as_deref().unwrap(), "Hardware offload - NIC processes XDP");
}

#[test]
fn xsk_socket_table() {
    let table = "sk ref type v\n1 2 3 4\n5 6 7 8\n";
    let active = check_xsk_sockets(&Some(table.to_string()), &None);
    assert!(matches!(active.status, CheckStatus::Pass));
    assert_eq!(active.message, "2 AF_XDP socket(s) active");

    // a header-only table falls through to the module check
    let module = check_xsk_sockets(
        &Some("sk ref type v\n".to_string()),
        &Some("xsk_diag 16384 0\n".to_string()),
    );
    assert!(matches!(module.status, CheckStatus::Info));
    assert_eq!(module.message, "XSK diagnostic module loaded");

    let nothing = check_xsk_sockets(&None, &Some("ext4 1 0\n".to_string()));
    assert_eq!(nothing.message, "No AF_XDP sockets detected");
}

#[test]
fn bpf_program_records() {
    let results = check_bpf_programs(
        &Some("42: xdp name one\n43: xdp name two\n".to_string()),
        &Some(vec!["xdp_prog".to_string(), "other".to_string(), "xsk_map".to_string()]),
        &Some("bpf /sys/fs/bpf bpf rw 0 0\n".to_string()),
    );
    assert_eq!(results.len(), 3);
    assert_eq!(results[0].message, "2 XDP program(s) loaded");
    assert!(matches!(results[0].status, CheckStatus::Pass));
    assert_eq!(results[1].message, "2 XDP-related pinned program(s)");
    assert_eq!(results[2].name, "BPF Filesystem");
    assert!(matches!(results[2].status, CheckStatus::Pass));

    // no tool, no XDP-related pins, no bpf mount: nothing is emitted
    let quiet = check_bpf_programs(
        &None,
        &Some(vec!["unrelated".to_string()]),
        &Some("proc /proc proc rw 0 0\n".to_string()),
    );
    assert_eq!(quiet.len(), 0);

    // a successful but empty listing is informational
    let empty = check_bpf_programs(&Some(String::new()), &None, &None);
    assert_eq!(empty.len(), 1);
    assert_eq!(empty[0].message, "0 XDP program(s) loaded");
    assert!(matches!(empty[0].status, CheckStatus::Info));
    assert!(empty[0].details.is_none());
}

#[test]
fn prog_info_first_line() {
    assert_eq!(
        bpf_prog_info_line(&Some("42: xdp tag abc\nmore\n".to_string())).as_deref(),
        Some("42: xdp tag abc")
    );
    assert_eq!(bpf_prog_info_line(&Some(String::new())), None);
    assert_eq!(bpf_prog_info_line(&None), None);
}

#[test]
fn whole_runtime_probe() {
    let host = RuntimeHost {
        scope: RuntimeScope::All(vec![state("eth0", true, Some("42\n"))]),
        xsk_table: None,
        modules: Some("xsk_diag 1 0\n".to_string()),
        bpftool_xdp: Some("42: xdp name one\n".to_string()),
        pinned_names: None,
        mounts: Some("bpf /sys/fs/bpf bpf rw 0 0\n".to_string()),
    };
    let results = check_xdp_runtime(&host);
    assert_eq!(results.len(), 4);
    assert_eq!(results[0].name, "Active XDP Programs");
    assert_eq!(results[1].name, "AF_XDP Support");
    assert_eq!(results[2].name, "BPF Programs (XDP)");
    assert_eq!(results[3].name, "BPF Filesystem");

    let one = RuntimeHost {
        scope: RuntimeScope::One(IfaceRuntime {
            name: "eth0".to_string(),
            has_prog_file: true,
            prog_id: Some("0".to_string()),
            prog_info: None,
            mode: None,
        }),
        xsk_table: None,
        modules: None,
        bpftool_xdp: None,
        pinned_names: None,
        mounts: None,
    };
    let results2 = check_xdp_runtime(&one);
    assert_eq!(results2.len(), 2);
    assert_eq!(results2[0].name, "eth0: XDP Program");
    assert_eq!(results2[1].name, "AF_XDP Sockets");
}
