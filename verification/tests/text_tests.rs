use xdp_check::text::{
    join_comma, parse_u32_or_zero, parse_u64_or_zero, repeat_str, split_dot, split_lines,
    split_release, split_ws, str_contains, str_eq, str_starts_with, trim, u64_to_string,
};

#[test]
fn decimal_rendering() {
    assert_eq!(u64_to_string(0), "0");
    assert_eq!(u64_to_string(7), "7");
    assert_eq!(u64_to_string(42), "42");
    assert_eq!(u64_to_string(1048576), "1048576");
    assert_eq!(u64_to_string(u64::MAX), "18446744073709551615");
}

#[test]
fn number_parsing() {
    assert_eq!(parse_u32_or_zero("0"), 0);
    assert_eq!(parse_u32_or_zero("15"), 15);
    assert_eq!(parse_u32_or_zero("+17"), 17);
    assert_eq!(parse_u32_or_zero("4294967295"), u32::MAX);
    // overflow, emptiness and junk all read as zero
    assert_eq!(parse_u32_or_zero("4294967296"), 0);
    assert_eq!(parse_u32_or_zero(""), 0);
    assert_eq!(parse_u32_or_zero("12a"), 0);
    assert_eq!(parse_u32_or_zero("-1"), 0);
    assert_eq!(parse_u32_or_zero("+"), 0);
    assert_eq!(parse_u64_or_zero("18446744073709551615"), u64::MAX);
    assert_eq!(parse_u64_or_zero("18446744073709551616"), 0);
}

#[test]
fn trimming() {
    assert_eq!(trim("  up\n"), "up");
    assert_eq!(trim("\t\r\n "), "");
    assert_eq!(trim("no-space"), "no-space");
    assert_eq!(trim(""), "");
}

#[test]
fn splitting() {
    assert_eq!(split_release("5.15.0-91-generic"), vec!["5", "15", "0", "91", "generic"]);
    assert_eq!(split_release("unknown"), vec!["unknown"]);
    assert_eq!(split_release("a..b"), vec!["a", "", "b"]);
    assert_eq!(split_ws(" 0.52  0.58 0.59 "), vec!["0.52", "0.58", "0.59"]);
    assert_eq!(split_ws(""), Vec::<String>::new());
    assert_eq!(split_dot("1.05"), vec!["1", "05"]);
    assert_eq!(split_dot("105"), vec!["105"]);
    assert_eq!(split_lines("a\nb\n"), vec!["a", "b"]);
    assert_eq!(split_lines("a\r\nb"), vec!["a", "b"]);
    assert_eq!(split_lines(""), Vec::<String>::new());
    assert_eq!(split_lines("\n"), vec![""]);
}

#[test]
fn searching_and_joining() {
    assert!(str_contains("CONFIG_BPF=y\n", "CONFIG_BPF=y"));
    assert!(!str_contains("CONFIG_BPF=n\n", "CONFIG_BPF=y"));
    assert!(str_contains("anything", ""));
    assert!(str_eq("abc", "abc"));
    assert!(!str_eq("abc", "abd"));
    assert!(str_starts_with("DEVTYPE=bridge", "DEVTYPE="));
    assert!(!str_starts_with("DEV", "DEVTYPE="));
    assert_eq!(join_comma(&vec!["a".to_string(), "b".to_string()]), "a, b");
    assert_eq!(join_comma(&vec!["solo".to_string()]), "solo");
    assert_eq!(join_comma(&vec![]), "");
    assert_eq!(repeat_str("-", 3), "---");
    assert_eq!(repeat_str("=", 0), "");
}
