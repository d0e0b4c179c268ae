use mcub::bridge::{parse_args, resolve_base_dir, usage_text, BridgeArgs};
use mcub::device_identifier::DeviceType;
use mcub::paths::{ends_in_name, joined_path, split_extension};
use mcub::pieces::{has_text, split_lines, split_on, split_text, split_words, trimmed};
use mcub::text::{dec2_text, dec_int_text, dec_text, read_i32, read_i64, read_u32, to_lower, to_upper};
use mcub::watcher::{find_bridge_binary, resolve_project_root};

fn list(words: &[&str]) -> Vec<String> {
    words.iter().map(|w| w.to_string()).collect()
}

#[test]
fn decimal_notation() {
    assert_eq!(dec_text(0), "0");
    assert_eq!(dec_text(90210), "90210");
    assert_eq!(dec_text(u64::MAX), "18446744073709551615");
    assert_eq!(dec_int_text(-42), "-42");
    assert_eq!(dec_int_text(i64::MIN), "-9223372036854775808");
    assert_eq!(dec2_text(7), "07");
    assert_eq!(dec2_text(123), "123");
}

#[test]
fn numbers_are_read_back() {
    for n in [0i64, 1, -1, 65536, i64::MAX, i64::MIN] {
        assert_eq!(read_i64(&dec_int_text(n)), Some(n));
    }
    assert_eq!(read_i32("2147483647"), Some(i32::MAX));
    assert_eq!(read_i32("2147483648"), None);
    assert_eq!(read_i32("-2147483648"), Some(i32::MIN));
    assert_eq!(read_i32("+5"), Some(5));
    assert_eq!(read_i32(""), None);
    assert_eq!(read_i32("-"), None);
    assert_eq!(read_i32(" 5"), None);
    assert_eq!(read_u32("4294967295"), Some(u32::MAX));
    assert_eq!(read_u32("4294967296"), None);
    assert_eq!(read_u32("-1"), None);
}

#[test]
fn case_of_letters() {
    assert_eq!(to_upper("bridge é"), "BRIDGE é");
    assert_eq!(to_lower("ttyACM0"), "ttyacm0");
}

#[test]
fn pieces_of_a_text() {
    assert_eq!(split_on("1;;2", ';'), list(&["1", "", "2"]));
    assert_eq!(split_words("  a\t b\n"), list(&["a", "b"]));
    assert_eq!(split_lines("a\r\nb\n\nc"), list(&["a", "b", "", "c"]));
    assert_eq!(split_lines(""), list(&[]));
    assert_eq!(trimmed(" \t x y \n"), "x y");
    assert_eq!(split_text("key: a: b", ": "), Some(("key".to_string(), "a: b".to_string())));
    assert!(has_text("xxLoopbackyy", "Loopback"));
    assert!(!has_text("Loop", "Loopback"));
}

#[test]
fn paths_are_joined() {
    assert_eq!(joined_path("/opt/mcub", "shared"), "/opt/mcub/shared");
    assert_eq!(joined_path("/opt/", "shared"), "/opt/shared");
    assert_eq!(joined_path("", "shared"), "shared");
    assert_eq!(joined_path("/opt", "/etc"), "/etc");
    assert_eq!(split_extension("a/b.log"), ("a/b".to_string(), "log".to_string()));
    assert_eq!(split_extension("a/.log"), ("a/.log".to_string(), "".to_string()));
}

#[test]
fn the_bridge_reads_its_command_line() {
    match parse_args(&list(&["prog", "hybrid"])) {
        BridgeArgs::Run { bridge, device } => {
            assert_eq!(bridge, DeviceType::Hybrid);
            assert_eq!(device, None);
        }
        other => panic!("{other:?}"),
    }
    match parse_args(&list(&["prog", "/dev/ttyACM3", "cava", "--verbose"])) {
        BridgeArgs::Run { bridge, device } => {
            assert_eq!(bridge, DeviceType::Cava);
            assert_eq!(device, Some("/dev/ttyACM3".to_string()));
        }
        other => panic!("{other:?}"),
    }
    assert!(matches!(parse_args(&list(&["prog", "-v"])), BridgeArgs::Version));
    assert!(matches!(parse_args(&list(&["prog", "--version"])), BridgeArgs::Version));
    assert!(matches!(parse_args(&list(&["prog", "display"])), BridgeArgs::Usage));
    assert!(matches!(parse_args(&list(&["prog"])), BridgeArgs::Usage));
    assert!(matches!(parse_args(&list(&[])), BridgeArgs::Usage));
    assert_eq!(usage_text("prog"), "Usage: prog <mpd|cava|hybrid|sysinfo>");
}

#[test]
fn kinds_are_found_by_their_names() {
    for t in [DeviceType::Mpd, DeviceType::Cava, DeviceType::Hybrid, DeviceType::Sysinfo] {
        match parse_args(&list(&["prog", t.as_str()])) {
            BridgeArgs::Run { bridge, .. } => assert_eq!(bridge, t),
            other => panic!("{other:?}"),
        }
    }
}

#[test]
fn the_base_directory_of_the_bridge() {
    assert_eq!(resolve_base_dir("/opt/mcub/bin/bridge", Some("/srv")), "/srv");
    assert_eq!(resolve_base_dir("/opt/mcub/bin/bridge", Some("")), "/opt/mcub/bin/..");
    assert_eq!(resolve_base_dir("/opt/mcub/bin/bridge", None), "/opt/mcub/bin/..");
    assert_eq!(resolve_base_dir("bridge", None), "..");
    assert_eq!(resolve_base_dir("/", None), "..");
    assert_eq!(resolve_base_dir("/bridge", None), "/..");
    assert_eq!(resolve_base_dir("target/bridge", None), "target/..");
}

#[test]
fn the_root_of_the_watcher() {
    assert_eq!(resolve_project_root(Some("/srv"), Some("/opt/mcub/bin/w")), "/srv");
    assert_eq!(resolve_project_root(None, Some("/opt/mcub/bin/w")), "/opt/mcub");
    assert_eq!(resolve_project_root(Some(""), Some("/w")), ".");
    assert_eq!(resolve_project_root(None, None), ".");
    assert_eq!(resolve_project_root(None, Some("bin/w")), "");
    assert_eq!(resolve_project_root(None, Some("/bin/w")), "/");
}

#[test]
fn the_places_of_the_bridge() {
    assert_eq!(
        find_bridge_binary(Some("/opt/mcub/bin/watcher"), "/opt/mcub"),
        list(&[
            "/opt/mcub/bin/mcub-bridge-rust",
            "/usr/local/bin/mcub-bridge-rust",
            "./mcub-bridge-rust",
            "/opt/mcub/target/release/mcub-bridge-rust",
            "/opt/mcub/target/debug/mcub-bridge-rust",
        ])
    );
    assert_eq!(find_bridge_binary(None, ".").len(), 4);
}

#[test]
fn paths_that_end_in_a_name() {
    for path in ["a", "a.log", "/x/.b", "/x/...", "x/..y"] {
        assert!(ends_in_name(path), "{path}");
    }
    for path in ["", "/", "a/", ".", "a/..", "/."] {
        assert!(!ends_in_name(path), "{path}");
    }
}
