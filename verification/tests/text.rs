use obox_controller_driver::gamepad::{find_path, DeviceInfo};
use obox_controller_driver::hidhide::extract_instance_paths;
use obox_controller_driver::text::{
    char_is_whitespace, contains_chars, join_strings, split_lines, starts_with, trim_chars,
};

#[test]
fn whitespace_is_the_unicode_white_space_property() {
    for u in 0u32..0x3100 {
        if let Some(c) = char::from_u32(u) {
            assert_eq!(char_is_whitespace(c), c.is_whitespace(), "U+{:04X}", u);
        }
    }
    assert!(!char_is_whitespace('\u{10FFFF}'));
}

fn chars(s: &str) -> Vec<char> {
    s.chars().collect()
}

#[test]
fn trim_removes_unicode_whitespace() {
    assert_eq!(trim_chars(&chars(" \t\u{3000}ab c\r\n\u{A0}")), chars("ab c"));
    assert_eq!(trim_chars(&chars("   ")), chars(""));
    assert_eq!(trim_chars(&chars("x")), chars("x"));
}

#[test]
fn lines_split_like_str_lines() {
    let inputs = ["", "a", "a\n", "a\r\nb", "\n\nx\r", "a\rb\n\n", "\r\n"];
    for s in inputs {
        let expected: Vec<Vec<char>> = s.lines().map(chars).collect();
        assert_eq!(split_lines(&chars(s)), expected, "input {:?}", s);
    }
}

#[test]
fn prefix_and_substring_tests() {
    assert!(starts_with(&chars("--app-reg \"x\""), &chars("--app-reg")));
    assert!(!starts_with(&chars("--app"), &chars("--app-reg")));
    assert!(contains_chars(&chars("abcabd"), &chars("abd")));
    assert!(!contains_chars(&chars("abc"), &chars("abcd")));
    assert!(contains_chars(&chars("abc"), &chars("")));
}

#[test]
fn join_with_separator() {
    let parts = vec!["a".to_string(), "".to_string(), "b".to_string()];
    assert_eq!(join_strings(&parts, ","), "a,,b");
    assert_eq!(join_strings(&Vec::new(), ","), "");
}

#[test]
fn escaped_json_path_round_trips_to_dev_list_path() {
    let path = r"HID\{00001124-0000-1000-8000-00805f9b34fb}_VID&00020a5c_PID&4502&Col01\c&c7f3abb&4&0000";
    let json = format!("{{ \"deviceInstancePath\" : \"{}\" }}", path.replace('\\', "\\\\"));
    assert_eq!(extract_instance_paths(&json, &[]), vec![path.to_string()]);
}

fn dev(vid: u16, pid: u16, page: u16, usage: u16, path: &str) -> DeviceInfo {
    DeviceInfo { vendor_id: vid, product_id: pid, usage_page: page, usage, path: path.to_string() }
}

#[test]
fn find_path_takes_first_matching_collection() {
    let devices = vec![
        dev(0x045E, 0x028E, 0x01, 0x05, "xbox"),
        dev(0x0A5C, 0x4502, 0x01, 0x02, "mouse"),
        dev(0x0A5C, 0x4502, 0x0C, 0x01, "consumer"),
        dev(0x0A5C, 0x4502, 0x01, 0x05, "gamepad1"),
        dev(0x0A5C, 0x4502, 0x01, 0x05, "gamepad2"),
    ];
    assert_eq!(find_path(&devices, 0x01, 0x05), Some("gamepad1".to_string()));
    assert_eq!(find_path(&devices, 0x0C, 0x01), Some("consumer".to_string()));
    assert_eq!(find_path(&devices, 0x01, 0x06), None);
    assert_eq!(find_path(&Vec::new(), 0x01, 0x05), None);
}
