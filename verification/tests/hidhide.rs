use obox_controller_driver::hidhide::{
    classify_cloak, cli_lookup, cloak_state, extract_instance_paths, is_registered,
    matches_all_patterns, parse_app_list, parse_dev_list, parse_quoted_values, split_by_hidden,
    split_status_output, summarize_status, CloakState, HidHideError, DEFAULT_CLI_PATH,
    cloak_call, plan_hide, plan_unhide, register_call, CliCall,
    OBOX_PATTERNS,
};

#[test]
fn test_extract_instance_paths_bluetooth_encoding() {
    let json = r#"
        { "deviceInstancePath" : "HID\\{00001124-0000-1000-8000-00805f9b34fb}_VID&00020a5c_PID&4502&Col01\\c&c7f3abb&4&0000" , "foo" : "bar" }
        "#;
    let patterns = ["0a5c", "pid&4502", "col01"];
    let paths = extract_instance_paths(json, &patterns);
    assert_eq!(paths.len(), 1);
    assert!(paths[0].contains(r"Col01\"));
    assert!(!paths[0].contains(r"Col01\\"));
}

#[test]
fn test_extract_instance_paths_standard_encoding() {
    let json = r#"
        { "deviceInstancePath" : "HID\\VID&0A5C&PID&4502&Col01\\c&1234&4&0000" }
        "#;
    let patterns = ["0a5c", "pid&4502", "col01"];
    let paths = extract_instance_paths(json, &patterns);
    assert_eq!(paths.len(), 1);
}

#[test]
fn test_extract_instance_paths_only_col01_matched() {
    let json = r#"
        { "deviceInstancePath" : "HID\\VID&00020A5C_PID&4502&Col01\\c&1234&4&0000" }
        { "deviceInstancePath" : "HID\\VID&00020A5C_PID&4502&Col02\\c&1234&4&0001" }
        { "deviceInstancePath" : "HID\\VID&00020A5C_PID&4502&Col03\\c&1234&4&0002" }
        { "deviceInstancePath" : "HID\\VID&045E&PID&028E\\some_other_device" }
        "#;
    let paths = extract_instance_paths(json, &OBOX_PATTERNS);
    assert_eq!(paths.len(), 1);
    assert!(paths[0].to_lowercase().contains("col01"));
}

#[test]
fn test_extract_instance_paths_no_match() {
    let json = r#"{ "deviceInstancePath" : "HID\\VID&045E&PID&028E\\xbox" }"#;
    let patterns = ["0a5c", "pid&4502", "col01"];
    let paths = extract_instance_paths(json, &patterns);
    assert!(paths.is_empty());
}

#[test]
fn test_extract_instance_paths_pid_only_no_vid() {
    let json = r#"{ "deviceInstancePath" : "HID\\VID&045E&PID&4502\\fake" }"#;
    let patterns = ["0a5c", "pid&4502", "col01"];
    let paths = extract_instance_paths(json, &patterns);
    assert!(paths.is_empty());
}

#[test]
fn test_extract_instance_paths_col02_not_matched() {
    let json = r#"{ "deviceInstancePath" : "HID\\VID&0A5C&PID&4502&Col02\\c&1234&4&0001" }"#;
    let paths = extract_instance_paths(json, &OBOX_PATTERNS);
    assert!(paths.is_empty());
}

#[test]
fn test_parse_app_list() {
    let text = r#"
--app-reg "C:\Program Files\Nefarius Software Solutions\HidHide\x64\HidHideCLI.exe"
--app-reg "D:\Tools\mi-vigem.exe"
--app-reg "F:\Dev Project\obox controller driver\target\release\obox-controller-driver.exe"
"#;
    let apps = parse_app_list(text);
    assert_eq!(apps.len(), 3);
    assert!(apps.contains(&r"c:\program files\nefarius software solutions\hidhide\x64\hidhidecli.exe".to_lowercase()));
    assert!(apps.contains(&r"d:\tools\mi-vigem.exe".to_lowercase()));
    assert!(apps.contains(&r"f:\dev project\obox controller driver\target\release\obox-controller-driver.exe".to_lowercase()));
}

#[test]
fn test_parse_dev_list() {
    let text = r#"
--dev-hide "HID\{00001124-0000-1000-8000-00805f9b34fb}_VID&00020a5c_PID&4502&Col01\c&c7f3abb&4&0000"
--dev-hide "HID\{00001124-0000-1000-8000-00805f9b34fb}_VID&00020a5c_PID&4502&Col02\c&c7f3abb&4&0001"
--dev-hide "HID\{00001124-0000-1000-8000-00805f9b34fb}_VID&00020a5c_PID&4502&Col03\c&c7f3abb&4&0002"
"#;
    let devs = parse_dev_list(text);
    assert_eq!(devs.len(), 3);
    assert!(devs.contains(&r"hid\{00001124-0000-1000-8000-00805f9b34fb}_vid&00020a5c_pid&4502&col01\c&c7f3abb&4&0000".to_lowercase()));
    assert!(devs.contains(&r"hid\{00001124-0000-1000-8000-00805f9b34fb}_vid&00020a5c_pid&4502&col03\c&c7f3abb&4&0002".to_lowercase()));
}

#[test]
fn test_match_between_json_and_dev_list() {
    let json = r#"
        { "deviceInstancePath" : "HID\\{00001124-0000-1000-8000-00805f9b34fb}_VID&00020a5c_PID&4502&Col01\\c&c7f3abb&4&0000" }
        "#;
    let dev_list = r#"--dev-hide "HID\{00001124-0000-1000-8000-00805f9b34fb}_VID&00020a5c_PID&4502&Col01\c&c7f3abb&4&0000""#;

    let instances = extract_instance_paths(json, &OBOX_PATTERNS);
    let hidden = parse_dev_list(dev_list);

    assert_eq!(instances.len(), 1);
    assert!(hidden.contains(&instances[0].to_lowercase()));
}

#[test]
fn test_cloak_state_parsing() {
    let on = "--cloak-on";
    let off = "--cloak-off";
    assert!(on.contains("--cloak-on"));
    assert!(!on.contains("--cloak-off"));
    assert!(off.contains("--cloak-off"));
    assert_eq!(cloak_state(on), CloakState::On);
    assert_eq!(cloak_state(off), CloakState::Off);
}

#[test]
fn cloak_state_trims_and_reports_unknown() {
    assert_eq!(cloak_state("  --cloak-on\r\n"), CloakState::On);
    assert_eq!(cloak_state("something else"), CloakState::Unknown);
    assert_eq!(cloak_state(""), CloakState::Unknown);
    assert_eq!(classify_cloak("--cloak-on --cloak-off"), CloakState::Off);
}

#[test]
fn extract_unescapes_every_double_backslash() {
    let json = r#"{ "deviceInstancePath" : "A\\\\B\\C" }"#;
    let paths = extract_instance_paths(json, &[]);
    assert_eq!(paths, vec![r"A\\B\C".to_string()]);
}

#[test]
fn extract_takes_unterminated_value_to_the_end() {
    let json = r#"{ "deviceInstancePath" : "HID\\VID&0A5C&PID&4502&Col01"#;
    let paths = extract_instance_paths(json, &OBOX_PATTERNS);
    assert_eq!(paths, vec![r"HID\VID&0A5C&PID&4502&Col01".to_string()]);
}

#[test]
fn extract_skips_empty_values_and_keeps_order() {
    let json = r#""deviceInstancePath":"" "deviceInstancePath":"b" "deviceInstancePath":"a""#;
    let paths = extract_instance_paths(json, &[]);
    assert_eq!(paths, vec!["b".to_string(), "a".to_string()]);
}

#[test]
fn extract_stops_when_no_quote_follows_the_key() {
    assert!(extract_instance_paths(r#"x "deviceInstancePath" : 12"#, &[]).is_empty());
}

#[test]
fn matches_all_patterns_needs_every_pattern() {
    assert!(matches_all_patterns("hid\\vid&0a5c&pid&4502&col01", &OBOX_PATTERNS));
    assert!(!matches_all_patterns("hid\\vid&0a5c&pid&4502&col02", &OBOX_PATTERNS));
    assert!(matches_all_patterns("anything", &[]));
    assert!(matches_all_patterns("x", &[""]));
}

#[test]
fn parse_quoted_values_lowercases_and_dedups() {
    let lines = [
        "  --dev-hide \"ABC\"  ",
        "--dev-hide \"abc\"",
        "--dev-hide abc",
        "--dev-hide \"",
        "--app-reg \"X\"",
        "--dev-hide\"Q\"",
    ];
    let set = parse_quoted_values(&lines, "--dev-hide");
    assert_eq!(set, vec!["abc".to_string(), "q".to_string()]);
}

#[test]
fn parse_app_list_ignores_other_lines_and_crlf() {
    let text = "--app-reg \"C:\\A.exe\"\r\n--dev-hide \"C:\\B\"\r\n--app-reg \"C:\\a.EXE\"\r\n";
    assert_eq!(parse_app_list(text), vec!["c:\\a.exe".to_string()]);
    assert!(parse_app_list("").is_empty());
}

#[test]
fn registration_compares_case_insensitively() {
    let apps = parse_app_list("--app-reg \"D:\\Tools\\App.exe\"\n");
    assert!(is_registered(&apps, "d:\\TOOLS\\app.EXE"));
    assert!(!is_registered(&apps, "d:\\tools\\other.exe"));
    assert!(!is_registered(&Vec::new(), "x"));
}

#[test]
fn split_by_hidden_partitions_in_order() {
    let instances = vec!["HID\\A".to_string(), "HID\\B".to_string(), "HID\\C".to_string()];
    let hidden = vec!["hid\\b".to_string()];
    let split = split_by_hidden(&instances, &hidden);
    assert_eq!(split.hidden, vec!["HID\\B".to_string()]);
    assert_eq!(split.visible, vec!["HID\\A".to_string(), "HID\\C".to_string()]);
}

#[test]
fn hiding_twice_finds_nothing_left() {
    let instances = vec!["HID\\A".to_string(), "HID\\B".to_string()];
    let hidden: Vec<String> = instances.iter().map(|s| s.to_lowercase()).collect();
    let split = split_by_hidden(&instances, &hidden);
    assert!(split.visible.is_empty());
    assert_eq!(split.hidden, instances);
}

#[test]
fn cli_lookup_uses_default_path() {
    assert_eq!(cli_lookup(true), Ok(DEFAULT_CLI_PATH.to_string()));
    assert_eq!(cli_lookup(false), Err(HidHideError::CliNotFound));
}

#[test]
fn status_output_is_sorted_by_line_kind() {
    let combined = "--cloak-on\n--app-reg \"C:\\App.exe\"\n--dev-hide \"HID\\X\"\n[ {\n  \"a\" : 1 ] \n--app-reg \"C:\\B.exe\"\n";
    let s = split_status_output(combined);
    assert_eq!(s.cloak_state, "--cloak-on");
    assert_eq!(s.app_lines, vec!["--app-reg \"C:\\App.exe\"".to_string(), "--app-reg \"C:\\B.exe\"".to_string()]);
    assert_eq!(s.dev_lines, vec!["--dev-hide \"HID\\X\"".to_string()]);
    assert!(s.json_lines.is_empty());
    let combined2 = "--cloak-off\n{ \"deviceInstancePath\" : \"x\"\n--app-reg \"Z\" ]\n--dev-hide \"Y\"";
    let s2 = split_status_output(combined2);
    assert_eq!(s2.cloak_state, "--cloak-off");
    assert_eq!(s2.json_lines, vec!["{ \"deviceInstancePath\" : \"x\"".to_string(), "--app-reg \"Z\" ]".to_string()]);
    assert!(s2.app_lines.is_empty());
    assert_eq!(s2.dev_lines, vec!["--dev-hide \"Y\"".to_string()]);
}

#[test]
fn status_summary_reports_registration_and_hiding() {
    let combined = "--cloak-off\n--app-reg \"C:\\Drv\\Driver.exe\"\n--app-reg \"C:\\Other.exe\"\n--dev-hide \"HID\\VID&0A5C&PID&4502&Col01\\1\"\n{ \"deviceInstancePath\" : \"HID\\\\VID&0A5C&PID&4502&Col01\\\\1\" },\n{ \"deviceInstancePath\" : \"HID\\\\VID&0A5C&PID&4502&Col02\\\\2\" } ]\n";
    let st = summarize_status(combined, "c:\\drv\\DRIVER.exe");
    assert_eq!(st.cloak, CloakState::Off);
    assert_eq!(st.cloak_line, "--cloak-off");
    assert!(st.app_registered);
    assert_eq!(st.registered_count, 2);
    assert_eq!(st.instances, vec!["HID\\VID&0A5C&PID&4502&Col01\\1".to_string()]);
    assert_eq!(st.instance_hidden, vec![true]);
}

const GAMING: &str = "[ { \"deviceInstancePath\" : \"HID\\\\{00001124-0000-1000-8000-00805f9b34fb}_VID&00020a5c_PID&4502&Col01\\\\8&1\" },\n  { \"deviceInstancePath\" : \"HID\\\\VID&0A5C&PID&4502&Col01\\\\9&2\" },\n  { \"deviceInstancePath\" : \"HID\\\\VID&0A5C&PID&4502&Col02\\\\9&3\" } ]";

#[test]
fn enabling_registers_the_driver_once() {
    let call = register_call("--app-reg \"C:\\Other.exe\"\n", "C:\\Drv\\Driver.exe");
    assert!(matches!(call, Some(CliCall::AppReg(p)) if p == "C:\\Drv\\Driver.exe"));
    let again = register_call("--app-reg \"c:\\drv\\driver.exe\"\n", "C:\\Drv\\Driver.exe");
    assert!(again.is_none());
}

#[test]
fn enabling_hides_only_what_is_visible() {
    let plan = plan_hide(GAMING, "");
    assert_eq!(plan.instances.len(), 2);
    assert_eq!(plan.calls.len(), 2);
    assert!(matches!(&plan.calls[0], CliCall::DevHide(p) if p == "HID\\{00001124-0000-1000-8000-00805f9b34fb}_VID&00020a5c_PID&4502&Col01\\8&1"));
    assert!(matches!(&plan.calls[1], CliCall::DevHide(p) if p == "HID\\VID&0A5C&PID&4502&Col01\\9&2"));
    let hidden = "--dev-hide \"hid\\vid&0a5c&pid&4502&col01\\9&2\"\n";
    let plan2 = plan_hide(GAMING, hidden);
    assert_eq!(plan2.calls.len(), 1);
    assert!(matches!(&plan2.calls[0], CliCall::DevHide(p) if p.ends_with("8&1")));
    let all_hidden = "--dev-hide \"HID\\{00001124-0000-1000-8000-00805F9B34FB}_VID&00020A5C_PID&4502&COL01\\8&1\"\n--dev-hide \"HID\\VID&0A5C&PID&4502&Col01\\9&2\"";
    assert!(plan_hide(GAMING, all_hidden).calls.is_empty());
}

#[test]
fn disabling_unhides_only_what_is_hidden() {
    assert!(plan_unhide(GAMING, "").calls.is_empty());
    let hidden = "--dev-hide \"HID\\VID&0A5C&PID&4502&Col01\\9&2\"\n";
    let plan = plan_unhide(GAMING, hidden);
    assert_eq!(plan.instances.len(), 2);
    assert_eq!(plan.calls.len(), 1);
    assert!(matches!(&plan.calls[0], CliCall::DevUnhide(p) if p == "HID\\VID&0A5C&PID&4502&Col01\\9&2"));
}

#[test]
fn cloak_is_switched_on_only_when_off() {
    assert!(matches!(cloak_call("--cloak-off\r\n"), Some(CliCall::CloakOn)));
    assert!(cloak_call("--cloak-on\n").is_none());
    assert!(cloak_call("").is_none());
}

#[test]
fn dev_gaming_path_is_found_in_dev_list() {
    let p = "HID\\VID&0A5C&PID&4502&Col01\\7&AB";
    let json = format!("{{ \"deviceInstancePath\" : \"{}\" }}", p.replace('\\', "\\\\"));
    assert_eq!(extract_instance_paths(&json, &OBOX_PATTERNS), vec![p.to_string()]);
    let dev = format!("--dev-hide \"{}\"", p);
    assert_eq!(parse_dev_list(&dev), vec![p.to_lowercase()]);
}

#[test]
fn app_list_written_back_parses_to_the_same_set() {
    let set = parse_app_list("--app-reg \"C:\\A\\Driver.exe\"\n--app-reg \"D:\\Game.EXE\"\n--app-reg \"c:\\a\\driver.exe\"\n");
    assert_eq!(set, vec!["c:\\a\\driver.exe".to_string(), "d:\\game.exe".to_string()]);
    let mut text = String::new();
    for v in set.iter().rev() {
        text.push_str(&format!("--app-reg \"{}\"\n", v));
    }
    let again = parse_app_list(&text);
    assert_eq!(again, vec!["d:\\game.exe".to_string(), "c:\\a\\driver.exe".to_string()]);
    assert!(matches!(register_call(&text, "C:\\A\\DRIVER.exe"), None));
}

#[test]
fn matching_ignores_case_and_keeps_each_path_as_written() {
    let lower = r#"{ "deviceInstancePath" : "hid\\vid&0a5c&pid&4502&col01\\7&ab" }"#;
    let upper = r#"{ "deviceInstancePath" : "HID\\VID&0A5C&PID&4502&COL01\\7&AB" }"#;
    assert_eq!(extract_instance_paths(lower, &OBOX_PATTERNS), vec![r"hid\vid&0a5c&pid&4502&col01\7&ab".to_string()]);
    assert_eq!(extract_instance_paths(upper, &OBOX_PATTERNS), vec![r"HID\VID&0A5C&PID&4502&COL01\7&AB".to_string()]);
    let other = r#"{ "deviceInstancePath" : "HID\\VID&0A5C&PID&4502&COL02\\7&AB" }"#;
    assert!(extract_instance_paths(other, &OBOX_PATTERNS).is_empty());
}
