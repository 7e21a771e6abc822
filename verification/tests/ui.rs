use obox_controller_driver::cli::{deadzone_enabled, parse_command, CliCommand};
use obox_controller_driver::debug::{
    consumer_usage_name, consumer_usages_text, debug_command_of, gamepad_button_names,
    hat_direction, hat_label,
    parse_debug_command, report_changed, same_usages, DebugCommand,
};
use obox_controller_driver::gamepad::GamepadReport;
use obox_controller_driver::output::{led_home, led_red, rumble_report};
use obox_controller_driver::tray::{
    entry_is_decodable, fallback_icon, led_command, load_icon_rgba, mac_text, menu_action, status_text,
    ConnectionStatus, LedType, MenuAction,
};

#[test]
fn hat_direction_names() {
    let names: Vec<&str> = (0u8..10).map(hat_direction).collect();
    assert_eq!(names, vec!["N", "NE", "E", "SE", "S", "SW", "W", "NW", "?", "?"]);
}

#[test]
fn consumer_usage_names() {
    assert_eq!(consumer_usage_name(0x224), "BACK");
    assert_eq!(consumer_usage_name(0x040), "MENU/START");
    assert_eq!(consumer_usage_name(0x223), "HOME/GUIDE");
    assert_eq!(consumer_usage_name(0x001), "unknown");
}

#[test]
fn button_names_are_joined_by_commas() {
    assert_eq!(gamepad_button_names(0), "(none)");
    assert_eq!(gamepad_button_names(0x0001), "A");
    assert_eq!(gamepad_button_names(0x0001 | 0x0002 | 0x0040), "A,B,LB");
    assert_eq!(gamepad_button_names(0x60DB), "A,B,X,Y,LB,RB,L3,R3");
    assert_eq!(gamepad_button_names(0x0008 | 0x4000), "X,R3");
    // Bits that name no button (BACK, START and the triggers' digital bits).
    assert_eq!(gamepad_button_names(0x0C04 | 0x0300 | 0x1000), "(none)");
}

#[test]
fn debug_menu_commands() {
    assert!(matches!(parse_debug_command("  1 \n"), DebugCommand::Rumble(r) if r == rumble_report(0x01, 0xFF, 0, 0, 0)));
    assert!(matches!(parse_debug_command("7"), DebugCommand::Rumble(r) if r == rumble_report(0x05, 0xFF, 4, 0xFF, 4)));
    assert!(matches!(parse_debug_command("R"), DebugCommand::Led(r) if r == led_red(0xFF)));
    assert!(matches!(parse_debug_command("h"), DebugCommand::Led(r) if r == led_home(0xFF)));
    assert!(matches!(parse_debug_command("EXIT"), DebugCommand::Exit));
    assert!(matches!(parse_debug_command("q"), DebugCommand::Exit));
    assert!(matches!(parse_debug_command("0"), DebugCommand::Exit));
    assert!(matches!(parse_debug_command("   "), DebugCommand::Empty));
    assert!(matches!(parse_debug_command("zz"), DebugCommand::Unknown));
    assert!(matches!(debug_command_of("R"), DebugCommand::Unknown));
}

#[test]
fn usage_sets_compare_without_order() {
    assert!(same_usages(&vec![1, 2], &vec![2, 1]));
    assert!(!same_usages(&vec![1], &vec![1, 2]));
    assert!(same_usages(&vec![], &vec![]));
}

#[test]
fn command_line_arguments() {
    assert_eq!(parse_command(""), CliCommand::Run);
    assert_eq!(parse_command("--help"), CliCommand::Help);
    assert_eq!(parse_command("-h"), CliCommand::Help);
    assert_eq!(parse_command("--hidhide-status"), CliCommand::HidHideStatus);
    assert_eq!(parse_command("--hidhide-disable"), CliCommand::HidHideDisable);
    assert_eq!(parse_command("--debug-keys"), CliCommand::DebugKeys);
    assert_eq!(parse_command("--debug-output"), CliCommand::DebugOutput);
    assert_eq!(parse_command("foo"), CliCommand::Unknown);
    assert_eq!(parse_command("--cli"), CliCommand::Run);
}

#[test]
fn tray_texts() {
    assert_eq!(status_text(ConnectionStatus::Disconnected), "Status: Disconnected");
    assert_eq!(status_text(ConnectionStatus::Connected), "Status: Connected");
    assert_eq!(status_text(ConnectionStatus::Reconnecting), "Status: Reconnecting...");
    assert_eq!(mac_text(""), "MAC: N/A");
    assert_eq!(mac_text("AA:BB"), "MAC: AA:BB");
}

#[test]
fn tray_led_commands_use_documented_offsets() {
    assert_eq!(led_command(LedType::Red, true), [0xB3, 1, 1, 0xFF, 0, 0, 0, 0, 0, 0, 0, 0, 0]);
    assert_eq!(led_command(LedType::Green, false), [0xB3, 1, 0, 0, 2, 0, 0, 0, 0, 0, 0, 0, 0]);
    assert_eq!(led_command(LedType::Blue, true), [0xB3, 1, 0, 0, 0, 0, 1, 0xFF, 0, 0, 0, 0, 0]);
    assert_eq!(led_command(LedType::Home, true), [0xB3, 1, 0, 0, 0, 0, 0, 0, 1, 0xFF, 0, 0, 0]);
    assert_eq!(led_command(LedType::Consumer, false), [0xB3, 1, 0, 0, 0, 0, 0, 0, 0, 0, 2, 0, 0]);
}

#[test]
fn tray_menu_ids() {
    assert_eq!(menu_action("exit"), MenuAction::Exit);
    assert_eq!(menu_action("red_on"), MenuAction::Led(LedType::Red, true));
    assert_eq!(menu_action("home_off"), MenuAction::Led(LedType::Home, false));
    assert_eq!(menu_action("consumer_on"), MenuAction::Led(LedType::Consumer, true));
    assert_eq!(menu_action("status"), MenuAction::Ignore);
    assert_eq!(menu_action("deadzone_toggle"), MenuAction::ToggleDeadzone);
}

#[test]
fn deadzone_switch_on_command_line() {
    assert!(deadzone_enabled(""));
    assert!(deadzone_enabled("--cli"));
    assert!(!deadzone_enabled("--no-deadzone"));
    assert_eq!(parse_command("--no-deadzone"), CliCommand::Run);
}

#[test]
fn key_debug_prints_only_changed_reports() {
    let r = GamepadReport { buttons: 1, hat: 8, lx: 0x8000, ly: 0x8000, rx: 0x8000, ry: 0x8000, l2: 0, r2: 0 };
    assert!(report_changed(None, r));
    assert!(!report_changed(Some(r), r));
    assert!(report_changed(Some(r), GamepadReport { hat: 0, ..r }));
    assert!(report_changed(Some(r), GamepadReport { r2: 1, ..r }));
}

#[test]
fn fallback_icon_is_green_square() {
    let icon = fallback_icon();
    assert_eq!((icon.width, icon.height), (32, 32));
    assert_eq!(icon.rgba.len(), 32 * 32 * 4);
    assert_eq!(&icon.rgba[..8], &[0x4A, 0x96, 0x2A, 0xFF, 0x4A, 0x96, 0x2A, 0xFF]);
}

fn tiny_ico() -> Vec<u8> {
    // One 1x1 32-bit BMP entry holding a single red pixel.
    let mut bmp = Vec::new();
    bmp.extend_from_slice(&40u32.to_le_bytes());
    bmp.extend_from_slice(&1i32.to_le_bytes());
    bmp.extend_from_slice(&2i32.to_le_bytes());
    bmp.extend_from_slice(&1u16.to_le_bytes());
    bmp.extend_from_slice(&32u16.to_le_bytes());
    bmp.extend_from_slice(&[0u8; 24]);
    bmp.extend_from_slice(&[0x00, 0x00, 0xFF, 0xFF]);
    bmp.extend_from_slice(&[0u8; 4]);
    let mut ico = vec![0, 0, 1, 0, 1, 0];
    ico.extend_from_slice(&[1, 1, 0, 0]);
    ico.extend_from_slice(&1u16.to_le_bytes());
    ico.extend_from_slice(&32u16.to_le_bytes());
    ico.extend_from_slice(&(bmp.len() as u32).to_le_bytes());
    ico.extend_from_slice(&22u32.to_le_bytes());
    ico.extend_from_slice(&bmp);
    ico
}

#[test]
fn icon_file_decodes_first_entry() {
    let icon = load_icon_rgba(&tiny_ico());
    assert_eq!((icon.width, icon.height), (1, 1));
    assert_eq!(icon.rgba, vec![0xFF, 0x00, 0x00, 0xFF]);
}

fn bmp_header(width: i32, stored_height: i32, bpp: u16) -> Vec<u8> {
    let mut bmp = Vec::new();
    bmp.extend_from_slice(&40u32.to_le_bytes());
    bmp.extend_from_slice(&width.to_le_bytes());
    bmp.extend_from_slice(&stored_height.to_le_bytes());
    bmp.extend_from_slice(&1u16.to_le_bytes());
    bmp.extend_from_slice(&bpp.to_le_bytes());
    bmp.extend_from_slice(&[0u8; 24]);
    bmp
}

fn ico_with(entry_data: &[u8]) -> Vec<u8> {
    let mut ico = vec![0, 0, 1, 0, 1, 0];
    ico.extend_from_slice(&[0, 0, 0, 0]);
    ico.extend_from_slice(&1u16.to_le_bytes());
    ico.extend_from_slice(&32u16.to_le_bytes());
    ico.extend_from_slice(&(entry_data.len() as u32).to_le_bytes());
    ico.extend_from_slice(&22u32.to_le_bytes());
    ico.extend_from_slice(entry_data);
    ico
}

#[test]
fn bmp_headers_whose_sizes_overflow_are_not_decoded() {
    // 65536 x 65536 pixels: 4 x width x height wraps in 32 bits.
    let mut huge = bmp_header(65536, 131072, 32);
    huge.extend_from_slice(&[1, 2, 3, 4, 5, 6, 7, 8]);
    assert!(!entry_is_decodable(&huge));
    let icon = load_icon_rgba(&ico_with(&huge));
    assert_eq!((icon.width, icon.height), (32, 32));
    assert_eq!(icon.rgba, fallback_icon().rgba);
    // More pixels than the data could hold.
    assert!(!entry_is_decodable(&bmp_header(100, 200, 32)));
    // Headers rejected before any size arithmetic, and PNG data.
    assert!(entry_is_decodable(&bmp_header(0, 2, 32)));
    assert!(entry_is_decodable(&bmp_header(1, 3, 32)));
    assert!(entry_is_decodable(&[0x89, b'P', b'N', b'G']));
    assert!(entry_is_decodable(&[1, 2, 3]));
    let mut small = bmp_header(1, 2, 32);
    small.extend_from_slice(&[0u8; 8]);
    assert!(entry_is_decodable(&small));
}

#[test]
fn malformed_icon_file_gives_fallback() {
    let icon = load_icon_rgba(&[1, 2, 3]);
    assert_eq!((icon.width, icon.height), (32, 32));
    assert_eq!(icon.rgba, fallback_icon().rgba);
}

#[test]
fn hat_labels_name_released_positions() {
    assert_eq!(hat_label(0), "N");
    assert_eq!(hat_label(7), "NW");
    assert_eq!(hat_label(8), "released");
    assert_eq!(hat_label(0xFF), "released");
}

#[test]
fn consumer_usage_lines() {
    assert_eq!(consumer_usages_text(&vec![]), "(empty/released)");
    assert_eq!(consumer_usages_text(&vec![0x224]), "0x0224(BACK)");
    assert_eq!(
        consumer_usages_text(&vec![0x040, 0x223, 0xABCD]),
        "0x0040(MENU/START), 0x0223(HOME/GUIDE), 0xABCD(unknown)"
    );
}
