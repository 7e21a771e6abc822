use obox_controller_driver::buttons::{
    button_bit, consumer_usage_to_xbox, hat_buttons, map_gamepad_buttons, trigger_to_byte,
    XB_A, XB_B, XB_BACK, XB_DOWN, XB_GUIDE, XB_LB, XB_LEFT, XB_LTHUMB, XB_RB, XB_RIGHT,
    XB_RTHUMB, XB_START, XB_UP, XB_X, XB_Y,
};
use obox_controller_driver::gamepad::{
    apply_consumer_usages, parse_consumer_report, parse_gamepad_report, update_gamepad_state,
    ControllerState, GamepadReport, PadReport, Thumbs,
};

fn report(buttons: u16, hat: u8, sticks: [u16; 4], l2: u16, r2: u16) -> Vec<u8> {
    let mut v = vec![0x07u8];
    v.extend_from_slice(&buttons.to_le_bytes());
    v.push(hat);
    for s in sticks {
        v.extend_from_slice(&s.to_le_bytes());
    }
    v.extend_from_slice(&l2.to_le_bytes());
    v.extend_from_slice(&r2.to_le_bytes());
    v
}

#[test]
fn trigger_threshold_and_high_byte() {
    assert_eq!(trigger_to_byte(0), 0);
    assert_eq!(trigger_to_byte(99), 0);
    assert_eq!(trigger_to_byte(100), 0);
    assert_eq!(trigger_to_byte(256), 1);
    assert_eq!(trigger_to_byte(0x8000), 0x80);
    assert_eq!(trigger_to_byte(65535), 255);
}

#[test]
fn button_bits_follow_the_protocol_table() {
    assert_eq!(button_bit(1), Some(XB_A));
    assert_eq!(button_bit(2), Some(XB_B));
    assert_eq!(button_bit(3), None);
    assert_eq!(button_bit(4), Some(XB_X));
    assert_eq!(button_bit(5), Some(XB_Y));
    assert_eq!(button_bit(7), Some(XB_LB));
    assert_eq!(button_bit(8), Some(XB_RB));
    assert_eq!(button_bit(14), Some(XB_LTHUMB));
    assert_eq!(button_bit(15), Some(XB_RTHUMB));
    assert_eq!(button_bit(16), None);
    assert_eq!(button_bit(0), None);
}

#[test]
fn consumer_usages_map_to_back_start_guide() {
    assert_eq!(consumer_usage_to_xbox(0x224), Some(XB_BACK));
    assert_eq!(consumer_usage_to_xbox(0x040), Some(XB_START));
    assert_eq!(consumer_usage_to_xbox(0x223), Some(XB_GUIDE));
    assert_eq!(consumer_usage_to_xbox(0), None);
    assert_eq!(consumer_usage_to_xbox(0x225), None);
}

#[test]
fn hat_positions_give_dpad_buttons() {
    assert_eq!(hat_buttons(0), vec![XB_UP]);
    assert_eq!(hat_buttons(1), vec![XB_UP, XB_RIGHT]);
    assert_eq!(hat_buttons(3), vec![XB_DOWN, XB_RIGHT]);
    assert_eq!(hat_buttons(5), vec![XB_DOWN, XB_LEFT]);
    assert_eq!(hat_buttons(7), vec![XB_UP, XB_LEFT]);
    assert!(hat_buttons(8).is_empty());
}

#[test]
fn gamepad_bitmap_maps_to_xbox_buttons() {
    assert_eq!(map_gamepad_buttons(0, 8), 0);
    assert_eq!(map_gamepad_buttons(0x0001, 8), XB_A);
    assert_eq!(map_gamepad_buttons(0x0004 | 0x0020 | 0x0100 | 0x8000, 15), 0);
    assert_eq!(map_gamepad_buttons(0x6000, 8), XB_LTHUMB | XB_RTHUMB);
    assert_eq!(map_gamepad_buttons(0xFFFF, 1), XB_A | XB_B | XB_X | XB_Y | XB_LB | XB_RB | XB_LTHUMB | XB_RTHUMB | XB_UP | XB_RIGHT);
    assert_eq!(map_gamepad_buttons(0x00C0, 6), XB_LB | XB_RB | XB_LEFT);
}

#[test]
fn gamepad_report_is_recognised_by_length_and_id() {
    let r = report(0x0102, 0x13, [1, 2, 3, 0xFFFF], 0x1234, 0xABCD);
    assert_eq!(
        parse_gamepad_report(&r),
        Some(GamepadReport { buttons: 0x0102, hat: 3, lx: 1, ly: 2, rx: 3, ry: 0xFFFF, l2: 0x1234, r2: 0xABCD })
    );
    assert_eq!(parse_gamepad_report(&r[..15]), None);
    let mut wrong = r.clone();
    wrong[0] = 0x0A;
    assert_eq!(parse_gamepad_report(&wrong), None);
}

#[test]
fn update_sets_buttons_triggers_thumbs_and_dirty() {
    let mut s = ControllerState::new();
    s.dirty = false;
    s.consumer_buttons = XB_BACK;
    let r = report(0x0001 | 0x0008, 2, [0; 4], 50, 0x4000);
    let thumbs = Thumbs { lx: 1, ly: -2, rx: 3, ry: -4 };
    update_gamepad_state(&mut s, &r, thumbs);
    assert_eq!(s.gamepad_buttons, XB_A | XB_X | XB_RIGHT);
    assert_eq!(s.consumer_buttons, XB_BACK);
    assert_eq!((s.lt, s.rt), (0, 0x40));
    assert_eq!((s.thumb_lx, s.thumb_ly, s.thumb_rx, s.thumb_ry), (1, -2, 3, -4));
    assert!(s.dirty);
}

#[test]
fn initial_state_sends_one_zero_report() {
    let mut s = ControllerState::default();
    assert_eq!(
        s.take_pending_report(),
        Some(PadReport { buttons: 0, left_trigger: 0, right_trigger: 0, thumb_lx: 0, thumb_ly: 0, thumb_rx: 0, thumb_ry: 0 })
    );
    assert_eq!(s.take_pending_report(), None);
}

#[test]
fn pending_report_joins_gamepad_and_consumer_buttons() {
    let mut s = ControllerState::new();
    s.gamepad_buttons = XB_A;
    s.consumer_buttons = XB_GUIDE;
    let r = s.take_pending_report().unwrap();
    assert_eq!(r.buttons, XB_A | XB_GUIDE);
    assert_eq!(s.take_pending_report(), None);
}

#[test]
fn consumer_report_is_a_usage_set() {
    let buf = [0x0A, 0x24, 0x02, 0x00, 0x00, 0x24, 0x02, 0x99];
    let set = parse_consumer_report(&buf).unwrap();
    assert_eq!(set, vec![0x224]);
    let buf2 = [0x0A, 0x40, 0x00, 0x23, 0x02, 0x00, 0x00];
    let mut set2 = parse_consumer_report(&buf2).unwrap();
    set2.sort();
    assert_eq!(set2, vec![0x040, 0x223]);
    assert_eq!(parse_consumer_report(&buf2[..6]), None);
    assert_eq!(parse_consumer_report(&[0x07, 0, 0, 0, 0, 0, 0]), None);
}

#[test]
fn consumer_press_and_release_by_set_difference() {
    let mut s = ControllerState::new();
    s.dirty = false;
    let empty: Vec<u16> = vec![];
    let back_menu = vec![0x224, 0x040];
    apply_consumer_usages(&mut s, &empty, &back_menu);
    assert_eq!(s.consumer_buttons, XB_BACK | XB_START);
    assert!(s.dirty);
    s.dirty = false;
    // same keys in another slot order: nothing changes
    let menu_back = vec![0x040, 0x224];
    apply_consumer_usages(&mut s, &back_menu, &menu_back);
    assert_eq!(s.consumer_buttons, XB_BACK | XB_START);
    assert!(!s.dirty);
    let home = vec![0x223];
    apply_consumer_usages(&mut s, &menu_back, &home);
    assert_eq!(s.consumer_buttons, XB_GUIDE);
    assert!(s.dirty);
    s.dirty = false;
    let unknown = vec![0x999];
    apply_consumer_usages(&mut s, &home, &unknown);
    assert_eq!(s.consumer_buttons, 0);
    assert!(s.dirty);
    s.dirty = false;
    apply_consumer_usages(&mut s, &unknown, &empty);
    assert_eq!(s.consumer_buttons, 0);
    assert!(!s.dirty);
}
