use obox_controller_driver::output::{
    led_all_off, led_blue, led_consumer, led_green, led_home, led_red, led_report, led_white,
    rumble_command, rumble_report, RumbleHeartbeat, IDLE_POLL_MS, PULSE_INTERVAL_MS,
};

#[test]
fn heartbeat_pulses_while_active_and_stops_once() {
    let mut hb = RumbleHeartbeat::new();
    assert_eq!(hb.tick(), (None, IDLE_POLL_MS));
    hb.notify(0x80, 0x40);
    for _ in 0..3 {
        assert_eq!(hb.tick(), (Some([0xB3, 0x02, 0x05, 0x80, 0, 0x40, 0, 0, 0, 0, 0, 0, 0]), PULSE_INTERVAL_MS));
    }
    hb.notify(0, 0x20);
    assert_eq!(hb.tick(), (Some(rumble_command(0, 0x20)), 30));
    hb.notify(0, 0);
    assert_eq!(hb.tick(), (Some([0xB3, 0x02, 0x0A, 0, 0, 0, 0, 0, 0, 0, 0, 0, 0]), 10));
    assert_eq!(hb.tick(), (None, 10));
    assert_eq!(hb.tick(), (None, 10));
    // A stop request while idle sends nothing.
    hb.notify(0, 0);
    assert_eq!(hb.tick(), (None, 10));
}

#[test]
fn rumble_report_bytes() {
    assert_eq!(
        rumble_report(0x05, 0xFF, 0x08, 0xFF, 0x08),
        [0xB3, 0x02, 0x05, 0xFF, 0x08, 0xFF, 0x08, 0, 0, 0, 0, 0, 0]
    );
}

#[test]
fn rumble_command_starts_or_stops_motors() {
    assert_eq!(rumble_command(0, 0), [0xB3, 0x02, 0x0A, 0, 0, 0, 0, 0, 0, 0, 0, 0, 0]);
    assert_eq!(rumble_command(0x80, 0), [0xB3, 0x02, 0x01, 0x80, 0, 0, 0, 0, 0, 0, 0, 0, 0]);
    assert_eq!(rumble_command(0, 0x40), [0xB3, 0x02, 0x04, 0, 0, 0x40, 0, 0, 0, 0, 0, 0, 0]);
    assert_eq!(rumble_command(1, 2), [0xB3, 0x02, 0x05, 1, 0, 2, 0, 0, 0, 0, 0, 0, 0]);
}

#[test]
fn led_report_layout() {
    assert_eq!(
        led_report([(0x01, 0x80), (0x02, 0), (0x01, 0xFF), (0, 0), (0, 0)]),
        [0xB3, 0x01, 0x01, 0x80, 0x02, 0x00, 0x01, 0xFF, 0, 0, 0, 0, 0]
    );
}

#[test]
fn led_presets() {
    assert_eq!(led_red(0x10), [0xB3, 1, 1, 0x10, 2, 0, 2, 0, 0, 0, 0, 0, 0]);
    assert_eq!(led_green(0x20), [0xB3, 1, 2, 0, 1, 0x20, 2, 0, 0, 0, 0, 0, 0]);
    assert_eq!(led_blue(0x30), [0xB3, 1, 2, 0, 2, 0, 1, 0x30, 0, 0, 0, 0, 0]);
    assert_eq!(led_white(), [0xB3, 1, 1, 0xFF, 1, 0xFF, 1, 0xFF, 0, 0, 0, 0, 0]);
    assert_eq!(led_all_off(), [0xB3, 1, 2, 0, 2, 0, 2, 0, 2, 0, 2, 0, 0]);
    assert_eq!(led_home(0xFF), [0xB3, 1, 0, 0, 0, 0, 0, 0, 1, 0xFF, 0, 0, 0]);
    assert_eq!(led_home(0), [0xB3, 1, 0, 0, 0, 0, 0, 0, 2, 0, 0, 0, 0]);
    assert_eq!(led_consumer(0x7F), [0xB3, 1, 0, 0, 0, 0, 0, 0, 0, 0, 1, 0x7F, 0]);
    assert_eq!(led_consumer(0), [0xB3, 1, 0, 0, 0, 0, 0, 0, 0, 0, 2, 0, 0]);
}
